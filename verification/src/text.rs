//! Text primitives shared by the scraping and assembling code: searching,
//! cutting and trimming strings, and writing numbers in decimal.
//!
//! Every function is specified over `Seq<char>`, the view of a string.

use vstd::prelude::*;
use vstd::string::StringExecFns;

verus! {

/// `pattern` occurs in `text` starting at position `at`.
pub open spec fn occurs_at(text: Seq<char>, pattern: Seq<char>, at: int) -> bool {
    &&& 0 <= at
    &&& at + pattern.len() <= text.len()
    &&& text.subrange(at, at + pattern.len()) == pattern
}

/// `pattern` occurs somewhere in `text`.
pub open spec fn occurs(text: Seq<char>, pattern: Seq<char>) -> bool {
    exists|at: int| occurs_at(text, pattern, at)
}

/// `at` is the leftmost position at which `pattern` occurs in `text`.
pub open spec fn is_first_occurrence(text: Seq<char>, pattern: Seq<char>, at: int) -> bool {
    &&& occurs_at(text, pattern, at)
    &&& forall|earlier: int| 0 <= earlier < at ==> !occurs_at(text, pattern, earlier)
}

/// The part of `text` before the leftmost occurrence of `pattern`; all of
/// `text` where `pattern` does not occur.
pub open spec fn prefix_before(text: Seq<char>, pattern: Seq<char>) -> Seq<char> {
    if occurs(text, pattern) {
        text.take(choose|at: int| is_first_occurrence(text, pattern, at))
    } else {
        text
    }
}

/// `at` is the position of the last `mark` in `text`.
pub open spec fn is_last_mark(text: Seq<char>, mark: char, at: int) -> bool {
    &&& 0 <= at < text.len()
    &&& text[at] == mark
    &&& forall|later: int| at < later < text.len() ==> text[later] != mark
}

/// The part of `text` after the last `mark`; all of `text` where it holds no
/// `mark`.
pub open spec fn suffix_after(text: Seq<char>, mark: char) -> Seq<char> {
    if text.contains(mark) {
        text.skip((choose|at: int| is_last_mark(text, mark, at)) + 1)
    } else {
        text
    }
}

/// Whether `c` has the Unicode property `White_Space`: the result of
/// `char::is_whitespace`.
pub uninterp spec fn is_white_space(c: char) -> bool;

/// The claim of `char::is_whitespace`: its result depends on the character
/// alone.
pub assume_specification[ char::is_whitespace ](c: char) -> (white: bool)
    ensures
        white == is_white_space(c),
;

/// `text` without its leading white space.
pub open spec fn trimmed_start(text: Seq<char>) -> Seq<char>
    decreases text.len(),
{
    if text.len() > 0 && is_white_space(text.first()) {
        trimmed_start(text.drop_first())
    } else {
        text
    }
}

/// `text` without its trailing white space.
pub open spec fn trimmed_end(text: Seq<char>) -> Seq<char>
    decreases text.len(),
{
    if text.len() > 0 && is_white_space(text.last()) {
        trimmed_end(text.drop_last())
    } else {
        text
    }
}

/// `text` without the white space around it.
pub open spec fn trimmed(text: Seq<char>) -> Seq<char> {
    trimmed_end(trimmed_start(text))
}

/// The decimal digit for `d`, where `d < 10`.
pub open spec fn digit(d: nat) -> char {
    if d == 0 {
        '0'
    } else if d == 1 {
        '1'
    } else if d == 2 {
        '2'
    } else if d == 3 {
        '3'
    } else if d == 4 {
        '4'
    } else if d == 5 {
        '5'
    } else if d == 6 {
        '6'
    } else if d == 7 {
        '7'
    } else if d == 8 {
        '8'
    } else {
        '9'
    }
}

/// `n` written in decimal, without leading zeros.
pub open spec fn decimal(n: nat) -> Seq<char>
    decreases n,
{
    if n < 10 {
        seq![digit(n)]
    } else {
        decimal(n / 10).push(digit(n % 10))
    }
}

/// Skipping `from` characters that are all white, and then stopping at the end
/// or at a character that is not white, is `trimmed_start`.
proof fn lemma_trimmed_start(text: Seq<char>, from: int)
    requires
        0 <= from <= text.len(),
        forall|i: int| 0 <= i < from ==> is_white_space(text[i]),
        from < text.len() ==> !is_white_space(text[from]),
    ensures
        trimmed_start(text) == text.skip(from),
    decreases from,
{
    if from == 0 {
        assert(text.skip(0) == text);
    } else {
        let rest = text.drop_first();
        assert forall|i: int| 0 <= i < from - 1 implies is_white_space(rest[i]) by {
            assert(rest[i] == text[i + 1]);
        }
        lemma_trimmed_start(rest, from - 1);
        assert(rest.skip(from - 1) == text.skip(from));
    }
}

/// Cutting `text` at `to`, where everything from `to` on is white and the
/// character before `to`, if any, is not, is `trimmed_end`.
proof fn lemma_trimmed_end(text: Seq<char>, to: int)
    requires
        0 <= to <= text.len(),
        forall|i: int| to <= i < text.len() ==> is_white_space(text[i]),
        0 < to ==> !is_white_space(text[to - 1]),
    ensures
        trimmed_end(text) == text.take(to),
    decreases text.len() - to,
{
    if to == text.len() {
        assert(text.take(to) == text);
    } else {
        let rest = text.drop_last();
        lemma_trimmed_end(rest, to);
        assert(rest.take(to) == text.take(to));
    }
}

/// The characters of `text`, in order, for indexed access.
pub fn chars_of(text: &str) -> (chars: Vec<char>)
    ensures
        chars@ == text@,
{
    let mut chars: Vec<char> = Vec::new();
    for c in it: text.chars()
        invariant
            it.seq() == text@,
            chars@ == text@.take(it.index() as int),
    {
        chars.push(c);
    }
    chars
}

/// Whether `pattern` occurs in `text` at position `at`.
pub fn matches_at(text: &Vec<char>, pattern: &Vec<char>, at: usize) -> (found: bool)
    ensures
        found == occurs_at(text@, pattern@, at as int),
{
    if pattern.len() > text.len() || at > text.len() - pattern.len() {
        return false;
    }
    let mut k: usize = 0;
    while k < pattern.len()
        invariant
            at + pattern.len() <= text.len(),
            k <= pattern.len(),
            forall|j: int| 0 <= j < k ==> text@[at + j] == pattern@[j],
        decreases pattern.len() - k,
    {
        if text[at + k] != pattern[k] {
            proof {
                let window = text@.subrange(at as int, at + pattern.len());
                assert(window[k as int] == text@[at + k]);
            }
            return false;
        }
        k += 1;
    }
    assert(text@.subrange(at as int, at + pattern.len()) =~= pattern@);
    true
}

/// The leftmost position at which `pattern` occurs in `text`.
pub fn find(text: &Vec<char>, pattern: &Vec<char>) -> (found: Option<usize>)
    ensures
        match found {
            Some(at) => is_first_occurrence(text@, pattern@, at as int),
            None => !occurs(text@, pattern@),
        },
{
    let mut at: usize = 0;
    while at < text.len()
        invariant
            at <= text.len(),
            forall|earlier: int| 0 <= earlier < at ==> !occurs_at(text@, pattern@, earlier),
        decreases text.len() - at,
    {
        if matches_at(text, pattern, at) {
            return Some(at);
        }
        at += 1;
    }
    if matches_at(text, pattern, at) {
        Some(at)
    } else {
        None
    }
}

/// The part of `text` before the first occurrence of `pattern`, or all of it.
pub fn before_first<'a>(text: &'a str, pattern: &str) -> (prefix: &'a str)
    ensures
        prefix@ == prefix_before(text@, pattern@),
{
    let chars = chars_of(text);
    let wanted = chars_of(pattern);
    match find(&chars, &wanted) {
        Some(at) => {
            proof {
                let chosen = choose|c: int| is_first_occurrence(text@, pattern@, c);
                assert(is_first_occurrence(text@, pattern@, at as int));
                assert(chosen == at);
            }
            text.substring_char(0, at)
        },
        None => text,
    }
}

/// The position of the last `mark` in `text`.
pub fn find_last(text: &Vec<char>, mark: char) -> (found: Option<usize>)
    ensures
        match found {
            Some(at) => is_last_mark(text@, mark, at as int),
            None => !text@.contains(mark),
        },
{
    let mut at: usize = text.len();
    while at > 0
        invariant
            at <= text.len(),
            forall|later: int| at <= later < text.len() ==> text@[later] != mark,
        decreases at,
    {
        at -= 1;
        if text[at] == mark {
            return Some(at);
        }
    }
    None
}

/// The part of `text` after the last `mark`, or all of it.
pub fn after_last<'a>(text: &'a str, mark: char) -> (suffix: &'a str)
    ensures
        suffix@ == suffix_after(text@, mark),
{
    let chars = chars_of(text);
    let end = chars.len();
    match find_last(&chars, mark) {
        Some(at) => {
            proof {
                let chosen = choose|c: int| is_last_mark(text@, mark, c);
                assert(is_last_mark(text@, mark, at as int));
                assert(text@.contains(mark));
                assert(chosen == at);
                assert(text@.skip(at + 1) == text@.subrange(at + 1, text@.len() as int));
            }
            text.substring_char(at + 1, end)
        },
        None => text,
    }
}

/// `text` without the white space around it.
pub fn trim<'a>(text: &'a str) -> (inner: &'a str)
    ensures
        inner@ == trimmed(text@),
{
    let chars = chars_of(text);
    let mut from: usize = 0;
    while from < chars.len() && chars[from].is_whitespace()
        invariant
            from <= chars.len(),
            forall|i: int| 0 <= i < from ==> is_white_space(chars@[i]),
        decreases chars.len() - from,
    {
        from += 1;
    }
    let mut to: usize = chars.len();
    while to > from && chars[to - 1].is_whitespace()
        invariant
            from <= to <= chars.len(),
            forall|i: int| to <= i < chars.len() ==> is_white_space(chars@[i]),
        decreases to,
    {
        to -= 1;
    }
    proof {
        lemma_trimmed_start(text@, from as int);
        let rest = text@.skip(from as int);
        assert forall|i: int| to - from <= i < rest.len() implies is_white_space(rest[i]) by {
            assert(rest[i] == text@[from + i]);
        }
        if to > from {
            assert(rest[to - from - 1] == text@[to - 1]);
        }
        lemma_trimmed_end(rest, to - from);
        assert(rest.take(to - from) == text@.subrange(from as int, to as int));
    }
    text.substring_char(from, to)
}

/// Whether `left` and `right` are the same text.
pub fn same_text(left: &str, right: &str) -> (same: bool)
    ensures
        same == (left@ == right@),
{
    let ours = chars_of(left);
    let theirs = chars_of(right);
    if ours.len() != theirs.len() {
        return false;
    }
    let mut at: usize = 0;
    while at < ours.len()
        invariant
            ours@ == left@,
            theirs@ == right@,
            ours.len() == theirs.len(),
            at <= ours.len(),
            forall|i: int| 0 <= i < at ==> ours@[i] == theirs@[i],
        decreases ours.len() - at,
    {
        if ours[at] != theirs[at] {
            return false;
        }
        at += 1;
    }
    assert(ours@ =~= theirs@);
    true
}

/// The one-character string for the decimal digit `d`.
fn digit_text(d: usize) -> (text: &'static str)
    requires
        d < 10,
    ensures
        text@ == seq![digit(d as nat)],
{
    let text = if d == 0 {
        "0"
    } else if d == 1 {
        "1"
    } else if d == 2 {
        "2"
    } else if d == 3 {
        "3"
    } else if d == 4 {
        "4"
    } else if d == 5 {
        "5"
    } else if d == 6 {
        "6"
    } else if d == 7 {
        "7"
    } else if d == 8 {
        "8"
    } else {
        "9"
    };
    proof {
        reveal_strlit("0");
        reveal_strlit("1");
        reveal_strlit("2");
        reveal_strlit("3");
        reveal_strlit("4");
        reveal_strlit("5");
        reveal_strlit("6");
        reveal_strlit("7");
        reveal_strlit("8");
        reveal_strlit("9");
        assert(text@ =~= seq![digit(d as nat)]);
    }
    text
}

/// `n` written in decimal.
pub fn decimal_text(n: usize) -> (text: String)
    ensures
        text@ == decimal(n as nat),
    decreases n,
{
    if n < 10 {
        String::from_str(digit_text(n))
    } else {
        let mut text = decimal_text(n / 10);
        text.append(digit_text(n % 10));
        assert(text@ =~= decimal((n / 10) as nat).push(digit((n % 10) as nat)));
        text
    }
}

} // verus!
