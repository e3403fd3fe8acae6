//! The bounded chapter pipeline: decides which chapter to fetch next, keeps
//! what has been fetched until its turn comes, and hands the chapters out in
//! the order of the story, whatever the order in which the fetches end.
//!
//! The pipeline performs no fetch itself. Its driver asks it for the next
//! step with `poll`, starts the unit of work that a `Fetch` step names, and
//! reports the end of each unit with `complete`. The model of the pipeline
//! is `PipelineView`; the laws at the end of this file hold of every run of
//! that model.

use crate::error::Error;
use crate::story::chapter_views;
use crate::story::Chapter;
use crate::story::ChapterView;
use vstd::prelude::*;

verus! {

/// A chapter with its text, ready for the book.
#[derive(Debug)]
pub struct ChapterResult {
    /// The place of the chapter in the story, from 0.
    pub index: usize,
    pub chapter: Chapter,
    /// The markup of the chapter's text.
    pub content: String,
}

/// A chapter with its text, as the contracts see it.
pub struct ResultView {
    pub index: int,
    pub chapter: ChapterView,
    pub content: Seq<char>,
}

impl View for ChapterResult {
    type V = ResultView;

    open spec fn view(&self) -> ResultView {
        ResultView { index: self.index as int, chapter: self.chapter@, content: self.content@ }
    }
}

/// Why a run ended early: the error of the first chapter, in the order of the
/// story, whose unit of work failed.
#[derive(Debug)]
pub struct Failure<E> {
    pub index: usize,
    pub error: E,
}

/// What the driver of a pipeline does next.
#[derive(Debug)]
pub enum Step<E> {
    /// Start the unit of work of chapter `index`, whose page is at `link`.
    Fetch { index: usize, link: String },
    /// Hand this chapter to the consumer.
    Deliver(ChapterResult),
    /// Wait for a unit of work to end, and report it with `complete`.
    Wait,
    /// Every chapter has been delivered.
    Finished,
    /// The run has failed. This step comes once.
    Failed(Failure<E>),
    /// The run failed earlier; nothing more is fetched or delivered.
    Halted,
}

/// A step, as the contracts see it.
pub enum StepView<E> {
    Fetch { index: int, link: Seq<char> },
    Deliver(ResultView),
    Wait,
    Finished,
    Failed { index: int, error: E },
    Halted,
}

impl<E> View for Step<E> {
    type V = StepView<E>;

    open spec fn view(&self) -> StepView<E> {
        match self {
            Step::Fetch { index, link } => StepView::Fetch { index: *index as int, link: link@ },
            Step::Deliver(result) => StepView::Deliver(result@),
            Step::Wait => StepView::Wait,
            Step::Finished => StepView::Finished,
            Step::Failed(failure) => StepView::Failed {
                index: failure.index as int,
                error: failure.error,
            },
            Step::Halted => StepView::Halted,
        }
    }
}

/// How many of the slots of `window` are empty.
pub open spec fn waiting<T>(window: Seq<Option<T>>) -> nat
    decreases window.len(),
{
    if window.len() == 0 {
        0
    } else {
        waiting(window.drop_last()) + if window.last() is None {
            1nat
        } else {
            0nat
        }
    }
}

/// The model of a pipeline.
pub struct PipelineView<E> {
    /// The chapters of the story, in order.
    pub chapters: Seq<ChapterView>,
    /// How many units of work may be in flight at once.
    pub concurrency: nat,
    /// How many chapters have been delivered: the index of the next one.
    pub delivered: nat,
    /// One slot for each chapter that was admitted and not yet delivered, in
    /// order: slot `j` belongs to chapter `delivered + j`. A slot is empty
    /// while the unit of work is in flight, and then holds its outcome: the
    /// text of the chapter, or an error.
    pub window: Seq<Option<Result<Seq<char>, E>>>,
    /// Whether the run has failed.
    pub failed: bool,
}

impl<E> PipelineView<E> {
    /// The pipeline before its first step.
    pub open spec fn start(chapters: Seq<ChapterView>, concurrency: nat) -> Self {
        PipelineView { chapters, concurrency, delivered: 0, window: Seq::empty(), failed: false }
    }

    /// How many chapters have been admitted: the index of the next one.
    pub open spec fn admitted(self) -> nat {
        self.delivered + self.window.len()
    }

    /// How many units of work are in flight.
    pub open spec fn in_flight(self) -> nat {
        waiting(self.window)
    }

    /// Whether a unit of work has ended in an error that is still in the
    /// window. From then on no chapter is admitted.
    pub open spec fn stalled(self) -> bool {
        exists|j: int| 0 <= j < self.window.len() && (#[trigger] self.window[j] matches Some(Err(_)))
    }

    /// Whether the outcome of the next chapter to deliver is known.
    pub open spec fn head_ready(self) -> bool {
        self.window.len() > 0 && self.window[0] is Some
    }

    /// Whether the next chapter may be admitted.
    pub open spec fn can_admit(self) -> bool {
        &&& !self.failed
        &&& !self.stalled()
        &&& self.admitted() < self.chapters.len()
        &&& self.in_flight() < self.concurrency
    }

    /// The next step and the pipeline after it. A known outcome of the next
    /// chapter comes first: its text is delivered, its error ends the run.
    /// Otherwise a chapter is admitted if one may be.
    pub open spec fn poll(self) -> (Self, StepView<E>) {
        if self.failed {
            (self, StepView::Halted)
        } else if self.head_ready() {
            match self.window[0]->Some_0 {
                Ok(content) => (
                    PipelineView {
                        delivered: self.delivered + 1,
                        window: self.window.drop_first(),
                        ..self
                    },
                    StepView::Deliver(
                        ResultView {
                            index: self.delivered as int,
                            chapter: self.chapters[self.delivered as int],
                            content,
                        },
                    ),
                ),
                Err(error) => (
                    PipelineView { window: Seq::empty(), failed: true, ..self },
                    StepView::Failed { index: self.delivered as int, error },
                ),
            }
        } else if self.can_admit() {
            (
                PipelineView { window: self.window.push(None), ..self },
                StepView::Fetch {
                    index: self.admitted() as int,
                    link: self.chapters[self.admitted() as int].link,
                },
            )
        } else if self.delivered == self.chapters.len() {
            (self, StepView::Finished)
        } else {
            (self, StepView::Wait)
        }
    }

    /// Whether the unit of work of chapter `index` is in flight.
    pub open spec fn accepts(self, index: int) -> bool {
        &&& !self.failed
        &&& self.delivered <= index < self.admitted()
        &&& self.window[index - self.delivered] is None
    }

    /// The pipeline after the unit of work of chapter `index`, which was in
    /// flight, has ended with `outcome`.
    pub open spec fn complete(self, index: int, outcome: Result<Seq<char>, E>) -> Self {
        PipelineView { window: self.window.update(index - self.delivered, Some(outcome)), ..self }
    }

    /// What holds of a pipeline at every moment.
    pub open spec fn inv(self) -> bool {
        &&& self.concurrency >= 1
        &&& self.admitted() <= self.chapters.len()
        &&& self.in_flight() <= self.concurrency
        &&& self.failed ==> self.window.len() == 0 && self.delivered < self.chapters.len()
    }
}

/// An empty slot more is a unit in flight more.
pub proof fn lemma_waiting_push<T>(window: Seq<Option<T>>)
    ensures
        waiting(window.push(None)) == waiting(window) + 1,
{
    assert(window.push(None).drop_last() == window);
}

/// Filling an empty slot is a unit in flight less.
pub proof fn lemma_waiting_fill<T>(window: Seq<Option<T>>, at: int, value: T)
    requires
        0 <= at < window.len(),
        window[at] is None,
    ensures
        waiting(window.update(at, Some(value))) + 1 == waiting(window),
    decreases window.len(),
{
    let filled = window.update(at, Some(value));
    if at == window.len() - 1 {
        assert(filled.drop_last() == window.drop_last());
    } else {
        lemma_waiting_fill(window.drop_last(), at, value);
        assert(filled.drop_last() == window.drop_last().update(at, Some(value)));
    }
}

/// Removing a filled slot from the front leaves the units in flight as they
/// were.
pub proof fn lemma_waiting_drop_first<T>(window: Seq<Option<T>>)
    requires
        window.len() > 0,
        window[0] is Some,
    ensures
        waiting(window.drop_first()) == waiting(window),
    decreases window.len(),
{
    let rest = window.drop_first();
    if window.len() == 1 {
        assert(waiting(rest) == 0);
        assert(waiting(window.drop_last()) == 0);
    } else {
        lemma_waiting_drop_first(window.drop_last());
        assert(rest.drop_last() == window.drop_last().drop_first());
        assert(rest.last() == window.last());
    }
}

/// There are no more units in flight than slots, and at least one where a
/// slot is empty.
pub proof fn lemma_waiting_bounds<T>(window: Seq<Option<T>>)
    ensures
        waiting(window) <= window.len(),
        forall|j: int| 0 <= j < window.len() && window[j] is None ==> waiting(window) >= 1,
    decreases window.len(),
{
    if window.len() > 0 {
        lemma_waiting_bounds(window.drop_last());
        assert forall|j: int| 0 <= j < window.len() && window[j] is None implies waiting(window)
            >= 1 by {
            if j < window.len() - 1 {
                assert(window.drop_last()[j] is None);
            }
        }
    }
}

impl<E> PipelineView<E> {
    /// A step keeps the invariant.
    pub proof fn lemma_poll_keeps_inv(self)
        requires
            self.inv(),
        ensures
            self.poll().0.inv(),
    {
        if self.failed {
        } else if self.head_ready() {
            if self.window[0]->Some_0 is Ok {
                lemma_waiting_drop_first(self.window);
            } else {
            }
        } else if self.can_admit() {
            lemma_waiting_push(self.window);
        }
    }

    /// The end of a unit of work keeps the invariant.
    pub proof fn lemma_complete_keeps_inv(self, index: int, outcome: Result<Seq<char>, E>)
        requires
            self.inv(),
            self.accepts(index),
        ensures
            self.complete(index, outcome).inv(),
    {
        lemma_waiting_fill(self.window, index - self.delivered, outcome);
    }
}

/// The outcome of a unit of work, as the contracts see it.
pub open spec fn outcome_view<E>(outcome: Result<String, E>) -> Result<Seq<char>, E> {
    match outcome {
        Ok(content) => Ok(content@),
        Err(error) => Err(error),
    }
}

/// A slot of the window, as the contracts see it.
pub open spec fn slot_view<E>(slot: Option<Result<String, E>>) -> Option<Result<Seq<char>, E>> {
    match slot {
        Some(outcome) => Some(outcome_view(outcome)),
        None => None,
    }
}

/// The window that `slots` hold from index `from` on.
pub open spec fn window_of<E>(slots: Seq<Option<Result<String, E>>>, from: int) -> Seq<
    Option<Result<Seq<char>, E>>,
> {
    Seq::new((slots.len() - from) as nat, |j: int| slot_view(slots[from + j]))
}

/// A bounded chapter pipeline. `E` is the error of a unit of work.
pub struct Pipeline<E> {
    chapters: Vec<Chapter>,
    concurrency: usize,
    /// One slot for each admitted chapter. Those of delivered chapters are
    /// empty again.
    slots: Vec<Option<Result<String, E>>>,
    /// The index of the next chapter to deliver.
    cursor: usize,
    in_flight: usize,
    stalled: bool,
    failed: bool,
}

impl<E> View for Pipeline<E> {
    type V = PipelineView<E>;

    closed spec fn view(&self) -> PipelineView<E> {
        PipelineView {
            chapters: chapter_views(self.chapters@),
            concurrency: self.concurrency as nat,
            delivered: self.cursor as nat,
            window: window_of(self.slots@, self.cursor as int),
            failed: self.failed,
        }
    }
}

impl<E> Pipeline<E> {
    /// Whether the pipeline is well formed: its counters say what its window
    /// holds.
    pub closed spec fn wf(&self) -> bool {
        &&& self.cursor <= self.slots.len()
        &&& self.in_flight == self@.in_flight()
        &&& self.stalled == self@.stalled()
        &&& self@.inv()
    }

    /// A well-formed pipeline satisfies the invariant of the model.
    pub proof fn lemma_wf_inv(&self)
        requires
            self.wf(),
        ensures
            self@.inv(),
    {
    }

    /// A pipeline for `chapters` that keeps at most `concurrency` units of
    /// work in flight. A limit of zero is refused: no step is ever taken.
    pub fn new(chapters: Vec<Chapter>, concurrency: usize) -> (made: Result<Pipeline<E>, Error>)
        ensures
            match made {
                Ok(pipeline) => {
                    &&& concurrency >= 1
                    &&& pipeline.wf()
                    &&& pipeline@ == PipelineView::<E>::start(
                        chapter_views(chapters@),
                        concurrency as nat,
                    )
                },
                Err(e) => concurrency == 0 && e == Error::Config,
            },
    {
        if concurrency == 0 {
            return Err(Error::Config);
        }
        let pipeline = Pipeline {
            chapters,
            concurrency,
            slots: Vec::new(),
            cursor: 0,
            in_flight: 0,
            stalled: false,
            failed: false,
        };
        assert(pipeline@.window =~= Seq::empty());
        Ok(pipeline)
    }

    /// How many chapters the story has.
    pub fn len(&self) -> (n: usize)
        ensures
            n == self@.chapters.len(),
    {
        self.chapters.len()
    }

    /// How many units of work may be in flight at once.
    pub fn concurrency(&self) -> (limit: usize)
        ensures
            limit == self@.concurrency,
    {
        self.concurrency
    }

    /// How many chapters have been delivered.
    pub fn delivered(&self) -> (n: usize)
        ensures
            n == self@.delivered,
    {
        self.cursor
    }

    /// How many chapters have been admitted.
    pub fn admitted(&self) -> (n: usize)
        requires
            self.wf(),
        ensures
            n == self@.admitted(),
    {
        self.slots.len()
    }

    /// How many units of work are in flight.
    pub fn in_flight(&self) -> (n: usize)
        requires
            self.wf(),
        ensures
            n == self@.in_flight(),
    {
        self.in_flight
    }

    /// Whether the run has failed.
    pub fn has_failed(&self) -> (failed: bool)
        ensures
            failed == self@.failed,
    {
        self.failed
    }

    /// Takes the next step.
    pub fn poll(&mut self) -> (step: Step<E>)
        requires
            old(self).wf(),
        ensures
            final(self).wf(),
            final(self)@ == old(self)@.poll().0,
            step@ == old(self)@.poll().1,
    {
        let ghost before = self@;
        proof {
            before.lemma_poll_keeps_inv();
        }
        if self.failed {
            return Step::Halted;
        }
        if self.cursor < self.slots.len() && self.slots[self.cursor].is_some() {
            let index = self.cursor;
            assert(before.window[0] == slot_view(self.slots@[index as int]));
            match self.slots[index].take().unwrap() {
                Ok(content) => {
                    let chapter = self.chapters[index].duplicate();
                    self.cursor = index + 1;
                    proof {
                        assert(self@.window =~= before.window.drop_first());
                        lemma_waiting_drop_first(before.window);
                        if before.stalled() {
                            let j = choose|j: int|
                                0 <= j < before.window.len() && (
                                #[trigger] before.window[j] matches Some(Err(_)));
                            assert(self@.window[j - 1] == before.window[j]);
                        }
                        if self@.stalled() {
                            let j = choose|j: int|
                                0 <= j < self@.window.len() && (
                                #[trigger] self@.window[j] matches Some(Err(_)));
                            assert(before.window[j + 1] == self@.window[j]);
                        }
                    }
                    return Step::Deliver(ChapterResult { index, chapter, content });
                },
                Err(error) => {
                    self.slots.truncate(index);
                    self.in_flight = 0;
                    self.stalled = false;
                    self.failed = true;
                    assert(self@.window =~= Seq::empty());
                    return Step::Failed(Failure { index, error });
                },
            }
        }
        if !self.stalled && self.slots.len() < self.chapters.len() && self.in_flight
            < self.concurrency {
            let index = self.slots.len();
            let link = self.chapters[index].link.clone();
            self.slots.push(None);
            self.in_flight = self.in_flight + 1;
            proof {
                assert(self@.window =~= before.window.push(None));
                lemma_waiting_push(before.window);
                if self@.stalled() {
                    let j = choose|j: int|
                        0 <= j < self@.window.len() && (
                        #[trigger] self@.window[j] matches Some(Err(_)));
                    assert(before.window[j] == self@.window[j]);
                }
            }
            return Step::Fetch { index, link };
        }
        if self.cursor == self.chapters.len() {
            Step::Finished
        } else {
            Step::Wait
        }
    }

    /// Reports that the unit of work of chapter `index` has ended with
    /// `outcome`. The report is accepted if that unit is in flight; any other
    /// report changes nothing.
    pub fn complete(&mut self, index: usize, outcome: Result<String, E>) -> (accepted: bool)
        requires
            old(self).wf(),
        ensures
            final(self).wf(),
            accepted == old(self)@.accepts(index as int),
            final(self)@ == if accepted {
                old(self)@.complete(index as int, outcome_view(outcome))
            } else {
                old(self)@
            },
    {
        let ghost before = self@;
        if self.failed || index < self.cursor || index >= self.slots.len() {
            return false;
        }
        assert(before.window[index - self.cursor] == slot_view(self.slots@[index as int]));
        if self.slots[index].is_some() {
            return false;
        }
        let ghost seen = outcome_view(outcome);
        let is_error = outcome.is_err();
        proof {
            lemma_waiting_fill(before.window, index - self.cursor, seen);
            before.lemma_complete_keeps_inv(index as int, seen);
        }
        self.slots[index] = Some(outcome);
        self.in_flight = self.in_flight - 1;
        if is_error {
            self.stalled = true;
        }
        proof {
            let at = index - self.cursor;
            assert(self@.window =~= before.window.update(at, Some(seen)));
            if is_error {
                assert(self@.window[at] matches Some(Err(_)));
            } else {
                if before.stalled() {
                    let j = choose|j: int|
                        0 <= j < before.window.len() && (
                        #[trigger] before.window[j] matches Some(Err(_)));
                    assert(self@.window[j] == before.window[j]);
                }
                if self@.stalled() {
                    let j = choose|j: int|
                        0 <= j < self@.window.len() && (
                        #[trigger] self@.window[j] matches Some(Err(_)));
                    assert(before.window[j] == self@.window[j]);
                }
            }
        }
        true
    }
}

/// What happens to a pipeline: its driver asks for the next step, or reports
/// that the unit of work of chapter `index` has ended with `outcome`.
pub enum Event<E> {
    Poll,
    Complete { index: int, outcome: Result<Seq<char>, E> },
}

impl<E> PipelineView<E> {
    /// The pipeline after `event`. A report for a unit that is not in flight
    /// changes nothing.
    pub open spec fn after(self, event: Event<E>) -> Self {
        match event {
            Event::Poll => self.poll().0,
            Event::Complete { index, outcome } => if self.accepts(index) {
                self.complete(index, outcome)
            } else {
                self
            },
        }
    }

    /// What `event` hands to the consumer: one chapter or none.
    pub open spec fn emits(self, event: Event<E>) -> Seq<ResultView> {
        match event {
            Event::Poll => match self.poll().1 {
                StepView::Deliver(result) => seq![result],
                _ => Seq::empty(),
            },
            Event::Complete { .. } => Seq::empty(),
        }
    }

    /// The chapter that `event` starts the unit of work of: one or none.
    pub open spec fn starts(self, event: Event<E>) -> Seq<int> {
        match event {
            Event::Poll => match self.poll().1 {
                StepView::Fetch { index, .. } => seq![index],
                _ => Seq::empty(),
            },
            Event::Complete { .. } => Seq::empty(),
        }
    }

    /// The pipeline after `events`, in order.
    pub open spec fn after_all(self, events: Seq<Event<E>>) -> Self
        decreases events.len(),
    {
        if events.len() == 0 {
            self
        } else {
            self.after_all(events.drop_last()).after(events.last())
        }
    }

    /// What `events`, in order, hand to the consumer.
    pub open spec fn deliveries(self, events: Seq<Event<E>>) -> Seq<ResultView>
        decreases events.len(),
    {
        if events.len() == 0 {
            Seq::empty()
        } else {
            self.deliveries(events.drop_last()) + self.after_all(events.drop_last()).emits(
                events.last(),
            )
        }
    }

    /// The chapters whose units of work `events` start, in the order in which
    /// they start.
    pub open spec fn fetches(self, events: Seq<Event<E>>) -> Seq<int>
        decreases events.len(),
    {
        if events.len() == 0 {
            Seq::empty()
        } else {
            self.fetches(events.drop_last()) + self.after_all(events.drop_last()).starts(
                events.last(),
            )
        }
    }

    /// Every filled slot of the window holds what `outcomes` says of its
    /// chapter, every delivered chapter has a text there, and a failed run
    /// stands at a chapter that has an error there.
    pub open spec fn agrees(self, outcomes: Seq<Result<Seq<char>, E>>) -> bool {
        &&& outcomes.len() == self.chapters.len()
        &&& forall|j: int|
            0 <= j < self.window.len() && (#[trigger] self.window[j]) is Some ==> self.window[j]
                == Some(outcomes[self.delivered + j])
        &&& forall|i: int| 0 <= i < self.delivered ==> (#[trigger] outcomes[i]) is Ok
        &&& self.failed ==> outcomes[self.delivered as int] is Err
    }
}

/// Every report in `events` says of its chapter what `outcomes` says: the
/// outcome of a unit of work does not depend on when it ends.
pub open spec fn follows<E>(events: Seq<Event<E>>, outcomes: Seq<Result<Seq<char>, E>>) -> bool {
    forall|k: int|
        0 <= k < events.len() ==> match #[trigger] events[k] {
            Event::Poll => true,
            Event::Complete { index, outcome } => 0 <= index < outcomes.len() ==> outcome
                == outcomes[index],
        }
}

/// Chapter `index` with the text that `outcomes` gives it.
pub open spec fn result_at<E>(
    chapters: Seq<ChapterView>,
    outcomes: Seq<Result<Seq<char>, E>>,
    index: int,
) -> ResultView {
    ResultView { index, chapter: chapters[index], content: outcomes[index]->Ok_0 }
}

/// The first `n` chapters, in order, each with the text that `outcomes` gives
/// it.
pub open spec fn results_upto<E>(
    chapters: Seq<ChapterView>,
    outcomes: Seq<Result<Seq<char>, E>>,
    n: nat,
) -> Seq<ResultView> {
    Seq::new(n, |i: int| result_at(chapters, outcomes, i))
}

/// `index` is the first chapter whose unit of work fails.
pub open spec fn is_first_failure<E>(outcomes: Seq<Result<Seq<char>, E>>, index: int) -> bool {
    &&& 0 <= index < outcomes.len()
    &&& outcomes[index] is Err
    &&& forall|i: int| 0 <= i < index ==> (#[trigger] outcomes[i]) is Ok
}

/// The numbers below `n`, in order.
pub open spec fn count_upto(n: nat) -> Seq<int> {
    Seq::new(n, |i: int| i)
}

/// What holds after every run from the start: the invariant, and the order
/// of what was fetched and of what was delivered.
proof fn lemma_run_shape<E>(chapters: Seq<ChapterView>, concurrency: nat, events: Seq<Event<E>>)
    requires
        concurrency >= 1,
    ensures
        ({
            let start = PipelineView::<E>::start(chapters, concurrency);
            let end = start.after_all(events);
            let fetched = start.fetches(events);
            let delivered = start.deliveries(events);
            &&& end.inv()
            &&& end.chapters == chapters
            &&& end.concurrency == concurrency
            &&& fetched.len() <= chapters.len()
            &&& !end.failed ==> fetched.len() == end.admitted()
            &&& fetched == count_upto(fetched.len())
            &&& delivered.len() == end.delivered
            &&& forall|j: int|
                0 <= j < delivered.len() ==> (#[trigger] delivered[j]).index == j
                    && delivered[j].chapter == chapters[j]
        }),
    decreases events.len(),
{
    let start = PipelineView::<E>::start(chapters, concurrency);
    if events.len() == 0 {
        assert(start.fetches(events) =~= count_upto(0));
    } else {
        let earlier = events.drop_last();
        lemma_run_shape(chapters, concurrency, earlier);
        let mid = start.after_all(earlier);
        let end = start.after_all(events);
        match events.last() {
            Event::Poll => {
                mid.lemma_poll_keeps_inv();
                let before = start.fetches(earlier);
                let now = start.fetches(events);
                match mid.poll().1 {
                    StepView::Fetch { index, .. } => {
                        assert(now =~= count_upto(now.len()));
                    },
                    _ => {
                        assert(now =~= before);
                    },
                }
            },
            Event::Complete { index, outcome } => {
                if mid.accepts(index) {
                    mid.lemma_complete_keeps_inv(index, outcome);
                }
                assert(start.fetches(events) =~= start.fetches(earlier));
            },
        }
    }
}

/// What holds after every run from the start in which the units of work end
/// as `outcomes` says: the window agrees with `outcomes`, and the chapters
/// delivered are the first ones, in order, each with its text.
proof fn lemma_run_results<E>(
    chapters: Seq<ChapterView>,
    concurrency: nat,
    outcomes: Seq<Result<Seq<char>, E>>,
    events: Seq<Event<E>>,
)
    requires
        concurrency >= 1,
        outcomes.len() == chapters.len(),
        follows(events, outcomes),
    ensures
        ({
            let start = PipelineView::<E>::start(chapters, concurrency);
            let end = start.after_all(events);
            &&& end.inv()
            &&& end.chapters == chapters
            &&& end.agrees(outcomes)
            &&& start.deliveries(events) == results_upto(chapters, outcomes, end.delivered)
        }),
    decreases events.len(),
{
    let start = PipelineView::<E>::start(chapters, concurrency);
    lemma_run_shape(chapters, concurrency, events);
    if events.len() == 0 {
        assert(start.deliveries(events) =~= results_upto(chapters, outcomes, 0));
    } else {
        let earlier = events.drop_last();
        assert forall|k: int| 0 <= k < earlier.len() implies match #[trigger] earlier[k] {
            Event::Poll => true,
            Event::Complete { index, outcome } => 0 <= index < outcomes.len() ==> outcome
                == outcomes[index],
        } by {
            assert(earlier[k] == events[k]);
        }
        lemma_run_results(chapters, concurrency, outcomes, earlier);
        lemma_run_shape(chapters, concurrency, earlier);
        let mid = start.after_all(earlier);
        let end = start.after_all(events);
        let before = start.deliveries(earlier);
        let now = start.deliveries(events);
        match events.last() {
            Event::Poll => {
                if mid.failed {
                    assert(now =~= before);
                } else if mid.head_ready() {
                    assert(mid.window[0] == Some(outcomes[mid.delivered as int]));
                    match mid.window[0]->Some_0 {
                        Ok(content) => {
                            assert(now =~= results_upto(chapters, outcomes, end.delivered));
                            assert forall|j: int|
                                0 <= j < end.window.len() && (
                                #[trigger] end.window[j]) is Some implies end.window[j] == Some(
                                outcomes[end.delivered + j],
                            ) by {
                                assert(end.window[j] == mid.window[j + 1]);
                            }
                        },
                        Err(error) => {
                            assert(now =~= before);
                        },
                    }
                } else if mid.can_admit() {
                    assert(now =~= before);
                    assert forall|j: int|
                        0 <= j < end.window.len() && (
                        #[trigger] end.window[j]) is Some implies end.window[j] == Some(
                        outcomes[end.delivered + j],
                    ) by {
                        assert(end.window[j] == mid.window[j]);
                    }
                } else {
                    assert(now =~= before);
                }
            },
            Event::Complete { index, outcome } => {
                assert(now =~= before);
                if mid.accepts(index) {
                    assert(events[events.len() - 1] == events.last());
                    assert(outcome == outcomes[index]);
                    assert forall|j: int|
                        0 <= j < end.window.len() && (
                        #[trigger] end.window[j]) is Some implies end.window[j] == Some(
                        outcomes[end.delivered + j],
                    ) by {
                        if j != index - mid.delivered {
                            assert(end.window[j] == mid.window[j]);
                        }
                    }
                }
            },
        }
    }
}

/// The chapters are delivered in the order of the story, without a gap and
/// without a repeat, whatever the driver does and whatever the order in
/// which the units of work end: the chapter delivered at place `j` is
/// chapter `j`.
pub proof fn law_delivery_in_order<E>(
    chapters: Seq<ChapterView>,
    concurrency: nat,
    events: Seq<Event<E>>,
)
    requires
        concurrency >= 1,
    ensures
        ({
            let start = PipelineView::<E>::start(chapters, concurrency);
            let delivered = start.deliveries(events);
            &&& delivered.len() == start.after_all(events).delivered
            &&& delivered.len() <= chapters.len()
            &&& forall|j: int|
                0 <= j < delivered.len() ==> (#[trigger] delivered[j]).index == j
                    && delivered[j].chapter == chapters[j]
        }),
{
    lemma_run_shape(chapters, concurrency, events);
}

/// Each chapter is delivered with the text that its unit of work ended with:
/// where the units of work end as `outcomes` says, the chapters delivered are
/// the first ones of the story, each with its text in `outcomes`.
pub proof fn law_delivery_carries_the_outcome<E>(
    chapters: Seq<ChapterView>,
    concurrency: nat,
    outcomes: Seq<Result<Seq<char>, E>>,
    events: Seq<Event<E>>,
)
    requires
        concurrency >= 1,
        outcomes.len() == chapters.len(),
        follows(events, outcomes),
    ensures
        ({
            let start = PipelineView::<E>::start(chapters, concurrency);
            let delivered = start.deliveries(events);
            &&& delivered == results_upto(chapters, outcomes, delivered.len())
            &&& forall|j: int|
                0 <= j < delivered.len() ==> #[trigger] outcomes[j] == Ok::<Seq<char>, E>(
                    delivered[j].content,
                )
        }),
{
    lemma_run_results(chapters, concurrency, outcomes, events);
}

/// Where every unit of work succeeds, a run never fails, and once it has
/// finished it has delivered every chapter of the story: as many results as
/// there are chapters.
pub proof fn law_success_delivers_all<E>(
    chapters: Seq<ChapterView>,
    concurrency: nat,
    outcomes: Seq<Result<Seq<char>, E>>,
    events: Seq<Event<E>>,
)
    requires
        concurrency >= 1,
        outcomes.len() == chapters.len(),
        follows(events, outcomes),
        forall|i: int| 0 <= i < outcomes.len() ==> (#[trigger] outcomes[i]) is Ok,
    ensures
        ({
            let start = PipelineView::<E>::start(chapters, concurrency);
            let end = start.after_all(events);
            &&& !end.failed
            &&& !(end.poll().1 is Failed)
            &&& end.poll().1 is Finished ==> start.deliveries(events) == results_upto(
                chapters,
                outcomes,
                chapters.len(),
            )
        }),
{
    lemma_run_results(chapters, concurrency, outcomes, events);
    let end = PipelineView::<E>::start(chapters, concurrency).after_all(events);
    if !end.failed && end.head_ready() {
        assert(end.window[0] == Some(outcomes[end.delivered as int]));
    }
}

/// Where chapter `first` is the first whose unit of work fails, no chapter
/// from `first` on is ever delivered, the run never finishes, and the failure
/// that ends it names `first` and carries its error. By then exactly the
/// chapters before `first` have been delivered.
pub proof fn law_first_failure_ends_run<E>(
    chapters: Seq<ChapterView>,
    concurrency: nat,
    outcomes: Seq<Result<Seq<char>, E>>,
    events: Seq<Event<E>>,
    first: int,
)
    requires
        concurrency >= 1,
        outcomes.len() == chapters.len(),
        follows(events, outcomes),
        is_first_failure(outcomes, first),
    ensures
        ({
            let start = PipelineView::<E>::start(chapters, concurrency);
            let end = start.after_all(events);
            let delivered = start.deliveries(events);
            &&& delivered.len() <= first
            &&& delivered == results_upto(chapters, outcomes, delivered.len())
            &&& !(end.poll().1 is Finished)
            &&& end.failed ==> delivered.len() == first
            &&& end.poll().1 matches StepView::Failed { index, error } ==> {
                &&& index == first
                &&& outcomes[first] == Err::<Seq<char>, E>(error)
                &&& delivered.len() == first
            }
        }),
{
    lemma_run_results(chapters, concurrency, outcomes, events);
    let end = PipelineView::<E>::start(chapters, concurrency).after_all(events);
    assert(end.delivered <= first) by {
        if end.delivered > first {
            assert(outcomes[first] is Ok);
        }
    }
    if end.failed {
        assert(end.delivered == first) by {
            if end.delivered < first {
                assert(outcomes[end.delivered as int] is Ok);
            }
        }
    } else if end.head_ready() {
        assert(end.window[0] == Some(outcomes[end.delivered as int]));
        if end.window[0]->Some_0 is Err {
            assert(end.delivered == first) by {
                if end.delivered < first {
                    assert(outcomes[end.delivered as int] is Ok);
                }
            }
        }
    }
}

/// The outcome of a run does not depend on the order in which the units of
/// work end: two runs in which every chapter has the same outcome, both
/// carried on until the pipeline has finished or failed, deliver the same
/// chapters and end with the same step.
pub proof fn law_order_of_completion_is_immaterial<E>(
    chapters: Seq<ChapterView>,
    concurrency: nat,
    other_concurrency: nat,
    outcomes: Seq<Result<Seq<char>, E>>,
    events: Seq<Event<E>>,
    other_events: Seq<Event<E>>,
)
    requires
        concurrency >= 1,
        other_concurrency >= 1,
        outcomes.len() == chapters.len(),
        follows(events, outcomes),
        follows(other_events, outcomes),
        ({
            let last = PipelineView::<E>::start(chapters, concurrency).after_all(events).poll().1;
            last is Finished || last is Failed
        }),
        ({
            let last = PipelineView::<E>::start(chapters, other_concurrency).after_all(
                other_events,
            ).poll().1;
            last is Finished || last is Failed
        }),
    ensures
        PipelineView::<E>::start(chapters, concurrency).deliveries(events) == PipelineView::<
            E,
        >::start(chapters, other_concurrency).deliveries(other_events),
        PipelineView::<E>::start(chapters, concurrency).after_all(events).poll().1
            == PipelineView::<E>::start(chapters, other_concurrency).after_all(
            other_events,
        ).poll().1,
{
    lemma_run_results(chapters, concurrency, outcomes, events);
    lemma_run_results(chapters, other_concurrency, outcomes, other_events);
    let end = PipelineView::<E>::start(chapters, concurrency).after_all(events);
    let other = PipelineView::<E>::start(chapters, other_concurrency).after_all(other_events);
    if end.head_ready() {
        assert(end.window[0] == Some(outcomes[end.delivered as int]));
    }
    if other.head_ready() {
        assert(other.window[0] == Some(outcomes[other.delivered as int]));
    }
    if end.poll().1 is Failed && other.poll().1 is Failed {
        if end.delivered < other.delivered {
            assert(outcomes[end.delivered as int] is Ok);
        }
        if other.delivered < end.delivered {
            assert(outcomes[other.delivered as int] is Ok);
        }
    } else if end.poll().1 is Failed {
        assert(outcomes[end.delivered as int] is Ok);
    } else if other.poll().1 is Failed {
        assert(outcomes[other.delivered as int] is Ok);
    }
}

/// At every moment of every run at most `concurrency` units of work are in
/// flight, and no more chapters have been admitted than the story has.
pub proof fn law_concurrency_is_bounded<E>(
    chapters: Seq<ChapterView>,
    concurrency: nat,
    events: Seq<Event<E>>,
)
    requires
        concurrency >= 1,
    ensures
        PipelineView::<E>::start(chapters, concurrency).after_all(events).in_flight()
            <= concurrency,
        PipelineView::<E>::start(chapters, concurrency).after_all(events).admitted()
            <= chapters.len(),
{
    lemma_run_shape(chapters, concurrency, events);
}

/// The units of work start in the order of the story, each chapter at most
/// once: the unit started at place `j` is that of chapter `j`. So a run
/// starts no more units than the story has chapters, and none for a story
/// without chapters.
pub proof fn law_each_chapter_is_fetched_once<E>(
    chapters: Seq<ChapterView>,
    concurrency: nat,
    events: Seq<Event<E>>,
)
    requires
        concurrency >= 1,
    ensures
        ({
            let fetched = PipelineView::<E>::start(chapters, concurrency).fetches(events);
            &&& fetched.len() <= chapters.len()
            &&& forall|j: int| 0 <= j < fetched.len() ==> fetched[j] == j
        }),
{
    lemma_run_shape(chapters, concurrency, events);
}

/// A pipeline that tells its driver to wait has a unit of work in flight:
/// the run cannot stall while every unit that was started ends.
pub proof fn law_wait_has_work_in_flight<E>(pipeline: PipelineView<E>)
    requires
        pipeline.inv(),
        pipeline.poll().1 is Wait,
    ensures
        pipeline.in_flight() >= 1,
        pipeline.delivered < pipeline.chapters.len(),
{
    lemma_waiting_bounds(pipeline.window);
    if pipeline.window.len() > 0 {
        assert(pipeline.window[0] is None);
    } else {
        assert(waiting(pipeline.window) == 0);
    }
}

/// How far a pipeline is from its end: each chapter still to admit counts
/// twice, each chapter still to deliver once, each unit in flight once.
pub open spec fn distance<E>(pipeline: PipelineView<E>) -> int {
    2 * (pipeline.chapters.len() - pipeline.admitted()) + (pipeline.chapters.len()
        - pipeline.delivered) + pipeline.in_flight()
}

/// Every event either leaves the pipeline as it was, or ends the run in a
/// failure, or brings the pipeline one closer to its end. The distance is
/// never negative and is three times the number of chapters at the start, so
/// a run changes the pipeline at most that many times, and one more.
pub proof fn law_events_make_progress<E>(pipeline: PipelineView<E>, event: Event<E>)
    requires
        pipeline.inv(),
    ensures
        distance(pipeline) >= 0,
        ({
            let next = pipeline.after(event);
            ||| next == pipeline
            ||| next.failed && !pipeline.failed
            ||| distance(next) + 1 == distance(pipeline)
        }),
{
    match event {
        Event::Poll => {
            if pipeline.failed {
            } else if pipeline.head_ready() {
                if pipeline.window[0]->Some_0 is Ok {
                    lemma_waiting_drop_first(pipeline.window);
                }
            } else if pipeline.can_admit() {
                lemma_waiting_push(pipeline.window);
            }
        },
        Event::Complete { index, outcome } => {
            if pipeline.accepts(index) {
                lemma_waiting_fill(pipeline.window, index - pipeline.delivered, outcome);
            }
        },
    }
}

} // verus!
