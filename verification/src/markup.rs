//! The markup extractor: reads fields out of an HTML page with CSS
//! selectors.
//!
//! Parsing and matching are done by the `scraper` crate. Its results are
//! named here by spec functions without a body; the verified code decides
//! what a missing node or attribute means.

use crate::error::optional_text;
use crate::error::text_view;
use crate::error::Error;
use crate::error::Field;
use scraper::error::SelectorErrorKind;
use scraper::ElementRef;
use scraper::Html;
use scraper::Selector;
use vstd::prelude::*;

verus! {

/// `scraper::Html`, a parsed document. Verified code only hands it on.
#[verifier::external_type_specification]
#[verifier::external_body]
pub struct ExHtml(Html);

/// `scraper::Selector`, a parsed group of CSS selectors.
#[verifier::external_type_specification]
#[verifier::external_body]
pub struct ExSelector(Selector);

/// `scraper::ElementRef`, an element of a parsed document.
#[verifier::external_type_specification]
#[verifier::external_body]
pub struct ExElementRef<'a>(ElementRef<'a>);

/// `scraper::error::SelectorErrorKind`, why a text is no selector.
#[verifier::external_type_specification]
#[verifier::external_body]
pub struct ExSelectorErrorKind(SelectorErrorKind);

/// The document that `Html::parse_document` builds from `page`.
pub uninterp spec fn parsed_document(page: Seq<char>) -> Html;

/// The selector that `Selector::parse` reads from `text`, if `text` is one.
pub uninterp spec fn parsed_selector(text: Seq<char>) -> Option<Selector>;

/// The elements of `doc` that match `selector`, in the order in which
/// `Html::select` yields them.
pub uninterp spec fn document_matches(doc: Html, selector: Selector) -> Seq<ElementRef<'static>>;

/// The elements below `scope` that match `selector`, in the order in which
/// `ElementRef::select` yields them, which is that of the document.
pub uninterp spec fn element_matches(scope: ElementRef<'static>, selector: Selector) -> Seq<
    ElementRef<'static>,
>;

/// The value of attribute `name` of `element`, if it has one: what
/// `ElementRef::attr` returns.
pub uninterp spec fn attribute_of(element: ElementRef<'static>, name: Seq<char>) -> Option<
    Seq<char>,
>;

/// The first text node below `element`, if there is one: the first item of
/// `ElementRef::text`.
pub uninterp spec fn first_text_of(element: ElementRef<'static>) -> Option<Seq<char>>;

/// The markup of `element`, itself included: what `ElementRef::html` returns.
pub uninterp spec fn markup_of(element: ElementRef<'static>) -> Seq<char>;

/// Calls `Html::parse_document`. The claim: it builds a document from any
/// text, and the document depends on the text alone.
#[verifier::external_body]
pub(crate) fn parse_document(page: &str) -> (doc: Html)
    ensures
        doc == parsed_document(page@),
{
    Html::parse_document(page)
}

/// Calls `Selector::parse`. The claim: whether it accepts the text, and the
/// selector it returns, depend on the text alone.
#[verifier::external_body]
fn parse_selector(text: &str) -> (parsed: Result<Selector, SelectorErrorKind>)
    ensures
        match parsed {
            Ok(selector) => parsed_selector(text@) == Some(selector),
            Err(_) => parsed_selector(text@) is None,
        },
{
    Selector::parse(text)
}

/// Calls `Html::select` and collects what it yields. The claim: the elements
/// and their order depend on the document and the selector alone.
#[verifier::external_body]
fn select_in_document<'a>(doc: &'a Html, selector: &Selector) -> (found: Vec<ElementRef<'a>>)
    ensures
        found@ == document_matches(*doc, *selector),
{
    doc.select(selector).collect()
}

/// Calls `ElementRef::select` and collects what it yields. The claim: the
/// elements and their order depend on the element and the selector alone.
#[verifier::external_body]
pub(crate) fn select_in_element<'a>(scope: &ElementRef<'a>, selector: &Selector) -> (found: Vec<
    ElementRef<'a>,
>)
    ensures
        found@ == element_matches(*scope, *selector),
{
    scope.select(selector).collect()
}

/// Calls `ElementRef::attr`. The claim: the value depends on the element and
/// the name alone.
#[verifier::external_body]
pub(crate) fn element_attribute<'a>(element: &ElementRef<'a>, name: &str) -> (value: Option<
    &'a str,
>)
    ensures
        optional_text(value) == attribute_of(*element, name@),
{
    element.attr(name)
}

/// Calls `ElementRef::text` and takes the first item. The claim: it depends
/// on the element alone.
#[verifier::external_body]
pub(crate) fn element_first_text<'a>(element: &ElementRef<'a>) -> (value: Option<&'a str>)
    ensures
        optional_text(value) == first_text_of(*element),
{
    element.text().next()
}

/// Calls `ElementRef::html`. The claim: the markup depends on the element
/// alone.
#[verifier::external_body]
fn element_markup(element: &ElementRef) -> (markup: String)
    ensures
        markup@ == markup_of(*element),
{
    element.html()
}

/// The selector that `text` denotes, or `InvalidSelector`.
pub open spec fn selector_of(text: Seq<char>) -> Result<Selector, Error> {
    match parsed_selector(text) {
        Some(selector) => Ok(selector),
        None => Err(Error::InvalidSelector),
    }
}

/// The first of `found`, or the error that `field` is missing.
pub open spec fn first_match(found: Seq<ElementRef<'static>>, field: Field) -> Result<
    ElementRef<'static>,
    Error,
> {
    if found.len() == 0 {
        Err(Error::Extraction(field))
    } else {
        Ok(found[0])
    }
}

/// The first element of `doc` that matches the selector `selector`.
pub open spec fn first_in_document(doc: Html, selector: Seq<char>, field: Field) -> Result<
    ElementRef<'static>,
    Error,
> {
    match selector_of(selector) {
        Err(e) => Err(e),
        Ok(parsed) => first_match(document_matches(doc, parsed), field),
    }
}

/// `value`, or the error that `field` is missing.
pub open spec fn required(value: Option<Seq<char>>, field: Field) -> Result<Seq<char>, Error> {
    match value {
        Some(text) => Ok(text),
        None => Err(Error::Extraction(field)),
    }
}

/// The value of attribute `name` of the first element of `doc` that matches
/// `selector`.
pub open spec fn attribute_in_document(
    doc: Html,
    selector: Seq<char>,
    name: Seq<char>,
    field: Field,
) -> Result<Seq<char>, Error> {
    match first_in_document(doc, selector, field) {
        Err(e) => Err(e),
        Ok(element) => required(attribute_of(element, name), field),
    }
}

/// The markup of the first element of `doc` that matches `selector`.
pub open spec fn markup_in_document(doc: Html, selector: Seq<char>, field: Field) -> Result<
    Seq<char>,
    Error,
> {
    match first_in_document(doc, selector, field) {
        Err(e) => Err(e),
        Ok(element) => Ok(markup_of(element)),
    }
}

/// Parses a selector.
pub fn selector(text: &str) -> (parsed: Result<Selector, Error>)
    ensures
        parsed == selector_of(text@),
{
    match parse_selector(text) {
        Ok(selector) => Ok(selector),
        Err(_) => Err(Error::InvalidSelector),
    }
}

/// `value` as an owned string, or the error that `field` is missing.
pub fn require(value: Option<&str>, field: Field) -> (result: Result<String, Error>)
    ensures
        text_view(result) == required(optional_text(value), field),
{
    match value {
        Some(text) => Ok(text.to_owned()),
        None => Err(Error::Extraction(field)),
    }
}

/// The first of `found`, the elements that a selector has matched. Where it
/// has matched none, the page does not hold `field`.
pub fn first_of<'a>(found: &Vec<ElementRef<'a>>, field: Field) -> (first: Result<
    ElementRef<'a>,
    Error,
>)
    ensures
        first == first_match(found@, field),
{
    if found.len() == 0 {
        Err(Error::Extraction(field))
    } else {
        Ok(found[0])
    }
}

/// The first element of `doc` that matches `selector`.
pub fn find_first<'a>(doc: &'a Html, selector_text: &str, field: Field) -> (found: Result<
    ElementRef<'a>,
    Error,
>)
    ensures
        found == first_in_document(*doc, selector_text@, field),
{
    match selector(selector_text) {
        Err(e) => Err(e),
        Ok(parsed) => first_of(&select_in_document(doc, &parsed), field),
    }
}

/// Reads attribute `name` of the first element of `doc` that matches
/// `selector`. A page without such an element, or whose element lacks the
/// attribute, does not hold `field`.
pub fn extract_attribute(doc: &Html, selector_text: &str, name: &str, field: Field) -> (value:
    Result<String, Error>)
    ensures
        text_view(value) == attribute_in_document(*doc, selector_text@, name@, field),
{
    match find_first(doc, selector_text, field) {
        Err(e) => Err(e),
        Ok(element) => require(element_attribute(&element, name), field),
    }
}

/// Reads the markup of the first element of `doc` that matches `selector`.
pub fn extract_markup(doc: &Html, selector_text: &str, field: Field) -> (value: Result<
    String,
    Error,
>)
    ensures
        text_view(value) == markup_in_document(*doc, selector_text@, field),
{
    match find_first(doc, selector_text, field) {
        Err(e) => Err(e),
        Ok(element) => Ok(element_markup(&element)),
    }
}

} // verus!
