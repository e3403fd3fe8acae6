//! Addresses: resolving the link of a chapter against the site, and reading
//! the path of the cover image.
//!
//! Parsing and joining are done by the `url` crate, which `reqwest` hands on
//! as `reqwest::Url`. Their results are named here by spec functions without
//! a body.

use crate::error::text_view;
use crate::error::Error;
use reqwest::Url;
use url::ParseError;
use vstd::prelude::*;

verus! {

/// `reqwest::Url`, a parsed absolute URL.
#[verifier::external_type_specification]
#[verifier::external_body]
pub struct ExUrl(Url);

/// `url::ParseError`, why a text is no URL.
#[verifier::external_type_specification]
#[verifier::external_body]
pub struct ExParseError(ParseError);

/// The site that the links of chapters are relative to.
pub const SITE: &'static str = "https://www.royalroad.com";

/// The URL that `Url::parse` reads from `text`, if `text` is an absolute URL.
pub uninterp spec fn parsed_url(text: Seq<char>) -> Option<Url>;

/// The URL that `Url::join` makes of `reference`, taken relative to `base`,
/// if there is one.
pub uninterp spec fn joined_url(base: Url, reference: Seq<char>) -> Option<Url>;

/// The serialization of `url`: what `Url::as_str` returns.
pub uninterp spec fn url_text(url: Url) -> Seq<char>;

/// The path of `url`: what `Url::path` returns.
pub uninterp spec fn url_path(url: Url) -> Seq<char>;

/// Calls `Url::parse`. The claim: whether it accepts the text, and the URL it
/// returns, depend on the text alone.
#[verifier::external_body]
fn parse_url(text: &str) -> (parsed: Result<Url, ParseError>)
    ensures
        match parsed {
            Ok(url) => parsed_url(text@) == Some(url),
            Err(_) => parsed_url(text@) is None,
        },
{
    Url::parse(text)
}

/// Calls `Url::join`. The claim: whether the two join, and the URL they
/// make, depend on the base and the reference alone.
#[verifier::external_body]
fn join_url(base: &Url, reference: &str) -> (joined: Result<Url, ParseError>)
    ensures
        match joined {
            Ok(url) => joined_url(*base, reference@) == Some(url),
            Err(_) => joined_url(*base, reference@) is None,
        },
{
    base.join(reference)
}

/// Calls `Url::as_str`. The claim: the text depends on the URL alone.
#[verifier::external_body]
fn text_of_url(url: &Url) -> (text: &str)
    ensures
        text@ == url_text(*url),
{
    url.as_str()
}

/// Calls `Url::path`. The claim: the path depends on the URL alone.
#[verifier::external_body]
fn path_of_url(url: &Url) -> (path: &str)
    ensures
        path@ == url_path(*url),
{
    url.path()
}

/// The address that `reference` denotes when it is read relative to `base`:
/// `InvalidUrl` where `base` is no absolute URL or the two do not join.
pub open spec fn resolved(base: Seq<char>, reference: Seq<char>) -> Result<Seq<char>, Error> {
    match parsed_url(base) {
        None => Err(Error::InvalidUrl),
        Some(base) => match joined_url(base, reference) {
            None => Err(Error::InvalidUrl),
            Some(url) => Ok(url_text(url)),
        },
    }
}

/// The path of the address `text`: `InvalidUrl` where `text` is no absolute
/// URL.
pub open spec fn path_of(text: Seq<char>) -> Result<Seq<char>, Error> {
    match parsed_url(text) {
        None => Err(Error::InvalidUrl),
        Some(url) => Ok(url_path(url)),
    }
}

/// Resolves `reference` against `base`.
pub fn resolve(base: &str, reference: &str) -> (address: Result<String, Error>)
    ensures
        text_view(address) == resolved(base@, reference@),
{
    match parse_url(base) {
        Err(_) => Err(Error::InvalidUrl),
        Ok(base) => match join_url(&base, reference) {
            Err(_) => Err(Error::InvalidUrl),
            Ok(url) => Ok(text_of_url(&url).to_owned()),
        },
    }
}

/// The address of the page of a chapter, given its link, which may be
/// relative to the site.
pub fn chapter_url(link: &str) -> (address: Result<String, Error>)
    ensures
        text_view(address) == resolved(SITE@, link@),
{
    resolve(SITE, link)
}

/// The path of the address `text`.
pub fn address_path(text: &str) -> (found: Result<String, Error>)
    ensures
        text_view(found) == path_of(text@),
{
    match parse_url(text) {
        Err(_) => Err(Error::InvalidUrl),
        Ok(url) => Ok(path_of_url(&url).to_owned()),
    }
}

} // verus!
