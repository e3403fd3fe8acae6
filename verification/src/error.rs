//! The errors of the library. Every one of them ends the run it occurs in.

use vstd::prelude::*;
use vstd::string::StringExecFns;

verus! {

/// A piece of a page that the scraper looks for.
#[derive(Clone, Copy, Debug, PartialEq, Eq, Structural)]
pub enum Field {
    /// The address of the cover image, on the landing page.
    Cover,
    /// The author's name, on the landing page.
    Author,
    /// The story's title, on the landing page.
    Title,
    /// The story's description, on the landing page.
    Description,
    /// The table that lists the chapters, on the landing page.
    ChapterTable,
    /// The address of a chapter, in a row of the chapter table.
    ChapterLink,
    /// The name of a chapter, in a row of the chapter table.
    ChapterName,
    /// The block that holds the text of a chapter, on the chapter's page.
    ChapterContent,
}

/// Why a run failed.
#[derive(Clone, Copy, Debug, PartialEq, Eq, Structural)]
pub enum Error {
    /// The configuration is invalid: the concurrency limit is zero.
    Config,
    /// A resource could not be fetched.
    Network,
    /// A fetched body is not text in the expected encoding.
    Decode,
    /// A page does not hold the given field.
    Extraction(Field),
    /// The cover image is neither JPEG nor PNG.
    UnsupportedFormat,
    /// The e-book container could not be written.
    Assembly,
    /// A selector is not valid CSS.
    InvalidSelector,
    /// An address is not a valid URL.
    InvalidUrl,
}

/// What a `Result` that holds a string says, as a `Result` of its view.
pub open spec fn text_view(result: Result<String, Error>) -> Result<Seq<char>, Error> {
    match result {
        Ok(text) => Ok(text@),
        Err(e) => Err(e),
    }
}

/// What an optional string says, as an `Option` of its view.
pub open spec fn optional_text(value: Option<&str>) -> Option<Seq<char>> {
    match value {
        Some(text) => Some(text@),
        None => None,
    }
}

impl Field {
    /// What the message of an error says of the field.
    pub open spec fn description(self) -> Seq<char> {
        match self {
            Field::Cover => "could not find cover image"@,
            Field::Author => "could not find author"@,
            Field::Title => "could not find title"@,
            Field::Description => "could not find description"@,
            Field::ChapterTable => "could not find chapters"@,
            Field::ChapterLink => "could not find chapter link"@,
            Field::ChapterName => "could not find chapter name"@,
            Field::ChapterContent => "couldn't find chapter content"@,
        }
    }
}

impl Error {
    /// The text of `message`.
    pub open spec fn message_text(self) -> Seq<char> {
        match self {
            Error::Config => "concurrency must be at least 1"@,
            Error::Network => "could not fetch resource"@,
            Error::Decode => "could not decode response body"@,
            Error::Extraction(field) => field.description(),
            Error::UnsupportedFormat => "unsupported cover format"@,
            Error::Assembly => "could not write epub"@,
            Error::InvalidSelector => "invalid selector"@,
            Error::InvalidUrl => "invalid url"@,
        }
    }

    /// A message for the user.
    pub fn message(&self) -> (text: String)
        ensures
            text@ == self.message_text(),
    {
        let text = match self {
            Error::Config => "concurrency must be at least 1",
            Error::Network => "could not fetch resource",
            Error::Decode => "could not decode response body",
            Error::Extraction(Field::Cover) => "could not find cover image",
            Error::Extraction(Field::Author) => "could not find author",
            Error::Extraction(Field::Title) => "could not find title",
            Error::Extraction(Field::Description) => "could not find description",
            Error::Extraction(Field::ChapterTable) => "could not find chapters",
            Error::Extraction(Field::ChapterLink) => "could not find chapter link",
            Error::Extraction(Field::ChapterName) => "could not find chapter name",
            Error::Extraction(Field::ChapterContent) => "couldn't find chapter content",
            Error::UnsupportedFormat => "unsupported cover format",
            Error::Assembly => "could not write epub",
            Error::InvalidSelector => "invalid selector",
            Error::InvalidUrl => "invalid url",
        };
        String::from_str(text)
    }
}

} // verus!
