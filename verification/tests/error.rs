use rustyroad::error::Error;
use rustyroad::error::Field;

#[test]
fn message_of_each_error() {
    assert_eq!(Error::Config.message(), "concurrency must be at least 1");
    assert_eq!(Error::Network.message(), "could not fetch resource");
    assert_eq!(Error::Decode.message(), "could not decode response body");
    assert_eq!(Error::UnsupportedFormat.message(), "unsupported cover format");
    assert_eq!(Error::Assembly.message(), "could not write epub");
    assert_eq!(Error::InvalidSelector.message(), "invalid selector");
    assert_eq!(Error::InvalidUrl.message(), "invalid url");
}

#[test]
fn message_names_the_missing_field() {
    assert_eq!(Error::Extraction(Field::Cover).message(), "could not find cover image");
    assert_eq!(Error::Extraction(Field::Author).message(), "could not find author");
    assert_eq!(Error::Extraction(Field::Title).message(), "could not find title");
    assert_eq!(Error::Extraction(Field::Description).message(), "could not find description");
    assert_eq!(Error::Extraction(Field::ChapterTable).message(), "could not find chapters");
    assert_eq!(Error::Extraction(Field::ChapterLink).message(), "could not find chapter link");
    assert_eq!(Error::Extraction(Field::ChapterName).message(), "could not find chapter name");
    assert_eq!(
        Error::Extraction(Field::ChapterContent).message(),
        "couldn't find chapter content"
    );
}
