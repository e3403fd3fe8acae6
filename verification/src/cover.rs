//! The cover image: which kinds are supported, and how a kind is told from a
//! file extension, a media type, or the address of the image.

use crate::error::Error;
use crate::locator::address_path;
use crate::locator::path_of;
use crate::text::after_last;
use crate::text::same_text;
use crate::text::suffix_after;
use vstd::prelude::*;

verus! {

/// What separates the name of a file from its extension.
pub const EXTENSION_MARK: char = '.';

/// A supported kind of cover image, told by the extension of its file.
#[derive(Clone, Copy, Debug, PartialEq, Eq, Structural)]
pub enum CoverFormat {
    /// A JPEG image in a file that ends in `jpg`.
    Jpg,
    /// A JPEG image in a file that ends in `jpeg`.
    Jpeg,
    /// A PNG image.
    Png,
}

impl CoverFormat {
    /// The extension of the image's file.
    pub open spec fn extension_text(self) -> Seq<char> {
        match self {
            CoverFormat::Jpg => "jpg"@,
            CoverFormat::Jpeg => "jpeg"@,
            CoverFormat::Png => "png"@,
        }
    }

    /// The media type of the image.
    pub open spec fn media_type_text(self) -> Seq<char> {
        match self {
            CoverFormat::Jpg => "image/jpeg"@,
            CoverFormat::Jpeg => "image/jpeg"@,
            CoverFormat::Png => "image/png"@,
        }
    }

    /// The kind of image that a file with the extension `extension` holds, if
    /// it is supported.
    pub open spec fn of_extension(extension: Seq<char>) -> Option<CoverFormat> {
        if extension == "jpg"@ {
            Some(CoverFormat::Jpg)
        } else if extension == "jpeg"@ {
            Some(CoverFormat::Jpeg)
        } else if extension == "png"@ {
            Some(CoverFormat::Png)
        } else {
            None
        }
    }

    /// The kind of image that `tag`, an extension or a media type, stands
    /// for, if it is supported.
    pub open spec fn of_tag(tag: Seq<char>) -> Option<CoverFormat> {
        if CoverFormat::of_extension(tag) is Some {
            CoverFormat::of_extension(tag)
        } else if tag == "image/jpeg"@ {
            Some(CoverFormat::Jpeg)
        } else if tag == "image/png"@ {
            Some(CoverFormat::Png)
        } else {
            None
        }
    }

    /// The kind of image at the end of `path`: that of the extension after
    /// the last dot, or of all of `path` where it has no dot.
    pub open spec fn of_path(path: Seq<char>) -> Option<CoverFormat> {
        CoverFormat::of_extension(suffix_after(path, EXTENSION_MARK))
    }

    /// The kind of image at the address `url`: `InvalidUrl` where `url` is no
    /// absolute URL, `UnsupportedFormat` where its path does not end in a
    /// supported extension.
    pub open spec fn of_url(url: Seq<char>) -> Result<CoverFormat, Error> {
        match path_of(url) {
            Err(e) => Err(e),
            Ok(path) => supported(CoverFormat::of_path(path)),
        }
    }

    /// The extension of the image's file.
    pub fn extension(&self) -> (text: &'static str)
        ensures
            text@ == self.extension_text(),
    {
        match self {
            CoverFormat::Jpg => "jpg",
            CoverFormat::Jpeg => "jpeg",
            CoverFormat::Png => "png",
        }
    }

    /// The media type of the image.
    pub fn media_type(&self) -> (text: &'static str)
        ensures
            text@ == self.media_type_text(),
    {
        match self {
            CoverFormat::Jpg => "image/jpeg",
            CoverFormat::Jpeg => "image/jpeg",
            CoverFormat::Png => "image/png",
        }
    }

    /// Tells the kind of image from the extension of its file.
    pub fn from_extension(extension: &str) -> (format: Result<CoverFormat, Error>)
        ensures
            format == supported(CoverFormat::of_extension(extension@)),
    {
        if same_text(extension, "jpg") {
            Ok(CoverFormat::Jpg)
        } else if same_text(extension, "jpeg") {
            Ok(CoverFormat::Jpeg)
        } else if same_text(extension, "png") {
            Ok(CoverFormat::Png)
        } else {
            Err(Error::UnsupportedFormat)
        }
    }

    /// Tells the kind of image from an extension or a media type.
    pub fn from_tag(tag: &str) -> (format: Result<CoverFormat, Error>)
        ensures
            format == supported(CoverFormat::of_tag(tag@)),
    {
        match CoverFormat::from_extension(tag) {
            Ok(format) => Ok(format),
            Err(_) => {
                if same_text(tag, "image/jpeg") {
                    Ok(CoverFormat::Jpeg)
                } else if same_text(tag, "image/png") {
                    Ok(CoverFormat::Png)
                } else {
                    Err(Error::UnsupportedFormat)
                }
            },
        }
    }

    /// Tells the kind of image from the path of its address.
    pub fn from_path(path: &str) -> (format: Result<CoverFormat, Error>)
        ensures
            format == supported(CoverFormat::of_path(path@)),
    {
        CoverFormat::from_extension(after_last(path, EXTENSION_MARK))
    }

    /// Tells the kind of image from its address.
    pub fn from_url(url: &str) -> (format: Result<CoverFormat, Error>)
        ensures
            format == CoverFormat::of_url(url@),
    {
        match address_path(url) {
            Err(e) => Err(e),
            Ok(found) => CoverFormat::from_path(found.as_str()),
        }
    }
}

/// `format`, or the error that the image is of no supported kind.
pub open spec fn supported(format: Option<CoverFormat>) -> Result<CoverFormat, Error> {
    match format {
        Some(format) => Ok(format),
        None => Err(Error::UnsupportedFormat),
    }
}

} // verus!
