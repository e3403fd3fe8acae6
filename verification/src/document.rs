//! The document assembler: builds the e-book out of the story's metadata, the
//! cover and the chapters, in that order.
//!
//! The container is written by the `epub_builder` crate. What the builder has
//! been given is named here by a spec function without a body; the verified
//! code decides what is added, under which name and in which order.

use crate::cover::CoverFormat;
use crate::error::Error;
use crate::story::Chapter;
use crate::story::ChapterView;
use crate::text::decimal;
use crate::text::decimal_text;
use epub_builder::EpubBuilder;
use epub_builder::Error as BuilderError;
use epub_builder::EpubContent;
use epub_builder::ReferenceType;
use epub_builder::ZipLibrary;
use vstd::prelude::*;
use vstd::string::StringExecFns;

verus! {

/// `epub_builder::ZipLibrary`, which zips in memory.
#[verifier::external_type_specification]
#[verifier::external_body]
pub struct ExZipLibrary(ZipLibrary);

/// `epub_builder::Error`, why the builder failed.
#[verifier::external_type_specification]
#[verifier::external_body]
pub struct ExBuilderError(BuilderError);

/// An e-book under construction: an `EpubBuilder` that zips in memory. Its
/// bound, the builder's trait for zipping, has no public name, so the
/// builder is kept in a struct of which Verus sees nothing.
#[verifier::external_body]
pub struct Archive {
    inner: EpubBuilder<ZipLibrary>,
}

/// One thing that an archive has been given.
pub enum Part {
    /// The title of the book.
    Title(Seq<char>),
    /// An author of the book.
    Author(Seq<char>),
    /// A paragraph of the description of the book.
    Description(Seq<char>),
    /// The style sheet, a file that is no page.
    Stylesheet(Seq<char>),
    /// The cover image, a file that is no page.
    CoverImage { path: Seq<char>, media_type: Seq<char>, data: Seq<u8> },
    /// A page of the book. The table of contents lists it under `title`,
    /// unless `title` is empty. `cover` marks the page that shows the cover.
    Page { path: Seq<char>, title: Seq<char>, body: Seq<char>, cover: bool },
    /// The page that shows the table of contents, which the builder writes.
    Contents,
}

/// What `archive` has been given so far, in order: one part for each call
/// that changed it. The pages and files among them are the builder's list of
/// files, in the same order.
pub uninterp spec fn archive_parts(archive: Archive) -> Seq<Part>;

/// Calls `ZipLibrary::new`, which may fail. Nothing is claimed of it.
#[verifier::external_body]
fn new_zip() -> (zip: Result<ZipLibrary, BuilderError>) {
    ZipLibrary::new()
}

/// Calls `EpubBuilder::new`, which may fail. The claim: the builder it
/// returns has been given nothing yet: it has an empty title, no author, no
/// description and no file of the book.
#[verifier::external_body]
fn new_archive(zip: ZipLibrary) -> (archive: Result<Archive, BuilderError>)
    ensures
        archive matches Ok(made) ==> archive_parts(made) == Seq::<Part>::empty(),
{
    Ok(Archive { inner: EpubBuilder::new(zip)? })
}

/// Calls `EpubBuilder::set_title`. The claim: the call changes the builder
/// by what it is given, the title.
#[verifier::external_body]
fn set_title(archive: &mut Archive, title: &str)
    ensures
        archive_parts(*final(archive)) == archive_parts(*old(archive)).push(Part::Title(title@)),
{
    archive.inner.set_title(title);
}

/// Calls `EpubBuilder::add_author`. The claim: the call changes the builder
/// by what it is given, one more author.
#[verifier::external_body]
fn add_author(archive: &mut Archive, author: &str)
    ensures
        archive_parts(*final(archive)) == archive_parts(*old(archive)).push(
            Part::Author(author@),
        ),
{
    archive.inner.add_author(author);
}

/// Calls `EpubBuilder::add_description`. The claim: the call changes the
/// builder by what it is given, one more paragraph of the description.
#[verifier::external_body]
fn add_description(archive: &mut Archive, description: &str)
    ensures
        archive_parts(*final(archive)) == archive_parts(*old(archive)).push(
            Part::Description(description@),
        ),
{
    archive.inner.add_description(description);
}

/// Calls `EpubBuilder::stylesheet`. The claim: where the call succeeds, it
/// has written the text to the file `stylesheet.css` and listed that file
/// after the files that the builder had. Nothing is claimed where it fails.
#[verifier::external_body]
fn set_stylesheet(archive: &mut Archive, style: &str) -> (done: Result<(), BuilderError>)
    ensures
        done is Ok ==> archive_parts(*final(archive)) == archive_parts(*old(archive)).push(
            Part::Stylesheet(style@),
        ),
{
    archive.inner.stylesheet(style.as_bytes()).map(|_| ())
}

/// Calls `EpubBuilder::add_cover_image`. The claim: where the call succeeds,
/// it has written the image to the file `path` and listed that file, as the
/// cover image and with the given media type, after the files that the
/// builder had. Nothing is claimed where it fails.
#[verifier::external_body]
fn add_cover_image(archive: &mut Archive, path: &str, image: &[u8], media_type: &str) -> (done:
    Result<(), BuilderError>)
    ensures
        done is Ok ==> archive_parts(*final(archive)) == archive_parts(*old(archive)).push(
            Part::CoverImage { path: path@, media_type: media_type@, data: image@ },
        ),
{
    archive.inner.add_cover_image(path, image, media_type).map(|_| ())
}

/// Calls `EpubBuilder::add_content` with a page made by `EpubContent::new`
/// and `EpubContent::title`; a cover page gets the reference type `Cover`.
/// The claim: where the call succeeds, it has written the body to the file
/// `path` and listed that file, as a page with the given title, after the
/// files that the builder had. Nothing is claimed where it fails.
#[verifier::external_body]
fn add_page(archive: &mut Archive, path: &str, title: &str, body: &str, cover: bool) -> (done:
    Result<(), BuilderError>)
    ensures
        done is Ok ==> archive_parts(*final(archive)) == archive_parts(*old(archive)).push(
            Part::Page { path: path@, title: title@, body: body@, cover },
        ),
{
    let mut page = EpubContent::new(path, body.as_bytes()).title(title);
    page.reftype = cover.then_some(ReferenceType::Cover);
    archive.inner.add_content(page).map(|_| ())
}

/// Calls `EpubBuilder::inline_toc`. The claim: it lists the page of the table
/// of contents after the files that the builder had.
#[verifier::external_body]
fn add_contents(archive: &mut Archive)
    ensures
        archive_parts(*final(archive)) == archive_parts(*old(archive)).push(Part::Contents),
{
    archive.inner.inline_toc();
}

/// Calls `EpubBuilder::generate` on a buffer. What it writes holds the time
/// and an identifier made at random, so nothing is claimed of it.
#[verifier::external_body]
fn generate(archive: Archive) -> (bytes: Result<Vec<u8>, BuilderError>) {
    let mut bytes = Vec::new();
    archive.inner.generate(&mut bytes).map(|_| bytes)
}

/// The style sheet of the book.
pub const STYLESHEET: &'static str = "
            @page {
                margin-bottom: 5pt;
                margin-top: 5pt;
            }
            
            .chapter-inner {
                font-size: 1em;
                line-height: 1.2;
                margin: 0 5pt;
            }

            p {
                text-indent: 1em;
            }
        ";

/// A page up to the title of the chapter.
pub const PAGE_HEAD: &'static str = "<?xml version='1.0' encoding='utf-8'?>
            <html xmlns=\"http://www.w3.org/1999/xhtml\">
                <head>
                    <title>";

/// A page between the title of the chapter and its text.
pub const PAGE_MIDDLE: &'static str = "</title>
                    <meta http-equiv=\"Content-Type\" content=\"text/html; charset=utf-8\"/>
                    <link rel=\"stylesheet\" type=\"text/css\" href=\"stylesheet.css\"/>
                </head>
                <body>
                    ";

/// A page after the text of the chapter.
pub const PAGE_TAIL: &'static str = "
                </body>
            </html>
        ";

/// The name of the file of a chapter, up to its number.
pub const CHAPTER_STEM: &'static str = "chapter_";

/// The extension of the file of a page.
pub const PAGE_EXTENSION: &'static str = ".xhtml";

/// The name of the file of the cover image, up to its extension.
pub const COVER_STEM: &'static str = "cover.";

/// The name of the file of the page that shows the cover.
pub const COVER_PAGE: &'static str = "cover.xhtml";

/// The title of the page that shows the cover.
pub const COVER_TITLE: &'static str = "Cover";

/// The page that shows the cover, up to the extension of the image.
pub const COVER_PAGE_HEAD: &'static str = "<img src=\"cover.";

/// The page that shows the cover, after the extension of the image.
pub const COVER_PAGE_TAIL: &'static str = "\" />";

/// The page of a chapter with the given title and text: the text, wrapped in
/// a page that names the title and the style sheet.
pub open spec fn page_text(title: Seq<char>, content: Seq<char>) -> Seq<char> {
    PAGE_HEAD@ + title + PAGE_MIDDLE@ + content + PAGE_TAIL@
}

/// The name of the file of chapter `index`.
pub open spec fn chapter_path(index: nat) -> Seq<char> {
    CHAPTER_STEM@ + decimal(index) + PAGE_EXTENSION@
}

/// The name of the file of a cover image of the kind `format`.
pub open spec fn cover_path(format: CoverFormat) -> Seq<char> {
    COVER_STEM@ + format.extension_text()
}

/// The page that shows a cover image of the kind `format`.
pub open spec fn cover_page_text(format: CoverFormat) -> Seq<char> {
    COVER_PAGE_HEAD@ + format.extension_text() + COVER_PAGE_TAIL@
}

/// What a new document holds: the metadata and the style sheet.
pub open spec fn heading(title: Seq<char>, author: Seq<char>, description: Seq<char>) -> Seq<
    Part,
> {
    seq![
        Part::Title(title),
        Part::Author(author),
        Part::Description(description),
        Part::Stylesheet(STYLESHEET@),
    ]
}

/// The cover image of the kind `format`, as a part of a document.
pub open spec fn cover_image_part(format: CoverFormat, image: Seq<u8>) -> Part {
    Part::CoverImage { path: cover_path(format), media_type: format.media_type_text(), data: image }
}

/// The page that shows a cover image of the kind `format`, as a part of a
/// document.
pub open spec fn cover_page_part(format: CoverFormat) -> Part {
    Part::Page {
        path: COVER_PAGE@,
        title: COVER_TITLE@,
        body: cover_page_text(format),
        cover: true,
    }
}

/// What a cover adds to a document: the image, and the page that shows it.
pub open spec fn cover_parts(format: CoverFormat, image: Seq<u8>) -> Seq<Part> {
    seq![cover_image_part(format, image), cover_page_part(format)]
}

/// The page of chapter `index`.
pub open spec fn chapter_part(index: nat, chapter: ChapterView, content: Seq<char>) -> Part {
    Part::Page {
        path: chapter_path(index),
        title: chapter.name,
        body: page_text(chapter.name, content),
        cover: false,
    }
}

/// What chapter `index` adds to a document: its page, after the table of
/// contents where it is the first chapter.
pub open spec fn chapter_parts(index: nat, chapter: ChapterView, content: Seq<char>) -> Seq<Part> {
    if index == 0 {
        seq![Part::Contents, chapter_part(index, chapter, content)]
    } else {
        seq![chapter_part(index, chapter, content)]
    }
}

/// Where the table of contents stands in a document with or without a cover.
pub open spec fn contents_place(cover: Option<CoverFormat>) -> int {
    if cover is Some {
        6
    } else {
        4
    }
}

/// The order of a document: the metadata and the style sheet; then the cover
/// image and its page, if there is a cover; then, once there is a chapter,
/// the table of contents and the chapters by ascending index, chapter `i`
/// in the file that bears its number.
pub open spec fn laid_out(parts: Seq<Part>, cover: Option<CoverFormat>, chapters: nat) -> bool {
    let place = contents_place(cover);
    &&& parts.len() == place + if chapters > 0 {
        chapters + 1
    } else {
        0
    }
    &&& parts[0] is Title
    &&& parts[1] is Author
    &&& parts[2] is Description
    &&& parts[3] == Part::Stylesheet(STYLESHEET@)
    &&& cover matches Some(format) ==> {
        &&& parts[4] matches Part::CoverImage { path, media_type, .. }
        &&& path == cover_path(format)
        &&& media_type == format.media_type_text()
        &&& parts[5] == cover_page_part(format)
    }
    &&& chapters > 0 ==> parts[place] == Part::Contents
    &&& forall|i: int|
        0 <= i < chapters ==> {
            &&& #[trigger] parts[place + 1 + i] matches Part::Page { path, cover, .. }
            &&& path == chapter_path(i as nat)
            &&& !cover
        }
}

/// Writes the page of a chapter with the given title and text.
pub fn chapter_page(title: &str, content: &str) -> (page: String)
    ensures
        page@ == page_text(title@, content@),
{
    let mut page = String::from_str(PAGE_HEAD);
    page.append(title);
    page.append(PAGE_MIDDLE);
    page.append(content);
    page.append(PAGE_TAIL);
    page
}

/// The name of the file of chapter `nr`.
pub fn chapter_file(nr: usize) -> (path: String)
    ensures
        path@ == chapter_path(nr as nat),
{
    let mut path = String::from_str(CHAPTER_STEM);
    path.append(decimal_text(nr).as_str());
    path.append(PAGE_EXTENSION);
    path
}

/// The name of the file of a cover image of the kind `format`.
pub fn cover_file(format: CoverFormat) -> (path: String)
    ensures
        path@ == cover_path(format),
{
    let mut path = String::from_str(COVER_STEM);
    path.append(format.extension());
    path
}

/// Writes the page that shows a cover image of the kind `format`.
pub fn cover_page(format: CoverFormat) -> (page: String)
    ensures
        page@ == cover_page_text(format),
{
    let mut page = String::from_str(COVER_PAGE_HEAD);
    page.append(format.extension());
    page.append(COVER_PAGE_TAIL);
    page
}

/// An e-book under construction.
pub struct Document {
    archive: Archive,
    cover: Option<CoverFormat>,
    chapters: usize,
}

impl View for Document {
    type V = Seq<Part>;

    /// What the document holds, in order.
    closed spec fn view(&self) -> Seq<Part> {
        archive_parts(self.archive)
    }
}

impl Document {
    /// The kind of the cover image, if the document has a cover.
    pub closed spec fn cover_format(&self) -> Option<CoverFormat> {
        self.cover
    }

    /// How many chapters the document holds.
    pub closed spec fn chapter_count(&self) -> nat {
        self.chapters as nat
    }

    /// Whether the document is in order.
    pub open spec fn wf(&self) -> bool {
        laid_out(self@, self.cover_format(), self.chapter_count())
    }

    /// A document with the given metadata and the style sheet of the book.
    pub fn new(title: &str, author: &str, description: &str) -> (made: Result<Document, Error>)
        ensures
            match made {
                Ok(document) => {
                    &&& document.wf()
                    &&& document@ == heading(title@, author@, description@)
                    &&& document.cover_format() is None
                    &&& document.chapter_count() == 0
                },
                Err(e) => e == Error::Assembly,
            },
    {
        let zip = match new_zip() {
            Ok(zip) => zip,
            Err(_) => { return Err(Error::Assembly); },
        };
        let mut archive = match new_archive(zip) {
            Ok(archive) => archive,
            Err(_) => { return Err(Error::Assembly); },
        };
        set_title(&mut archive, title);
        add_author(&mut archive, author);
        add_description(&mut archive, description);
        match set_stylesheet(&mut archive, STYLESHEET) {
            Ok(_) => {},
            Err(_) => { return Err(Error::Assembly); },
        }
        let document = Document { archive, cover: None, chapters: 0 };
        assert(document@ =~= heading(title@, author@, description@));
        Ok(document)
    }

    /// Whether the document has a cover.
    pub fn has_cover(&self) -> (has: bool)
        ensures
            has == self.cover_format() is Some,
    {
        self.cover.is_some()
    }

    /// How many chapters the document holds.
    pub fn chapters(&self) -> (count: usize)
        ensures
            count == self.chapter_count(),
    {
        self.chapters
    }

    /// Gives the document its cover: the image `image`, of the kind that
    /// `tag`, an extension or a media type, stands for, and the page that
    /// shows it. An unsupported kind is refused and leaves the document as it
    /// was. The cover comes before the first chapter, and once.
    pub fn set_cover(&mut self, image: &[u8], tag: &str) -> (done: Result<(), Error>)
        requires
            old(self).wf(),
            old(self).cover_format() is None,
            old(self).chapter_count() == 0,
        ensures
            match CoverFormat::of_tag(tag@) {
                None => done == Err::<(), Error>(Error::UnsupportedFormat) && *final(self) == *old(
                    self,
                ),
                Some(format) => match done {
                    Ok(_) => {
                        &&& final(self).wf()
                        &&& final(self)@ == old(self)@ + cover_parts(format, image@)
                        &&& final(self).cover_format() == Some(format)
                        &&& final(self).chapter_count() == 0
                    },
                    Err(e) => e == Error::Assembly,
                },
            },
    {
        let format = match CoverFormat::from_tag(tag) {
            Ok(format) => format,
            Err(e) => { return Err(e); },
        };
        let ghost before = self@;
        let path = cover_file(format);
        match add_cover_image(&mut self.archive, path.as_str(), image, format.media_type()) {
            Ok(_) => {},
            Err(_) => { return Err(Error::Assembly); },
        }
        let page = cover_page(format);
        match add_page(&mut self.archive, COVER_PAGE, COVER_TITLE, page.as_str(), true) {
            Ok(_) => {},
            Err(_) => { return Err(Error::Assembly); },
        }
        self.cover = Some(format);
        assert(self@ =~= before + cover_parts(format, image@));
        Ok(())
    }

    /// Adds chapter `nr` of the story: its text, wrapped in a page under the
    /// chapter's name. The chapters are added in the order of the story,
    /// from chapter 0 on; the table of contents comes before the first.
    pub fn add_chapter(&mut self, nr: usize, chapter: &Chapter, content: &str) -> (done: Result<
        (),
        Error,
    >)
        requires
            old(self).wf(),
            nr == old(self).chapter_count(),
            nr < usize::MAX,
        ensures
            match done {
                Ok(_) => {
                    &&& final(self).wf()
                    &&& final(self)@ == old(self)@ + chapter_parts(nr as nat, chapter@, content@)
                    &&& final(self).chapter_count() == nr + 1
                    &&& final(self).cover_format() == old(self).cover_format()
                },
                Err(e) => e == Error::Assembly,
            },
    {
        let ghost before = self@;
        if nr == 0 {
            add_contents(&mut self.archive);
        }
        let page = chapter_page(chapter.name.as_str(), content);
        let path = chapter_file(nr);
        match add_page(
            &mut self.archive,
            path.as_str(),
            chapter.name.as_str(),
            page.as_str(),
            false,
        ) {
            Ok(_) => {},
            Err(_) => { return Err(Error::Assembly); },
        }
        self.chapters = nr + 1;
        proof {
            let place = contents_place(self.cover);
            assert(self@ =~= before + chapter_parts(nr as nat, chapter@, content@));
            assert forall|i: int| 0 <= i < nr + 1 implies {
                &&& #[trigger] self@[place + 1 + i] matches Part::Page { path, cover, .. }
                &&& path == chapter_path(i as nat)
                &&& !cover
            } by {
                if i < nr {
                    assert(self@[place + 1 + i] == before[place + 1 + i]);
                }
            }
        }
        Ok(())
    }

    /// Writes the e-book: the container with the metadata, the cover, the
    /// table of contents and the chapters.
    pub fn finalize(self) -> (bytes: Result<Vec<u8>, Error>)
        requires
            self.wf(),
        ensures
            bytes matches Err(e) ==> e == Error::Assembly,
    {
        assembled(generate(self.into_archive()))
    }

    /// What the builder is given before it writes the book: what the document
    /// holds, and after it the table of contents where the book has no
    /// chapter that the table would have come before.
    pub open spec fn finished_parts(&self) -> Seq<Part> {
        if self.chapter_count() == 0 {
            self@.push(Part::Contents)
        } else {
            self@
        }
    }

    /// Closes the document: hands out the archive that is to be written,
    /// with the table of contents in it.
    pub fn into_archive(self) -> (archive: Archive)
        requires
            self.wf(),
        ensures
            archive_parts(archive) == self.finished_parts(),
    {
        let mut archive = self.archive;
        if self.chapters == 0 {
            add_contents(&mut archive);
        }
        archive
    }
}

/// What writing the book gives, for each outcome of the builder: the bytes
/// that the builder wrote, or the error that the book could not be written.
pub open spec fn assembly_of(outcome: Result<Vec<u8>, BuilderError>) -> Result<Vec<u8>, Error> {
    match outcome {
        Ok(bytes) => Ok(bytes),
        Err(_) => Err(Error::Assembly),
    }
}

/// Turns the outcome of the builder into that of the library.
pub fn assembled(outcome: Result<Vec<u8>, BuilderError>) -> (bytes: Result<Vec<u8>, Error>)
    ensures
        bytes == assembly_of(outcome),
{
    match outcome {
        Ok(bytes) => Ok(bytes),
        Err(_) => Err(Error::Assembly),
    }
}

} // verus!
