//! The story resolver: what a landing page says of a story, and what a
//! chapter page holds.

use crate::error::optional_text;
use crate::error::text_view;
use crate::error::Error;
use crate::error::Field;
use crate::markup::attribute_in_document;
use crate::markup::attribute_of;
use crate::markup::element_attribute;
use crate::markup::element_first_text;
use crate::markup::element_matches;
use crate::markup::extract_attribute;
use crate::markup::extract_markup;
use crate::markup::find_first;
use crate::markup::first_in_document;
use crate::markup::first_text_of;
use crate::markup::markup_in_document;
use crate::markup::parse_document;
use crate::markup::parsed_document;
use crate::markup::select_in_element;
use crate::markup::selector;
use crate::markup::selector_of;
use crate::text::before_first;
use crate::text::prefix_before;
use crate::text::trim;
use crate::text::trimmed;
use scraper::ElementRef;
use scraper::Html;
use vstd::prelude::*;

verus! {

/// What separates the address of a story from that of one of its chapters.
pub const CHAPTER_MARK: &'static str = "/chapter/";

/// Selects the element that holds the address of the cover image.
pub const COVER_SELECTOR: &'static str = "meta[name=\"twitter:image\"]";

/// Selects the element that holds the author's name.
pub const AUTHOR_SELECTOR: &'static str = "meta[name=\"twitter:creator\"]";

/// Selects the element that holds the title.
pub const TITLE_SELECTOR: &'static str = "meta[name=\"twitter:title\"]";

/// Selects the element that holds the description.
pub const DESCRIPTION_SELECTOR: &'static str = "meta[name=\"twitter:description\"]";

/// Selects the table of chapters.
pub const TABLE_SELECTOR: &'static str = "table[id=\"chapters\"]";

/// Selects, inside the table of chapters, the link of each row.
pub const ROW_SELECTOR: &'static str = "tbody > tr > td > a";

/// Selects, on a chapter's page, the block that holds its text.
pub const CONTENT_SELECTOR: &'static str = "div.chapter-content";

/// The attribute that holds the value of a `meta` element.
pub const VALUE_ATTRIBUTE: &'static str = "content";

/// The attribute that holds the target of a link.
pub const LINK_ATTRIBUTE: &'static str = "href";

/// One chapter of a story: its name and where its page is.
#[derive(Debug, Clone)]
pub struct Chapter {
    pub name: String,
    pub link: String,
}

/// A chapter, as the contracts see it.
pub struct ChapterView {
    pub name: Seq<char>,
    pub link: Seq<char>,
}

impl View for Chapter {
    type V = ChapterView;

    open spec fn view(&self) -> ChapterView {
        ChapterView { name: self.name@, link: self.link@ }
    }
}

/// A story: what the landing page says of it, and its chapters in the order
/// of the table.
#[derive(Debug)]
pub struct Story {
    pub title: String,
    pub author: String,
    pub description: String,
    pub cover: String,
    pub chapters: Vec<Chapter>,
}

/// A story, as the contracts see it.
pub struct StoryView {
    pub title: Seq<char>,
    pub author: Seq<char>,
    pub description: Seq<char>,
    pub cover: Seq<char>,
    pub chapters: Seq<ChapterView>,
}

/// The views of `chapters`, in the same order.
pub open spec fn chapter_views(chapters: Seq<Chapter>) -> Seq<ChapterView> {
    Seq::new(chapters.len(), |i: int| chapters[i]@)
}

impl View for Story {
    type V = StoryView;

    open spec fn view(&self) -> StoryView {
        StoryView {
            title: self.title@,
            author: self.author@,
            description: self.description@,
            cover: self.cover@,
            chapters: chapter_views(self.chapters@),
        }
    }
}

impl Chapter {
    /// A chapter with the same name and link.
    pub fn duplicate(&self) -> (copy: Chapter)
        ensures
            copy@ == self@,
    {
        Chapter { name: self.name.clone(), link: self.link.clone() }
    }
}

/// The address of the story that `url`, the address of the story or of one of
/// its chapters, belongs to.
pub open spec fn landing_of(url: Seq<char>) -> Seq<char> {
    prefix_before(url, CHAPTER_MARK@)
}

/// The chapter that a row with the given link and text stands for. A row
/// needs both; its name is the text without the white space around it.
pub open spec fn chapter_of(link: Option<Seq<char>>, text: Option<Seq<char>>) -> Result<
    ChapterView,
    Error,
> {
    match link {
        None => Err(Error::Extraction(Field::ChapterLink)),
        Some(link) => match text {
            None => Err(Error::Extraction(Field::ChapterName)),
            Some(text) => Ok(ChapterView { name: trimmed(text), link }),
        },
    }
}

/// The chapter that `row`, a link in the table of chapters, stands for.
pub open spec fn row_chapter(row: ElementRef<'static>) -> Result<ChapterView, Error> {
    chapter_of(attribute_of(row, LINK_ATTRIBUTE@), first_text_of(row))
}

/// Row `at` is the first of `rows` that stands for no chapter.
pub open spec fn is_first_bad_row(rows: Seq<ElementRef<'static>>, at: int) -> bool {
    &&& 0 <= at < rows.len()
    &&& row_chapter(rows[at]) is Err
    &&& forall|i: int| 0 <= i < at ==> row_chapter(rows[i]) is Ok
}

/// The chapters that `rows` stand for, in the same order, or the error of
/// the first row that stands for none.
pub open spec fn chapters_of(rows: Seq<ElementRef<'static>>) -> Result<Seq<ChapterView>, Error> {
    if exists|at: int| is_first_bad_row(rows, at) {
        Err(row_chapter(rows[choose|at: int| is_first_bad_row(rows, at)])->Err_0)
    } else {
        Ok(Seq::new(rows.len(), |i: int| row_chapter(rows[i])->Ok_0))
    }
}

/// The chapters that the table of chapters of `doc` lists.
pub open spec fn table_chapters(doc: Html) -> Result<Seq<ChapterView>, Error> {
    match first_in_document(doc, TABLE_SELECTOR@, Field::ChapterTable) {
        Err(e) => Err(e),
        Ok(table) => match selector_of(ROW_SELECTOR@) {
            Err(e) => Err(e),
            Ok(rows) => chapters_of(element_matches(table, rows)),
        },
    }
}

/// The value of the `meta` element of `doc` that `selector` finds.
pub open spec fn meta_value(doc: Html, selector: Seq<char>, field: Field) -> Result<
    Seq<char>,
    Error,
> {
    attribute_in_document(doc, selector, VALUE_ATTRIBUTE@, field)
}

/// The story that the landing page `doc` describes. The fields are read in
/// the order cover, author, title, description, chapters; the first that is
/// missing decides the error.
pub open spec fn story_in(doc: Html) -> Result<StoryView, Error> {
    match meta_value(doc, COVER_SELECTOR@, Field::Cover) {
        Err(e) => Err(e),
        Ok(cover) => match meta_value(doc, AUTHOR_SELECTOR@, Field::Author) {
            Err(e) => Err(e),
            Ok(author) => match meta_value(doc, TITLE_SELECTOR@, Field::Title) {
                Err(e) => Err(e),
                Ok(title) => match meta_value(doc, DESCRIPTION_SELECTOR@, Field::Description) {
                    Err(e) => Err(e),
                    Ok(description) => match table_chapters(doc) {
                        Err(e) => Err(e),
                        Ok(chapters) => Ok(
                            StoryView { title, author, description, cover, chapters },
                        ),
                    },
                },
            },
        },
    }
}

/// The story that the landing page with the text `page` describes.
pub open spec fn story_of(page: Seq<char>) -> Result<StoryView, Error> {
    story_in(parsed_document(page))
}

/// The text of the chapter whose page has the text `page`: the markup of its
/// content block.
pub open spec fn content_of(page: Seq<char>) -> Result<Seq<char>, Error> {
    markup_in_document(parsed_document(page), CONTENT_SELECTOR@, Field::ChapterContent)
}

/// What a `Result` that holds a chapter says, as a `Result` of its view.
pub open spec fn chapter_view(result: Result<Chapter, Error>) -> Result<ChapterView, Error> {
    match result {
        Ok(chapter) => Ok(chapter@),
        Err(e) => Err(e),
    }
}

/// What a `Result` that holds chapters says, as a `Result` of their views.
pub open spec fn chapters_view(result: Result<Vec<Chapter>, Error>) -> Result<
    Seq<ChapterView>,
    Error,
> {
    match result {
        Ok(chapters) => Ok(chapter_views(chapters@)),
        Err(e) => Err(e),
    }
}

/// What a `Result` that holds a story says, as a `Result` of its view.
pub open spec fn story_view(result: Result<Story, Error>) -> Result<StoryView, Error> {
    match result {
        Ok(story) => Ok(story@),
        Err(e) => Err(e),
    }
}

/// The address of a story's landing page, given that address or the address
/// of one of its chapters.
pub fn landing_url<'a>(url: &'a str) -> (landing: &'a str)
    ensures
        landing@ == landing_of(url@),
{
    before_first(url, CHAPTER_MARK)
}

/// Makes a chapter from the link and the text of a row of the table.
pub fn chapter_from(link: Option<&str>, text: Option<&str>) -> (chapter: Result<Chapter, Error>)
    ensures
        chapter_view(chapter) == chapter_of(optional_text(link), optional_text(text)),
{
    match link {
        None => Err(Error::Extraction(Field::ChapterLink)),
        Some(link) => match text {
            None => Err(Error::Extraction(Field::ChapterName)),
            Some(text) => Ok(Chapter { name: trim(text).to_owned(), link: link.to_owned() }),
        },
    }
}

/// Reads the chapter that `row` stands for.
pub fn read_row(row: &ElementRef) -> (chapter: Result<Chapter, Error>)
    ensures
        chapter_view(chapter) == row_chapter(*row),
{
    let link = element_attribute(row, LINK_ATTRIBUTE);
    let text = element_first_text(row);
    chapter_from(link, text)
}

/// Reads the chapters that `rows` stand for, in the same order.
pub fn read_rows(rows: &Vec<ElementRef>) -> (chapters: Result<Vec<Chapter>, Error>)
    ensures
        chapters_view(chapters) == chapters_of(rows@),
{
    let mut chapters: Vec<Chapter> = Vec::new();
    let mut at: usize = 0;
    while at < rows.len()
        invariant
            at <= rows.len(),
            chapters.len() == at,
            forall|i: int| 0 <= i < at ==> row_chapter(rows@[i]) == Ok::<ChapterView, Error>(
                chapters@[i]@,
            ),
        decreases rows.len() - at,
    {
        match read_row(&rows[at]) {
            Err(e) => {
                proof {
                    assert(is_first_bad_row(rows@, at as int));
                    let chosen = choose|c: int| is_first_bad_row(rows@, c);
                    assert(chosen == at);
                }
                return Err(e);
            },
            Ok(chapter) => {
                chapters.push(chapter);
            },
        }
        at += 1;
    }
    proof {
        assert forall|c: int| !is_first_bad_row(rows@, c) by {
            if 0 <= c < rows@.len() {
                assert(row_chapter(rows@[c]) is Ok);
            }
        }
        assert(chapter_views(chapters@) =~= Seq::new(
            rows@.len(),
            |i: int| row_chapter(rows@[i])->Ok_0,
        ));
    }
    Ok(chapters)
}

/// Reads the chapters that the table of chapters of `doc` lists.
pub fn read_table(doc: &Html) -> (chapters: Result<Vec<Chapter>, Error>)
    ensures
        chapters_view(chapters) == table_chapters(*doc),
{
    match find_first(doc, TABLE_SELECTOR, Field::ChapterTable) {
        Err(e) => Err(e),
        Ok(table) => match selector(ROW_SELECTOR) {
            Err(e) => Err(e),
            Ok(row_selector) => {
                let rows = select_in_element(&table, &row_selector);
                read_rows(&rows)
            },
        },
    }
}

/// Reads the story that a landing page describes.
pub fn read_story(doc: &Html) -> (story: Result<Story, Error>)
    ensures
        story_view(story) == story_in(*doc),
{
    let cover = match extract_attribute(doc, COVER_SELECTOR, VALUE_ATTRIBUTE, Field::Cover) {
        Err(e) => { return Err(e); },
        Ok(value) => value,
    };
    let author = match extract_attribute(doc, AUTHOR_SELECTOR, VALUE_ATTRIBUTE, Field::Author) {
        Err(e) => { return Err(e); },
        Ok(value) => value,
    };
    let title = match extract_attribute(doc, TITLE_SELECTOR, VALUE_ATTRIBUTE, Field::Title) {
        Err(e) => { return Err(e); },
        Ok(value) => value,
    };
    let description = match extract_attribute(
        doc,
        DESCRIPTION_SELECTOR,
        VALUE_ATTRIBUTE,
        Field::Description,
    ) {
        Err(e) => { return Err(e); },
        Ok(value) => value,
    };
    let chapters = match read_table(doc) {
        Err(e) => { return Err(e); },
        Ok(value) => value,
    };
    Ok(Story { title, author, description, cover, chapters })
}

/// Reads the story that the landing page with the text `page` describes.
pub fn parse_story(page: &str) -> (story: Result<Story, Error>)
    ensures
        story_view(story) == story_of(page@),
{
    let doc = parse_document(page);
    read_story(&doc)
}

/// Reads the text of a chapter from its page: the markup of the page's
/// content block.
pub fn chapter_content(page: &str) -> (content: Result<String, Error>)
    ensures
        text_view(content) == content_of(page@),
{
    let doc = parse_document(page);
    extract_markup(&doc, CONTENT_SELECTOR, Field::ChapterContent)
}

} // verus!
