use std::io::Cursor;
use std::io::Read;

use rustyroad::cover::CoverFormat;
use rustyroad::document::assembled;
use rustyroad::document::chapter_file;
use rustyroad::document::chapter_page;
use rustyroad::document::cover_file;
use rustyroad::document::cover_page;
use rustyroad::document::Document;
use rustyroad::error::Error;
use rustyroad::pipeline::Pipeline;
use rustyroad::pipeline::Step;
use rustyroad::story::chapter_content;
use rustyroad::story::parse_story;
use rustyroad::story::Chapter;

fn chapter(i: usize) -> Chapter {
    Chapter { name: format!("Chapter {}", i), link: format!("/chapter/{}", i) }
}

/// The files of the archive `bytes`, in the order in which they were written.
fn files(bytes: &[u8]) -> Vec<(String, Vec<u8>)> {
    let mut archive = zip::ZipArchive::new(Cursor::new(bytes)).unwrap();
    let mut found = vec![];
    for i in 0..archive.len() {
        let mut file = archive.by_index(i).unwrap();
        let mut data = vec![];
        file.read_to_end(&mut data).unwrap();
        found.push((file.name().to_string(), data));
    }
    found
}

fn names(files: &[(String, Vec<u8>)]) -> Vec<&str> {
    files.iter().map(|(name, _)| name.as_str()).collect()
}

fn text_of<'a>(files: &'a [(String, Vec<u8>)], name: &str) -> &'a str {
    let (_, data) = files.iter().find(|(found, _)| found == name).unwrap();
    std::str::from_utf8(data).unwrap()
}

const STYLESHEET: &str = r#"
            @page {
                margin-bottom: 5pt;
                margin-top: 5pt;
            }
            
            .chapter-inner {
                font-size: 1em;
                line-height: 1.2;
                margin: 0 5pt;
            }

            p {
                text-indent: 1em;
            }
        "#;

#[test]
fn chapter_file_bears_the_number() {
    assert_eq!(chapter_file(0), "chapter_0.xhtml");
    assert_eq!(chapter_file(9), "chapter_9.xhtml");
    assert_eq!(chapter_file(10), "chapter_10.xhtml");
    assert_eq!(chapter_file(1234), "chapter_1234.xhtml");
}

#[test]
fn chapter_page_wraps_the_text() {
    assert_eq!(
        chapter_page("A & B", "<p>text</p>"),
        r#"<?xml version='1.0' encoding='utf-8'?>
            <html xmlns="http://www.w3.org/1999/xhtml">
                <head>
                    <title>A & B</title>
                    <meta http-equiv="Content-Type" content="text/html; charset=utf-8"/>
                    <link rel="stylesheet" type="text/css" href="stylesheet.css"/>
                </head>
                <body>
                    <p>text</p>
                </body>
            </html>
        "#
    );
    let empty = chapter_page("", "");
    assert!(empty.contains("<title></title>"));
    assert!(empty.ends_with("</html>\n        "));
}

#[test]
fn cover_file_and_page_bear_the_extension() {
    assert_eq!(cover_file(CoverFormat::Jpg), "cover.jpg");
    assert_eq!(cover_file(CoverFormat::Jpeg), "cover.jpeg");
    assert_eq!(cover_file(CoverFormat::Png), "cover.png");
    assert_eq!(cover_page(CoverFormat::Jpg), r#"<img src="cover.jpg" />"#);
    assert_eq!(cover_page(CoverFormat::Jpeg), r#"<img src="cover.jpeg" />"#);
    assert_eq!(cover_page(CoverFormat::Png), r#"<img src="cover.png" />"#);
}

#[test]
fn assembled_hands_the_bytes_on() {
    assert_eq!(assembled(Ok(vec![0x50, 0x4b, 3, 4])), Ok(vec![0x50, 0x4b, 3, 4]));
    assert_eq!(assembled(Ok(vec![])), Ok(vec![]));
}

#[test]
fn assembled_turns_a_failure_of_the_builder_into_an_assembly_error() {
    let failures = [
        epub_builder::Error::InvalidPath("a/b".to_string()),
        epub_builder::Error::ZipCommandError("no zip".to_string()),
        epub_builder::Error::InvalidMetadataError("key".to_string()),
    ];
    for failure in failures {
        assert_eq!(assembled(Err(failure)), Err(Error::Assembly));
    }
}

#[test]
fn a_document_without_chapters_still_gets_its_table_of_contents() {
    let mut document = Document::new("Title", "Author", "Description").unwrap();
    document.set_cover(b"image bytes", "png").unwrap();
    let bytes = document.finalize().unwrap();
    let files = files(&bytes);
    let package = text_of(&files, "OEBPS/content.opf");
    let cover = package.find(r#"href="cover.xhtml""#).unwrap();
    let contents = package.find(r#"href="toc.xhtml""#).unwrap();
    assert!(cover < contents);
    assert!(!text_of(&files, "OEBPS/toc.xhtml").is_empty());
}

#[test]
fn a_new_document_is_empty() {
    let document = Document::new("Title", "Author", "Description").unwrap();
    assert!(!document.has_cover());
    assert_eq!(document.chapters(), 0);
}

#[test]
fn finalize_writes_the_metadata_and_the_style_sheet() {
    let document = Document::new("A <Title>", "An Author", "A description.").unwrap();
    let bytes = document.finalize().unwrap();
    let files = files(&bytes);
    assert_eq!(
        names(&files),
        vec![
            "mimetype",
            "META-INF/container.xml",
            "META-INF/com.apple.ibooks.display-options.xml",
            "OEBPS/stylesheet.css",
            "OEBPS/content.opf",
            "OEBPS/toc.ncx",
            "OEBPS/nav.xhtml",
            "OEBPS/toc.xhtml",
        ]
    );
    assert_eq!(text_of(&files, "mimetype"), "application/epub+zip");
    assert_eq!(text_of(&files, "OEBPS/stylesheet.css"), STYLESHEET);
    let package = text_of(&files, "OEBPS/content.opf");
    assert!(package.contains("<dc:title>A &lt;Title&gt;</dc:title>"));
    assert!(package.contains("An Author</dc:creator>"));
    assert!(package.contains("<dc:description>A description.</dc:description>"));
    assert!(package.contains(r#"href="toc.xhtml""#));
}

#[test]
fn set_cover_refuses_an_unsupported_format() {
    let mut document = Document::new("Title", "Author", "Description").unwrap();
    assert_eq!(document.set_cover(b"GIF89a", "image/gif"), Err(Error::UnsupportedFormat));
    assert!(!document.has_cover());
    assert_eq!(document.set_cover(b"GIF89a", "gif"), Err(Error::UnsupportedFormat));
    assert!(!document.has_cover());
    assert_eq!(document.chapters(), 0);
    let bytes = document.finalize().unwrap();
    let files = files(&bytes);
    assert!(names(&files).iter().all(|name| !name.contains("cover")));
    assert!(!text_of(&files, "OEBPS/content.opf").contains("cover"));
}

#[test]
fn set_cover_can_follow_a_refusal() {
    let mut document = Document::new("Title", "Author", "Description").unwrap();
    assert_eq!(document.set_cover(b"GIF89a", "image/gif"), Err(Error::UnsupportedFormat));
    assert_eq!(document.set_cover(b"\x89PNG", "image/png"), Ok(()));
    assert!(document.has_cover());
}

#[test]
fn set_cover_adds_the_image_and_its_page() {
    for (tag, extension, media_type) in [
        ("jpg", "jpg", "image/jpeg"),
        ("jpeg", "jpeg", "image/jpeg"),
        ("png", "png", "image/png"),
        ("image/jpeg", "jpeg", "image/jpeg"),
        ("image/png", "png", "image/png"),
    ] {
        let mut document = Document::new("Title", "Author", "Description").unwrap();
        assert_eq!(document.set_cover(b"image \x00\xff bytes", tag), Ok(()));
        assert!(document.has_cover());
        assert_eq!(document.chapters(), 0);
        let bytes = document.finalize().unwrap();
        let files = files(&bytes);
        let image = format!("OEBPS/cover.{}", extension);
        assert_eq!(
            names(&files)[3..6],
            ["OEBPS/stylesheet.css", image.as_str(), "OEBPS/cover.xhtml"]
        );
        let (_, data) = files.iter().find(|(name, _)| *name == image).unwrap();
        assert_eq!(data.as_slice(), b"image \x00\xff bytes");
        assert_eq!(
            text_of(&files, "OEBPS/cover.xhtml"),
            format!(r#"<img src="cover.{}" />"#, extension)
        );
        let package = text_of(&files, "OEBPS/content.opf");
        assert!(package.contains(&format!(
            r#"<item media-type="{}" id="cover-image" href="cover.{}"/>"#,
            media_type, extension
        )));
        assert!(package.contains(r#"<reference type="cover" title="Cover" href="cover.xhtml"/>"#));
    }
}

#[test]
fn add_chapter_wraps_the_text_in_a_page() {
    let mut document = Document::new("Title", "Author", "Description").unwrap();
    let first = Chapter { name: "The Start".to_string(), link: "/chapter/0".to_string() };
    assert_eq!(document.add_chapter(0, &first, "<div><p>Once.</p></div>"), Ok(()));
    assert_eq!(document.chapters(), 1);
    let bytes = document.finalize().unwrap();
    let files = files(&bytes);
    assert_eq!(
        text_of(&files, "OEBPS/chapter_0.xhtml"),
        r#"<?xml version='1.0' encoding='utf-8'?>
            <html xmlns="http://www.w3.org/1999/xhtml">
                <head>
                    <title>The Start</title>
                    <meta http-equiv="Content-Type" content="text/html; charset=utf-8"/>
                    <link rel="stylesheet" type="text/css" href="stylesheet.css"/>
                </head>
                <body>
                    <div><p>Once.</p></div>
                </body>
            </html>
        "#
    );
    assert!(text_of(&files, "OEBPS/toc.xhtml").contains("The Start"));
}

#[test]
fn add_chapter_counts_the_chapters() {
    let mut document = Document::new("Title", "Author", "Description").unwrap();
    for i in 0..12 {
        assert_eq!(document.chapters(), i);
        assert_eq!(document.add_chapter(i, &chapter(i), "<p>text</p>"), Ok(()));
    }
    assert_eq!(document.chapters(), 12);
    let bytes = document.finalize().unwrap();
    let files = files(&bytes);
    let expected: Vec<String> = (0..12).map(|i| format!("OEBPS/chapter_{}.xhtml", i)).collect();
    assert_eq!(names(&files)[4..16], expected);
}

#[test]
fn the_parts_come_in_the_order_of_the_book() {
    let mut document = Document::new("Title", "Author", "Description").unwrap();
    document.set_cover(b"image bytes", "png").unwrap();
    document.add_chapter(0, &chapter(0), "<p>zero</p>").unwrap();
    document.add_chapter(1, &chapter(1), "<p>one</p>").unwrap();
    let bytes = document.finalize().unwrap();
    let files = files(&bytes);
    assert_eq!(
        names(&files)[3..8],
        [
            "OEBPS/stylesheet.css",
            "OEBPS/cover.png",
            "OEBPS/cover.xhtml",
            "OEBPS/chapter_0.xhtml",
            "OEBPS/chapter_1.xhtml",
        ]
    );
    let package = text_of(&files, "OEBPS/content.opf");
    let listed: Vec<usize> = ["cover.xhtml", "toc.xhtml", "chapter_0.xhtml", "chapter_1.xhtml"]
        .iter()
        .map(|name| package.find(&format!(r#"href="{}""#, name)).unwrap())
        .collect();
    assert!(listed.windows(2).all(|pair| pair[0] < pair[1]));
}

#[test]
fn three_chapters_end_to_end() {
    let landing = r#"<html><head>
<meta name="twitter:image" content="https://cdn.example.com/cover.png">
<meta name="twitter:creator" content="Author">
<meta name="twitter:title" content="Title">
<meta name="twitter:description" content="Description">
</head><body><table id="chapters"><tbody>
<tr><td><a href="/c/0">Zero</a></td></tr>
<tr><td><a href="/c/1">One</a></td></tr>
<tr><td><a href="/c/2">Two</a></td></tr>
</tbody></table></body></html>"#;
    let page = |i: usize| {
        format!(r#"<html><body><div class="chapter-content"><p>text {}</p></div></body></html>"#, i)
    };
    let mut fetches = 1;
    let story = parse_story(landing).unwrap();
    let mut document = Document::new(&story.title, &story.author, &story.description).unwrap();
    fetches += 1;
    document.set_cover(b"\x89PNG", "png").unwrap();

    let mut pipeline: Pipeline<Error> = Pipeline::new(story.chapters, 2).unwrap();
    let mut in_flight: Vec<usize> = vec![];
    let mut delivered: Vec<usize> = vec![];
    loop {
        match pipeline.poll() {
            Step::Fetch { index, link } => {
                assert_eq!(link, format!("/c/{}", index));
                fetches += 1;
                in_flight.push(index);
            }
            Step::Deliver(result) => {
                delivered.push(result.index);
                document.add_chapter(result.index, &result.chapter, &result.content).unwrap();
            }
            Step::Wait => {
                let at = in_flight.iter().position(|&index| index != 2).unwrap_or(0);
                let index = in_flight.remove(at);
                assert!(pipeline.complete(index, chapter_content(&page(index))));
            }
            Step::Finished => break,
            Step::Failed(_) | Step::Halted => panic!("the run failed"),
        }
    }
    assert_eq!(delivered, vec![0, 1, 2]);
    assert!(fetches <= 1 + 1 + 3);
    assert_eq!(document.chapters(), 3);
    let bytes = document.finalize().unwrap();
    let files = files(&bytes);
    assert_eq!(
        names(&files)[4..9],
        [
            "OEBPS/cover.png",
            "OEBPS/cover.xhtml",
            "OEBPS/chapter_0.xhtml",
            "OEBPS/chapter_1.xhtml",
            "OEBPS/chapter_2.xhtml",
        ]
    );
    for (i, name) in ["Zero", "One", "Two"].iter().enumerate() {
        let page = text_of(&files, &format!("OEBPS/chapter_{}.xhtml", i));
        assert!(page.contains(&format!("<title>{}</title>", name)));
        assert!(page.contains(&format!(
            r#"<div class="chapter-content"><p>text {}</p></div>"#,
            i
        )));
    }
}
