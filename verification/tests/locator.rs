use rustyroad::error::Error;
use rustyroad::locator::chapter_url;
use rustyroad::locator::address_path;
use rustyroad::locator::resolve;

#[test]
fn chapter_url_resolves_a_relative_link() {
    assert_eq!(
        chapter_url("/fiction/1/a-story/chapter/10/one"),
        Ok("https://www.royalroad.com/fiction/1/a-story/chapter/10/one".to_string())
    );
    assert_eq!(chapter_url("x y"), Ok("https://www.royalroad.com/x%20y".to_string()));
}

#[test]
fn chapter_url_keeps_an_absolute_link() {
    assert_eq!(
        chapter_url("https://other.example.com/a/b?c=d"),
        Ok("https://other.example.com/a/b?c=d".to_string())
    );
    assert_eq!(chapter_url("//other.example.com/a"), Ok("https://other.example.com/a".to_string()));
}

#[test]
fn chapter_url_of_an_empty_link_is_the_site() {
    assert_eq!(chapter_url(""), Ok("https://www.royalroad.com/".to_string()));
}

#[test]
fn chapter_url_refuses_what_does_not_join() {
    assert_eq!(chapter_url("https://exa mple.com/"), Err(Error::InvalidUrl));
    assert_eq!(chapter_url("http://[::1"), Err(Error::InvalidUrl));
}

#[test]
fn resolve_needs_an_absolute_base() {
    assert_eq!(resolve("not a url", "/a"), Err(Error::InvalidUrl));
    assert_eq!(
        resolve("https://example.com/a/b", "c"),
        Ok("https://example.com/a/c".to_string())
    );
}

#[test]
fn path_is_the_path_of_the_address() {
    assert_eq!(address_path("https://example.com/a/b.png?c=d.e"), Ok("/a/b.png".to_string()));
    assert_eq!(address_path("https://example.com"), Ok("/".to_string()));
    assert_eq!(address_path("a/b.png"), Err(Error::InvalidUrl));
}
