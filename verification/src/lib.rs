//! Turns a serialized web novel into an e-book: reads the story's landing
//! page, orders the chapter fetches under a concurrency limit, and assembles
//! the chapters, in order, into an EPUB.
//!
//! The library does no input or output. Its caller fetches the pages and
//! writes the book; the library says which address to fetch, what a response
//! is worth, what a page holds, which chapter comes next, and what goes into
//! the book.

pub mod error;
pub mod text;
pub mod markup;
pub mod locator;
pub mod fetcher;
pub mod story;
pub mod cover;
pub mod pipeline;
pub mod document;
