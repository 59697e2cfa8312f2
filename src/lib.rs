//! Markdown documents to an EPUB 3 book: table of contents, package
//! description and the zip container, with their contracts proved.
pub mod archive;
pub mod builder;
pub mod convert;
pub mod error;
pub mod package;
pub mod sources;
pub mod text;
pub mod toc;
