//! A reader's model of a long plain-text document: chapters cut out of the
//! line buffer, bookmarks derived from marker glyphs, and the three-pane
//! cursor state machine that navigates them.
//!
//! - [`text`]: white space, trimming, numerals and lines over `Seq<char>`.
//! - [`encoding`]: the text of a file's bytes.
//! - [`chapter`]: header lines, titles and the segmentation into chapters.
//! - [`bookmark`]: the bookmark index and the edit that toggles a marker.
//! - [`document`]: the line buffer with its chapters and bookmarks.
//! - [`cursor`]: the selections of the three panes and their transitions.
//! - [`app`]: the reader, its commands and its startup jumps.
//! - [`display`]: what the panes show, as text.
//! - [`args`]: what the reader is started with.

pub mod app;
pub mod args;
pub mod bookmark;
pub mod chapter;
pub mod cursor;
pub mod display;
pub mod document;
pub mod encoding;
pub mod text;
