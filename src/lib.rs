//! Turns the per-video JSON listing of a media-metadata extraction tool into
//! an RSS feed: the tool's command line, line-by-line record parsing, field
//! trimming and lookup, date normalisation, feed assembly and rendering.
pub mod date;
pub mod feed;
pub mod record;
pub mod text;
pub mod tool;
