//! The text pipeline of a novel downloader: a Markdown document with a
//! metadata header is split into header and body, and the body is parsed into
//! events whose text runs are rewritten by a script conversion.

pub mod bytes;
pub mod cmd;
pub mod events;
pub mod front_matter;
pub mod outside;
pub mod utils;
