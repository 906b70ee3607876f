//! Changelog generation from conventional commit messages.
//!
//! The library classifies raw commit records into sections and components,
//! groups them, and renders the grouping as Markdown or JSON text.
pub mod alias;
pub mod clog;
pub mod config;
pub mod error;
pub mod fmt;
pub mod git;
pub mod link_style;
pub mod message;
pub mod sectionmap;
pub mod text;

pub use crate::clog::Clog;
pub use crate::link_style::LinkStyle;
