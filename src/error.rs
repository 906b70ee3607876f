//! Errors that the library reports.
use vstd::prelude::*;

verus! {

/// An error met while reading settings or commits.
#[derive(Debug, Clone, PartialEq, Eq)]
pub enum Error {
    /// A link-style name that names no link style.
    LinkStyle,
    /// An output-format name that names no format.
    ChangelogFormat(String),
}

} // verus!
