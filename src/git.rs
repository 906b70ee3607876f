//! The commit record that classification produces.
use crate::text::{copy_string, copy_strings, strs_of};
use vstd::prelude::*;

verus! {

/// A classified commit.
#[derive(Debug, Clone)]
pub struct Commit {
    /// The full hash
    pub hash: String,
    /// The commit subject
    pub subject: String,
    /// The canonical component, or empty if none
    pub component: String,
    /// Any issues this commit closes
    pub closes: Vec<String>,
    /// Any issues this commit breaks; an empty entry stands for a breaking
    /// change that names no issue
    pub breaks: Vec<String>,
    /// The canonical section name
    pub commit_type: String,
}

/// A convenience type for multiple commits
pub type Commits = Vec<Commit>;

/// The model of a commit: every field as characters.
#[verifier::ext_equal]
pub struct CommitView {
    pub hash: Seq<char>,
    pub subject: Seq<char>,
    pub component: Seq<char>,
    pub closes: Seq<Seq<char>>,
    pub breaks: Seq<Seq<char>>,
    pub commit_type: Seq<char>,
}

impl View for Commit {
    type V = CommitView;

    open spec fn view(&self) -> CommitView {
        CommitView {
            hash: self.hash@,
            subject: self.subject@,
            component: self.component@,
            closes: strs_of(self.closes@),
            breaks: strs_of(self.breaks@),
            commit_type: self.commit_type@,
        }
    }
}

/// The models of a sequence of commits.
pub open spec fn commits_view(v: Seq<Commit>) -> Seq<CommitView> {
    v.map_values(|c: Commit| c@)
}

impl Commit {
    /// A copy of this commit.
    pub fn duplicate(&self) -> (r: Commit)
        ensures
            r@ == self@,
    {
        Commit {
            hash: copy_string(&self.hash),
            subject: copy_string(&self.subject),
            component: copy_string(&self.component),
            closes: copy_strings(&self.closes),
            breaks: copy_strings(&self.breaks),
            commit_type: copy_string(&self.commit_type),
        }
    }
}

} // verus!
