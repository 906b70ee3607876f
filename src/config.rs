//! Settings as a configuration file gives them.
use crate::fmt::ChangelogFormat;
use crate::link_style::LinkStyle;
use indexmap::IndexMap;
use vstd::prelude::*;

verus! {

/// The `[clog]` table of a configuration file.
#[derive(Debug, Clone)]
pub struct RawClogCfg {
    /// The file that is both read and written
    pub changelog: Option<String>,
    /// Whether to start at the latest tag
    pub from_latest_tag: bool,
    /// The repository used for the base of hyper-links
    pub repository: Option<String>,
    /// The file to read the old changelog from
    pub infile: Option<String>,
    /// The subtitle for the release
    pub subtitle: Option<String>,
    /// The file to write the changelog to
    pub outfile: Option<String>,
    /// The git metadata directory
    pub git_dir: Option<String>,
    /// The git working tree
    pub git_work_tree: Option<String>,
    /// The hyperlink style
    pub link_style: LinkStyle,
    /// The output format
    pub output_format: ChangelogFormat,
}

impl Default for RawClogCfg {
    fn default() -> (r: Self)
        ensures
            r.changelog is None,
            !r.from_latest_tag,
            r.repository is None,
            r.infile is None,
            r.subtitle is None,
            r.outfile is None,
            r.git_dir is None,
            r.git_work_tree is None,
            r.link_style == LinkStyle::Github,
            r.output_format == ChangelogFormat::Markdown,
    {
        RawClogCfg {
            changelog: None,
            from_latest_tag: false,
            repository: None,
            infile: None,
            subtitle: None,
            outfile: None,
            git_dir: None,
            git_work_tree: None,
            link_style: LinkStyle::Github,
            output_format: ChangelogFormat::Markdown,
        }
    }
}

/// A whole configuration file: the `[clog]` table and the alias tables.
#[derive(Debug, Clone)]
pub struct RawCfg {
    pub clog: RawClogCfg,
    /// Section name to aliases, in the file's order; empty where the file
    /// declares none
    pub sections: IndexMap<String, Vec<String>>,
    /// (component name, aliases) pairs
    pub components: Vec<(String, Vec<String>)>,
}

} // verus!
