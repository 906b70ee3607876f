//! The settings of a changelog run, and the classification of raw commits.
use crate::alias::{
    component_entries, component_position, first_with_alias, has_key, new_table, resolve_component_in,
    resolve_section_in, section_entries, section_position, table_entry, table_has_key, table_insert,
    unknown_section, AliasModel,
};
use crate::config::RawCfg;
use crate::fmt::ChangelogFormat;
use crate::git::{commits_view, Commit, CommitView};
use crate::link_style::LinkStyle;
use crate::message::{
    body_breaks, body_closes, directive_refs, has_directive, lines_of, match_subject, says_breaking,
    split_lines, stands_at, starts_with_at, subject_match, Keywords,
};
use crate::text::{
    chars_of, lemma_strs_concat, opt_str_view, opt_view, seqs_of, string_from, string_of, strs_of,
};
use indexmap::IndexMap;
use vstd::prelude::*;
use vstd::string::*;

verus! {

/// The options of a changelog run, and the alias tables that classify
/// commits.
#[derive(Debug, Clone)]
pub struct Clog {
    /// The repository used for the base of hyper-links
    pub repo: Option<String>,
    /// The link style used for commit and issue hyper-links
    pub link_style: LinkStyle,
    /// The file to use as the old changelog data to be appended to anything new
    /// found.
    pub infile: Option<String>,
    /// The subtitle for the release
    pub subtitle: Option<String>,
    /// The file to use as the changelog output file (Defaults to `stdout`)
    pub outfile: Option<String>,
    /// Maps out the sections and aliases used to trigger those sections. The
    /// keys are the section names, in render order, and the values are their
    /// aliases.
    pub section_map: IndexMap<String, Vec<String>>,
    /// Maps out the components and aliases used to trigger those components,
    /// as (component name, aliases) pairs.
    pub component_map: Vec<(String, Vec<String>)>,
    /// The git dir with all the meta-data (Typically the `.git` sub-directory
    /// of the project)
    pub git_dir: Option<String>,
    /// The format to output the changelog in (Defaults to Markdown)
    pub out_format: ChangelogFormat,
    /// The grep search pattern used to find commits we are interested in
    pub grep: String,
    /// The format of the commit output from `git log` (Defaults to:
    /// "%H%n%s%n%b%n==END==")
    pub format: String,
    /// The working directory of the git project (typically the project
    /// directory, or parent of the `.git` directory)
    pub git_work_tree: Option<String>,
    /// Where to start looking for commits using a hash (or short hash)
    pub from: Option<String>,
    /// Where to stop looking for commits using a hash (or short hash).
    /// (Defaults to `HEAD`)
    pub to: String,
    /// The version tag for the release
    pub version: Option<String>,
    /// Whether or not this is a patch version update. Patch versions use a
    /// lower markdown header (`###` instead of `##`)
    pub patch_ver: bool,
}

// ---------------------------------------------------------------------------
// Models
// ---------------------------------------------------------------------------

/// The sections a new `Clog` knows, in order.
pub open spec fn default_sections() -> AliasModel {
    seq![
        ("Features"@, seq!["ft"@, "feat"@]),
        ("Bug Fixes"@, seq!["fx"@, "fix"@]),
        ("Performance"@, seq!["perf"@]),
        ("Unknown"@, seq!["unk"@]),
        ("Breaking Changes"@, seq!["breaks"@]),
    ]
}

/// `^alias|` for each alias, in order.
pub open spec fn alias_prefixes(aliases: Seq<Seq<char>>) -> Seq<char>
    decreases aliases.len(),
{
    if aliases.len() == 0 {
        Seq::empty()
    } else {
        alias_prefixes(aliases.drop_last()) + "^"@ + aliases.last() + "|"@
    }
}

/// `^alias|` for each alias of each section, in table order.
pub open spec fn table_prefixes(t: AliasModel) -> Seq<char>
    decreases t.len(),
{
    if t.len() == 0 {
        Seq::empty()
    } else {
        table_prefixes(t.drop_last()) + alias_prefixes(t.last().1)
    }
}

/// The search pattern that finds the commits a section table can classify:
/// each alias at the start of a message, or the breaking-change marker.
pub open spec fn grep_for(t: AliasModel) -> Seq<char> {
    table_prefixes(t) + "BREAKING'"@
}

/// The lines of a raw block after the hash and the subject line.
pub open spec fn body_of(ls: Seq<Seq<char>>) -> Seq<Seq<char>> {
    if ls.len() > 2 {
        ls.subrange(2, ls.len() as int)
    } else {
        Seq::empty()
    }
}

/// The commit that a raw block describes, given the section table `st` and
/// the component table `ct`.
///
/// The first line is the hash. The second line, if it follows the
/// convention, gives the type token, the component tag and the subject;
/// otherwise the commit is `Unknown` and the subject and component are
/// empty. The
/// type token resolves to a section and the tag to a component. The lines
/// after those are scanned for closes and breaks references.
pub open spec fn parsed(st: AliasModel, ct: AliasModel, block: Seq<char>) -> CommitView {
    let ls = lines_of(block);
    let m = if ls.len() > 1 {
        subject_match(ls[1])
    } else {
        None
    };
    CommitView {
        hash: if ls.len() > 0 {
            ls[0]
        } else {
            Seq::empty()
        },
        subject: match m {
            Some(p) => p.2,
            None => Seq::empty(),
        },
        component: match m {
            Some(p) => match p.1 {
                Some(c) => resolve_component_in(ct, c),
                None => Seq::empty(),
            },
            None => Seq::empty(),
        },
        closes: body_closes(body_of(ls)),
        breaks: body_breaks(body_of(ls)),
        commit_type: match m {
            Some(p) => resolve_section_in(st, p.0),
            None => unknown_section(),
        },
    }
}

/// The line that separates raw commit blocks in the log text.
pub open spec fn block_delimiter() -> Seq<char> {
    seq!['\n', '=', '=', 'E', 'N', 'D', '=', '=', '\n']
}

/// The pieces of `s` from `start` on, cut at each delimiter found at or
/// after `i`.
pub open spec fn blocks_from(s: Seq<char>, start: int, i: int) -> Seq<Seq<char>>
    decreases s.len() - i,
{
    if i < start || start < 0 || i + block_delimiter().len() > s.len() {
        seq![s.subrange(start, s.len() as int)]
    } else if starts_with_at(s, i, block_delimiter()) {
        seq![s.subrange(start, i)] + blocks_from(
            s,
            i + block_delimiter().len(),
            i + block_delimiter().len(),
        )
    } else {
        blocks_from(s, start, i + 1)
    }
}

/// The raw blocks of a log text: the text cut at each delimiter line, empty
/// pieces included.
pub open spec fn log_blocks(s: Seq<char>) -> Seq<Seq<char>> {
    blocks_from(s, 0, 0)
}

/// The commits of `blocks` whose section is not `Unknown`, in order.
pub open spec fn known_commits(st: AliasModel, ct: AliasModel, blocks: Seq<Seq<char>>) -> Seq<
    CommitView,
>
    decreases blocks.len(),
{
    if blocks.len() == 0 {
        Seq::empty()
    } else {
        let rest = known_commits(st, ct, blocks.drop_last());
        let c = parsed(st, ct, blocks.last());
        if c.commit_type == "Unknown"@ {
            rest
        } else {
            rest.push(c)
        }
    }
}

proof fn lemma_first_with_alias(t: AliasModel, alias: Seq<char>, i: int)
    requires
        0 <= i,
    ensures
        first_with_alias(t, alias, i) == -1 || (i <= first_with_alias(t, alias, i) < t.len()
            && t[first_with_alias(t, alias, i)].1.contains(alias)),
    decreases t.len() - i,
{
    if i < t.len() && !t[i].1.contains(alias) {
        lemma_first_with_alias(t, alias, i + 1);
    }
}

// ---------------------------------------------------------------------------
// Building the settings
// ---------------------------------------------------------------------------

fn strings2(a: &str, b: &str) -> (r: Vec<String>)
    ensures
        strs_of(r@) == seq![a@, b@],
{
    let r = vec![a.to_owned(), b.to_owned()];
    assert(strs_of(r@) =~= seq![a@, b@]);
    r
}

fn strings1(a: &str) -> (r: Vec<String>)
    ensures
        strs_of(r@) == seq![a@],
{
    let r = vec![a.to_owned()];
    assert(strs_of(r@) =~= seq![a@]);
    r
}

/// The section table of a new `Clog`.
pub fn default_section_map() -> (r: IndexMap<String, Vec<String>>)
    ensures
        section_entries(r) == default_sections(),
{
    proof {
        reveal_strlit("Features");
        reveal_strlit("Bug Fixes");
        reveal_strlit("Performance");
        reveal_strlit("Unknown");
        reveal_strlit("Breaking Changes");
    }
    let ghost d = default_sections();
    let mut m = new_table();
    table_insert(&mut m, "Features".to_owned(), strings2("ft", "feat"));
    assert(section_entries(m) =~= d.subrange(0, 1));
    table_insert(&mut m, "Bug Fixes".to_owned(), strings2("fx", "fix"));
    assert("Features"@.len() == 8 && "Bug Fixes"@.len() == 9 && "Performance"@.len() == 11);
    assert("Unknown"@.len() == 7 && "Breaking Changes"@.len() == 16);
    assert(!has_key(d.subrange(0, 1), "Bug Fixes"@));
    assert(section_entries(m) =~= d.subrange(0, 2));
    table_insert(&mut m, "Performance".to_owned(), strings1("perf"));
    assert(!has_key(d.subrange(0, 2), "Performance"@));
    assert(section_entries(m) =~= d.subrange(0, 3));
    table_insert(&mut m, "Unknown".to_owned(), strings1("unk"));
    assert(!has_key(d.subrange(0, 3), "Unknown"@));
    assert(section_entries(m) =~= d.subrange(0, 4));
    table_insert(&mut m, "Breaking Changes".to_owned(), strings1("breaks"));
    assert(forall|k: int| 0 <= k < 4 ==> #[trigger] d[k].0.len() < 16);
    assert(!has_key(d.subrange(0, 4), "Breaking Changes"@));
    assert(section_entries(m) =~= d);
    m
}

/// The search pattern for the aliases of a section table.
pub fn grep_pattern(m: &IndexMap<String, Vec<String>>) -> (r: String)
    ensures
        r@ == grep_for(section_entries(*m)),
{
    let ghost t = section_entries(*m);
    let n = crate::alias::table_len(m);
    let mut r = String::new();
    let mut i: usize = 0;
    while i < n
        invariant
            i <= n,
            n == t.len(),
            t == section_entries(*m),
            r@ == table_prefixes(t.subrange(0, i as int)),
        decreases n - i,
    {
        assert(t.subrange(0, i + 1).drop_last() =~= t.subrange(0, i as int));
        match table_entry(m, i) {
            Some((_, aliases)) => {
                let ghost a = strs_of(aliases@);
                let ghost base = r@;
                let mut j: usize = 0;
                while j < aliases.len()
                    invariant
                        j <= aliases.len(),
                        a == strs_of(aliases@),
                        r@ == base + alias_prefixes(a.subrange(0, j as int)),
                    decreases aliases.len() - j,
                {
                    assert(a.subrange(0, j + 1).drop_last() =~= a.subrange(0, j as int));
                    r.append("^");
                    r.append(aliases[j].as_str());
                    r.append("|");
                    assert(r@ =~= base + alias_prefixes(a.subrange(0, j + 1)));
                    j = j + 1;
                }
                assert(a.subrange(0, aliases.len() as int) =~= a);
            },
            None => {},
        }
        i = i + 1;
    }
    assert(t.subrange(0, n as int) =~= t);
    r.append("BREAKING'");
    r
}

impl Clog {
    /// The model of the section table.
    pub open spec fn sections(&self) -> AliasModel {
        section_entries(self.section_map)
    }

    /// The model of the component table.
    pub open spec fn components(&self) -> AliasModel {
        component_entries(self.component_map@)
    }

    /// The commit that the raw block `block` describes under these tables.
    pub open spec fn parse_view(&self, block: Seq<char>) -> CommitView {
        parsed(self.sections(), self.components(), block)
    }

    /// The repository, as a string slice.
    pub fn repo_str(&self) -> (r: Option<&str>)
        ensures
            opt_str_view(r) == opt_view(self.repo),
    {
        match &self.repo {
            Some(s) => Some(s.as_str()),
            None => None,
        }
    }

    /// Retrieves the section title for a given alias: the first section in
    /// table order whose aliases hold it.
    pub fn section_for(&self, alias: &str) -> (r: Option<&str>)
        ensures
            match r {
                Some(s) => {
                    let i = first_with_alias(self.sections(), alias@, 0);
                    i >= 0 && s@ == self.sections()[i].0
                },
                None => first_with_alias(self.sections(), alias@, 0) == -1,
            },
    {
        let key = alias.to_owned();
        match section_position(&self.section_map, &key) {
            Some(i) => {
                proof {
                    lemma_first_with_alias(self.sections(), alias@, 0);
                }
                match table_entry(&self.section_map, i) {
                    Some((k, _)) => Some(k.as_str()),
                    None => None,
                }
            },
            None => None,
        }
    }

    /// The canonical section of a raw type token; `Unknown` where no section
    /// claims it.
    pub fn resolve_section(&self, token: &str) -> (r: String)
        ensures
            r@ == resolve_section_in(self.sections(), token@),
    {
        match self.section_for(token) {
            Some(s) => s.to_owned(),
            None => "Unknown".to_owned(),
        }
    }

    /// Retrieves the full component name for a given alias (if one is
    /// defined): the first component in table order whose aliases hold it.
    pub fn component_for(&self, alias: &str) -> (r: Option<&String>)
        ensures
            match r {
                Some(s) => {
                    let i = first_with_alias(self.components(), alias@, 0);
                    i >= 0 && s@ == self.components()[i].0
                },
                None => first_with_alias(self.components(), alias@, 0) == -1,
            },
    {
        let key = alias.to_owned();
        match component_position(&self.component_map, &key) {
            Some(i) => Some(&self.component_map[i].0),
            None => None,
        }
    }

    /// The canonical component of a raw component tag; the tag itself where
    /// no component claims it.
    pub fn resolve_component(&self, tag: &str) -> (r: String)
        ensures
            r@ == resolve_component_in(self.components(), tag@),
    {
        match self.component_for(tag) {
            Some(s) => s.clone(),
            None => tag.to_owned(),
        }
    }

    /// Parses one raw commit block (hash line, subject line, body lines)
    /// into a classified commit. This never fails: a block that follows no
    /// convention gives an `Unknown` commit.
    pub fn parse_raw_commit(&self, commit_str: &str) -> (r: Result<Commit, crate::error::Error>)
        ensures
            r matches Ok(c) && c@ == self.parse_view(commit_str@),
    {
        let text = chars_of(commit_str);
        let lines = split_lines(&text);
        let ghost ls = seqs_of(lines@);
        proof {
            assert(ls.len() == lines@.len());
            assert(forall|k: int| 0 <= k < ls.len() ==> ls[k] == #[trigger] lines@[k]@);
        }
        let hash = if lines.len() > 0 {
            string_from(&lines[0])
        } else {
            String::new()
        };
        let parts = if lines.len() > 1 {
            match_subject(&lines[1])
        } else {
            None
        };
        let (subject, component, commit_type) = match parts {
            Some(p) => {
                let component = match p.component {
                    Some(c) => self.resolve_component(c.as_str()),
                    None => String::new(),
                };
                let commit_type = self.resolve_section(p.kind.as_str());
                (p.subject, component, commit_type)
            },
            None => (String::new(), String::new(), "Unknown".to_owned()),
        };
        let closes_kw = Keywords::closes();
        let breaks_kw = Keywords::breaks();
        let mut closes: Vec<String> = Vec::new();
        let mut breaks: Vec<String> = Vec::new();
        if lines.len() > 2 {
            let mut i: usize = 2;
            while i < lines.len()
                invariant
                    2 <= i <= lines.len(),
                    ls == seqs_of(lines@),
                    closes_kw.view() == crate::message::closes_keywords(),
                    breaks_kw.view() == crate::message::breaks_keywords(),
                    strs_of(closes@) == body_closes(ls.subrange(2, i as int)),
                    strs_of(breaks@) == body_breaks(ls.subrange(2, i as int)),
                decreases lines.len() - i,
            {
                let ghost body = ls.subrange(2, i + 1);
                assert(body.drop_last() =~= ls.subrange(2, i as int));
                assert(body.last() == lines@[i as int]@);
                let ghost old_closes = closes@;
                let mut found = directive_refs(&lines[i], &closes_kw);
                let ghost found_view = found@;
                closes.append(&mut found);
                proof {
                    lemma_strs_concat(old_closes, found_view);
                }
                let ghost old_breaks = breaks@;
                if has_directive(&lines[i], &breaks_kw) {
                    let mut named = directive_refs(&lines[i], &breaks_kw);
                    let ghost named_view = named@;
                    breaks.append(&mut named);
                    proof {
                        lemma_strs_concat(old_breaks, named_view);
                    }
                } else if says_breaking(&lines[i]) {
                    breaks.push(String::new());
                    assert(strs_of(breaks@) =~= strs_of(old_breaks).push(Seq::<char>::empty()));
                } else {
                    assert(strs_of(breaks@) =~= strs_of(old_breaks) + Seq::<Seq<char>>::empty());
                }
                i = i + 1;
            }
            assert(ls.subrange(2, lines.len() as int) == crate::clog::body_of(ls));
        } else {
            assert(strs_of(closes@) =~= Seq::<Seq<char>>::empty());
            assert(strs_of(breaks@) =~= Seq::<Seq<char>>::empty());
        }
        Ok(Commit { hash, subject, component, closes, breaks, commit_type })
    }

    /// Cuts a log text into raw blocks at each delimiter line.
    pub fn split_log(log: &str) -> (r: Vec<String>)
        ensures
            strs_of(r@) == log_blocks(log@),
    {
        proof {
            reveal_strlit("\n==END==\n");
        }
        let s = chars_of(log);
        let delim = chars_of("\n==END==\n");
        assert(delim@ =~= block_delimiter());
        let mut out: Vec<String> = Vec::new();
        let mut start: usize = 0;
        let mut i: usize = 0;
        while i <= s.len() && s.len() - i >= 9
            invariant
                start <= i <= s.len(),
                delim@ == block_delimiter(),
                log_blocks(s@) == strs_of(out@) + blocks_from(s@, start as int, i as int),
            decreases s.len() - i,
        {
            if stands_at(&s, i, &delim) {
                let piece = string_of(&s, start, i);
                let ghost before = out@;
                out.push(piece);
                assert(strs_of(out@) =~= strs_of(before).push(piece@));
                assert(strs_of(before) + blocks_from(s@, start as int, i as int) =~= strs_of(out@)
                    + blocks_from(s@, i + 9, i + 9));
                start = i + 9;
                i = i + 9;
            } else {
                i = i + 1;
            }
        }
        let last = string_of(&s, start, s.len());
        let ghost before = out@;
        out.push(last);
        assert(strs_of(out@) =~= strs_of(before).push(last@));
        assert(strs_of(before) + blocks_from(s@, start as int, i as int) =~= strs_of(out@));
        out
    }

    /// The classified commits of a log text, in order, without those whose
    /// section is `Unknown`.
    pub fn commits_from_log(&self, log: &str) -> (r: Vec<Commit>)
        ensures
            commits_view(r@) == known_commits(self.sections(), self.components(), log_blocks(log@)),
    {
        let blocks = Clog::split_log(log);
        let ghost b = strs_of(blocks@);
        let unknown = "Unknown".to_owned();
        let mut out: Vec<Commit> = Vec::new();
        let mut i: usize = 0;
        while i < blocks.len()
            invariant
                i <= blocks.len(),
                b == strs_of(blocks@),
                unknown@ == "Unknown"@,
                commits_view(out@) == known_commits(
                    self.sections(),
                    self.components(),
                    b.subrange(0, i as int),
                ),
            decreases blocks.len() - i,
        {
            assert(b.subrange(0, i + 1).drop_last() =~= b.subrange(0, i as int));
            assert(b.subrange(0, i + 1).last() == blocks@[i as int]@);
            let parsed = self.parse_raw_commit(blocks[i].as_str());
            match parsed {
                Ok(c) => {
                    if c.commit_type != unknown {
                        let ghost before = out@;
                        out.push(c);
                        assert(commits_view(out@) =~= commits_view(before).push(c@));
                    }
                },
                Err(_) => {},
            }
            i = i + 1;
        }
        assert(b.subrange(0, blocks.len() as int) =~= b);
        out
    }
}

/// A table with the reserved `Unknown` section: as it is if it has one,
/// else with `Unknown` (alias `unk`) added last.
pub open spec fn with_unknown(t: AliasModel) -> AliasModel {
    if has_key(t, unknown_section()) {
        t
    } else {
        t.push((unknown_section(), seq!["unk"@]))
    }
}

/// `changelog`, or else `other`.
pub open spec fn either(changelog: Option<String>, other: Option<String>) -> Option<String> {
    match changelog {
        Some(c) => Some(c),
        None => other,
    }
}

impl Clog {
    /// The settings that a configuration file gives: its alias tables (the
    /// default sections where it declares none), hyperlink and output
    /// settings, and files; `changelog` names both the file read and the file
    /// written. The search pattern is made from the section table.
    pub fn from_raw(cfg: RawCfg) -> (r: Clog)
        ensures
            r.sections() == if section_entries(cfg.sections).len() == 0 {
                default_sections()
            } else {
                with_unknown(section_entries(cfg.sections))
            },
            has_key(r.sections(), unknown_section()),
            r.component_map == cfg.components,
            r.grep@ == grep_for(r.sections()),
            r.repo == cfg.clog.repository,
            r.link_style == cfg.clog.link_style,
            r.subtitle == cfg.clog.subtitle,
            opt_view(r.infile) == opt_view(either(cfg.clog.changelog, cfg.clog.infile)),
            r.outfile == either(cfg.clog.changelog, cfg.clog.outfile),
            r.out_format == cfg.clog.output_format,
            r.git_dir == cfg.clog.git_dir,
            r.git_work_tree == cfg.clog.git_work_tree,
            r.format@ == "%H%n%s%n%b%n==END=="@,
            r.to@ == "HEAD"@,
            r.from is None,
            r.version is None,
            !r.patch_ver,
    {
        let sections = if crate::alias::table_len(&cfg.sections) == 0 {
            let d = default_section_map();
            assert(default_sections()[3].0 == unknown_section());
            d
        } else {
            let mut m = cfg.sections;
            let unknown = "Unknown".to_owned();
            if !table_has_key(&m, &unknown) {
                table_insert(&mut m, unknown, strings1("unk"));
                assert(section_entries(m)[section_entries(m).len() - 1].0 == unknown_section());
            }
            m
        };
        let grep = grep_pattern(&sections);
        let clog = cfg.clog;
        let infile = match &clog.changelog {
            Some(c) => Some(c.clone()),
            None => clog.infile,
        };
        let outfile = match clog.changelog {
            Some(c) => Some(c),
            None => clog.outfile,
        };
        Clog {
            repo: clog.repository,
            link_style: clog.link_style,
            infile,
            subtitle: clog.subtitle,
            outfile,
            section_map: sections,
            component_map: cfg.components,
            git_dir: clog.git_dir,
            out_format: clog.output_format,
            grep,
            format: "%H%n%s%n%b%n==END==".to_owned(),
            git_work_tree: clog.git_work_tree,
            from: None,
            to: "HEAD".to_owned(),
            version: None,
            patch_ver: false,
        }
    }

    /// Sets the grep search pattern for finding commits.
    pub fn grep(self, g: &str) -> (r: Clog)
        ensures
            r.grep@ == g@,
            r == (Clog { grep: r.grep, ..self }),
    {
        Clog { grep: g.to_owned(), ..self }
    }

    /// Sets the format for `git log` output.
    pub fn format(self, f: &str) -> (r: Clog)
        ensures
            r.format@ == f@,
            r == (Clog { format: r.format, ..self }),
    {
        Clog { format: f.to_owned(), ..self }
    }

    /// Sets the repository used for the base of hyper-links (without a
    /// trailing `.git`).
    pub fn repository(self, repo: &str) -> (r: Clog)
        ensures
            opt_view(r.repo) == Some(repo@),
            r == (Clog { repo: r.repo, ..self }),
    {
        Clog { repo: Some(repo.to_owned()), ..self }
    }

    /// Sets the link style to use for hyper-links.
    pub fn link_style(self, l: LinkStyle) -> (r: Clog)
        ensures
            r == (Clog { link_style: l, ..self }),
    {
        Clog { link_style: l, ..self }
    }

    /// Sets the version for the release.
    pub fn version(self, v: &str) -> (r: Clog)
        ensures
            opt_view(r.version) == Some(v@),
            r == (Clog { version: r.version, ..self }),
    {
        Clog { version: Some(v.to_owned()), ..self }
    }

    /// Sets the subtitle for the release.
    pub fn subtitle(self, s: &str) -> (r: Clog)
        ensures
            opt_view(r.subtitle) == Some(s@),
            r == (Clog { subtitle: r.subtitle, ..self }),
    {
        Clog { subtitle: Some(s.to_owned()), ..self }
    }

    /// Sets where to begin searching commits, by short or full hash.
    pub fn from(self, f: &str) -> (r: Clog)
        ensures
            opt_view(r.from) == Some(f@),
            r == (Clog { from: r.from, ..self }),
    {
        Clog { from: Some(f.to_owned()), ..self }
    }

    /// Sets where to stop searching commits, by short or full hash.
    pub fn to(self, t: &str) -> (r: Clog)
        ensures
            r.to@ == t@,
            r == (Clog { to: r.to, ..self }),
    {
        Clog { to: t.to_owned(), ..self }
    }

    /// Sets the changelog file both to read and to write.
    pub fn changelog(self, c: &str) -> (r: Clog)
        ensures
            opt_view(r.infile) == Some(c@),
            opt_view(r.outfile) == Some(c@),
            r == (Clog { infile: r.infile, outfile: r.outfile, ..self }),
    {
        Clog { infile: Some(c.to_owned()), outfile: Some(c.to_owned()), ..self }
    }

    /// Sets the changelog file to write.
    pub fn outfile(self, c: &str) -> (r: Clog)
        ensures
            opt_view(r.outfile) == Some(c@),
            r == (Clog { outfile: r.outfile, ..self }),
    {
        Clog { outfile: Some(c.to_owned()), ..self }
    }

    /// Sets the changelog file to read the previous changelog from.
    pub fn infile(self, c: &str) -> (r: Clog)
        ensures
            opt_view(r.infile) == Some(c@),
            r == (Clog { infile: r.infile, ..self }),
    {
        Clog { infile: Some(c.to_owned()), ..self }
    }

    /// Sets the git metadata directory.
    pub fn git_dir(self, d: &str) -> (r: Clog)
        ensures
            opt_view(r.git_dir) == Some(d@),
            r == (Clog { git_dir: r.git_dir, ..self }),
    {
        Clog { git_dir: Some(d.to_owned()), ..self }
    }

    /// Sets the git working tree directory.
    pub fn git_work_tree(self, d: &str) -> (r: Clog)
        ensures
            opt_view(r.git_work_tree) == Some(d@),
            r == (Clog { git_work_tree: r.git_work_tree, ..self }),
    {
        Clog { git_work_tree: Some(d.to_owned()), ..self }
    }

    /// Sets whether this is a patch release.
    pub fn patch_ver(self, p: bool) -> (r: Clog)
        ensures
            r == (Clog { patch_ver: p, ..self }),
    {
        Clog { patch_ver: p, ..self }
    }

    /// Sets the output format.
    pub fn output_format(self, f: ChangelogFormat) -> (r: Clog)
        ensures
            r == (Clog { out_format: f, ..self }),
    {
        Clog { out_format: f, ..self }
    }
}

impl Default for Clog {
    fn default() -> (r: Self)
        ensures
            r.sections() == default_sections(),
            r.components() == Seq::<(Seq<char>, Seq<Seq<char>>)>::empty(),
            r.grep@ == grep_for(default_sections()),
            r.format@ == "%H%n%s%n%b%n==END=="@,
            r.to@ == "HEAD"@,
            r.repo is None,
            r.link_style == LinkStyle::Github,
            r.version is None,
            r.patch_ver == false,
            r.subtitle is None,
            r.from is None,
            r.infile is None,
            r.outfile is None,
            r.out_format == ChangelogFormat::Markdown,
            r.git_dir is None,
            r.git_work_tree is None,
    {
        let sections = default_section_map();
        let grep = grep_pattern(&sections);
        let component_map: Vec<(String, Vec<String>)> = Vec::new();
        assert(component_entries(component_map@) =~= Seq::<(Seq<char>, Seq<Seq<char>>)>::empty());
        Clog {
            grep,
            format: "%H%n%s%n%b%n==END==".to_owned(),
            repo: None,
            link_style: LinkStyle::Github,
            version: None,
            patch_ver: false,
            subtitle: None,
            from: None,
            to: "HEAD".to_owned(),
            infile: None,
            outfile: None,
            section_map: sections,
            component_map,
            out_format: ChangelogFormat::Markdown,
            git_dir: None,
            git_work_tree: None,
        }
    }
}


/// A block whose second line is `type(component):subject` gives a commit
/// with exactly that subject, the section that `type` resolves to, and the
/// component that `component` resolves to.
pub proof fn lemma_conventional_block(
    st: AliasModel,
    ct: AliasModel,
    block: Seq<char>,
    kind: Seq<char>,
    component: Seq<char>,
    subject: Seq<char>,
)
    requires
        lines_of(block).len() > 1,
        lines_of(block)[1] == kind + seq!['('] + component + seq![')', ':'] + subject,
        kind.len() > 0,
        forall|i: int| 0 <= i < kind.len() ==> kind[i] != ':' && kind[i] != '(',
        forall|i: int| 0 <= i < component.len() ==> component[i] != ')',
    ensures
        parsed(st, ct, block).subject == subject,
        parsed(st, ct, block).commit_type == resolve_section_in(st, kind),
        parsed(st, ct, block).component == resolve_component_in(ct, component),
{
    crate::message::lemma_subject_round_trip(kind, component, subject);
}

/// A block whose second line follows no convention, or that has no second
/// line, gives an `Unknown` commit with an empty subject and component,
/// whatever the tables.
pub proof fn lemma_unconventional_block(st: AliasModel, ct: AliasModel, block: Seq<char>)
    requires
        lines_of(block).len() < 2 || subject_match(lines_of(block)[1]) is None,
    ensures
        parsed(st, ct, block).commit_type == "Unknown"@,
        parsed(st, ct, block).component == Seq::<char>::empty(),
        parsed(st, ct, block).subject == Seq::<char>::empty(),
{
}

} // verus!
