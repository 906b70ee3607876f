//! The Markdown form of a changelog.
use super::{date_text, FormatWriter, ReleaseDate};
use crate::alias::{section_entries, table_entry, table_len, AliasModel};
use crate::clog::Clog;
use crate::git::{commits_view, Commit, CommitView};
use crate::link_style::{commit_link_view, issue_link_view, short_hash, short_hash_of, LinkStyle};
use crate::sectionmap::{components_view, first_key, grouping_view, grouping_wf, ComponentMap, ComponentsModel, GroupingModel, SectionMap};
use crate::text::{opt_str_view, opt_view, strs_of};
use vstd::prelude::*;
use vstd::string::*;

verus! {

/// Collects a changelog in Markdown form.
pub struct MarkdownWriter(pub String);

impl View for MarkdownWriter {
    type V = Seq<char>;

    open spec fn view(&self) -> Seq<char> {
        self.0@
    }
}

/// The text of an optional string, or nothing.
pub open spec fn or_empty(o: Option<Seq<char>>) -> Seq<char> {
    match o {
        Some(s) => s,
        None => Seq::empty(),
    }
}

/// The release header: an anchor, the version and subtitle under a level-2
/// heading (level 3 for a patch release), and the date.
pub open spec fn md_header(version: Seq<char>, subtitle: Seq<char>, patch: bool, date: Seq<char>) -> Seq<
    char,
> {
    "<a name=\""@ + version + "\"></a>\n"@ + (if patch {
        "### "@
    } else {
        "## "@
    }) + version + " "@ + subtitle + " ("@ + date + ")\n\n"@
}

/// One issue reference as a link.
pub open spec fn md_ref(style: LinkStyle, issue: Seq<char>, repo: Option<Seq<char>>) -> Seq<char> {
    "[#"@ + issue + "]("@ + issue_link_view(style, issue, repo) + ")"@
}

/// Issue references as links, joined by ", ".
pub open spec fn md_refs(style: LinkStyle, refs: Seq<Seq<char>>, repo: Option<Seq<char>>) -> Seq<
    char,
>
    decreases refs.len(),
{
    if refs.len() == 0 {
        Seq::empty()
    } else if refs.len() == 1 {
        md_ref(style, refs[0], repo)
    } else {
        md_refs(style, refs.drop_last(), repo) + ", "@ + md_ref(style, refs.last(), repo)
    }
}

/// The references that name an issue, in order: the empty reference of a
/// breaking change that names no issue is left out.
pub open spec fn named_refs(refs: Seq<Seq<char>>) -> Seq<Seq<char>>
    decreases refs.len(),
{
    if refs.len() == 0 {
        Seq::empty()
    } else if refs.last().len() > 0 {
        named_refs(refs.drop_last()).push(refs.last())
    } else {
        named_refs(refs.drop_last())
    }
}

/// One commit's line: the prefix, the subject, the short hash linked to the
/// commit, then the issues it closes and those it breaks; empty references
/// are not shown.
pub open spec fn md_entry(style: LinkStyle, repo: Option<Seq<char>>, prefix: Seq<char>, e: CommitView) -> Seq<
    char,
> {
    prefix + " "@ + e.subject + " (["@ + short_hash(e.hash) + "]("@ + commit_link_view(
        style,
        e.hash,
        repo,
    ) + ")"@ + (if e.closes.len() > 0 {
        ", closes "@ + md_refs(style, e.closes, repo)
    } else {
        Seq::empty()
    }) + (if named_refs(e.breaks).len() > 0 {
        ", breaks "@ + md_refs(style, named_refs(e.breaks), repo)
    } else {
        Seq::empty()
    }) + ")\n"@
}

/// The lines of several commits.
pub open spec fn md_entries(
    style: LinkStyle,
    repo: Option<Seq<char>>,
    prefix: Seq<char>,
    es: Seq<CommitView>,
) -> Seq<char>
    decreases es.len(),
{
    if es.len() == 0 {
        Seq::empty()
    } else {
        md_entries(style, repo, prefix, es.drop_last()) + md_entry(style, repo, prefix, es.last())
    }
}

/// A component of several commits is listed as a heading item with the
/// commits nested under it; otherwise each commit's line names the
/// component.
pub open spec fn md_nested(name: Seq<char>, es: Seq<CommitView>) -> bool {
    es.len() > 1 && name.len() > 0
}

/// The prefix of each commit line of a component.
pub open spec fn md_prefix(name: Seq<char>, es: Seq<CommitView>) -> Seq<char> {
    if md_nested(name, es) {
        "  *"@
    } else if name.len() > 0 {
        "* **"@ + name + ":**"@
    } else {
        "* "@
    }
}

/// One component of a section.
pub open spec fn md_component(
    style: LinkStyle,
    repo: Option<Seq<char>>,
    name: Seq<char>,
    es: Seq<CommitView>,
) -> Seq<char> {
    (if md_nested(name, es) {
        "* **"@ + name + ":**\n"@
    } else {
        Seq::empty()
    }) + md_entries(style, repo, md_prefix(name, es), es)
}

/// The components of a section, in order.
pub open spec fn md_components(style: LinkStyle, repo: Option<Seq<char>>, cs: ComponentsModel) -> Seq<
    char,
>
    decreases cs.len(),
{
    if cs.len() == 0 {
        Seq::empty()
    } else {
        md_components(style, repo, cs.drop_last()) + md_component(
            style,
            repo,
            cs.last().0,
            cs.last().1,
        )
    }
}

/// A section: its title as a level-4 heading, then its components; nothing
/// for a section without components.
pub open spec fn md_section(
    style: LinkStyle,
    repo: Option<Seq<char>>,
    title: Seq<char>,
    cs: ComponentsModel,
) -> Seq<char> {
    if cs.len() == 0 {
        Seq::empty()
    } else {
        "\n#### "@ + title + "\n\n"@ + md_components(style, repo, cs)
    }
}

/// The sections of the table `t`, in table order, each that the grouping
/// `m` holds.
pub open spec fn md_sections(
    style: LinkStyle,
    repo: Option<Seq<char>>,
    t: AliasModel,
    m: GroupingModel,
) -> Seq<char>
    decreases t.len(),
{
    if t.len() == 0 {
        Seq::empty()
    } else {
        let i = first_key(m, t.last().0, 0);
        md_sections(style, repo, t.drop_last(), m) + if i >= 0 {
            md_section(style, repo, t.last().0, m[i].1)
        } else {
            Seq::empty()
        }
    }
}

/// The whole Markdown changelog of a release.
pub open spec fn md_changelog(o: Clog, m: GroupingModel, date: ReleaseDate) -> Seq<char> {
    md_header(or_empty(opt_view(o.version)), or_empty(opt_view(o.subtitle)), o.patch_ver, date_text(date))
        + md_sections(o.link_style, opt_view(o.repo), section_entries(o.section_map), m)
}

fn header_text(version: &str, subtitle: &str, patch: bool, date: &str) -> (r: String)
    ensures
        r@ == md_header(version@, subtitle@, patch, date@),
{
    let mut r = "<a name=\"".to_owned();
    r.append(version);
    r.append("\"></a>\n");
    if patch {
        r.append("### ");
    } else {
        r.append("## ");
    }
    r.append(version);
    r.append(" ");
    r.append(subtitle);
    r.append(" (");
    r.append(date);
    r.append(")\n\n");
    assert(r@ =~= md_header(version@, subtitle@, patch, date@));
    r
}

fn refs_text(style: LinkStyle, refs: &Vec<String>, repo: Option<&str>) -> (r: String)
    ensures
        r@ == md_refs(style, strs_of(refs@), opt_str_view(repo)),
{
    let ghost rs = strs_of(refs@);
    let ghost rp = opt_str_view(repo);
    let mut r = String::new();
    let mut i: usize = 0;
    while i < refs.len()
        invariant
            i <= refs.len(),
            rs == strs_of(refs@),
            rp == opt_str_view(repo),
            r@ == md_refs(style, rs.subrange(0, i as int), rp),
        decreases refs.len() - i,
    {
        let ghost before = r@;
        assert(rs.subrange(0, i + 1).drop_last() =~= rs.subrange(0, i as int));
        if i > 0 {
            r.append(", ");
        }
        let issue = refs[i].as_str();
        let link = style.issue_link(issue, repo);
        r.append("[#");
        r.append(issue);
        r.append("](");
        r.append(link.as_str());
        r.append(")");
        if i == 0 {
            assert(r@ =~= md_refs(style, rs.subrange(0, 1), rp));
        } else {
            assert(r@ =~= before + ", "@ + md_ref(style, rs[i as int], rp));
        }
        i = i + 1;
    }
    assert(rs.subrange(0, refs.len() as int) =~= rs);
    r
}

fn named_only(refs: &Vec<String>) -> (r: Vec<String>)
    ensures
        strs_of(r@) == named_refs(strs_of(refs@)),
{
    let ghost rs = strs_of(refs@);
    let mut r: Vec<String> = Vec::new();
    let mut i: usize = 0;
    while i < refs.len()
        invariant
            i <= refs.len(),
            rs == strs_of(refs@),
            strs_of(r@) == named_refs(rs.subrange(0, i as int)),
        decreases refs.len() - i,
    {
        assert(rs.subrange(0, i + 1).drop_last() =~= rs.subrange(0, i as int));
        assert(rs[i as int] == refs@[i as int]@);
        if !refs[i].as_str().is_empty() {
            let ghost before = r@;
            r.push(refs[i].clone());
            assert(strs_of(r@) =~= strs_of(before).push(rs[i as int]));
        }
        i = i + 1;
    }
    assert(rs.subrange(0, refs.len() as int) =~= rs);
    r
}

fn entry_text(style: LinkStyle, repo: Option<&str>, prefix: &str, e: &Commit) -> (r: String)
    ensures
        r@ == md_entry(style, opt_str_view(repo), prefix@, e@),
{
    let short = short_hash_of(e.hash.as_str());
    let link = style.commit_link(e.hash.as_str(), repo);
    let mut r = prefix.to_owned();
    r.append(" ");
    r.append(e.subject.as_str());
    r.append(" ([");
    r.append(short.as_str());
    r.append("](");
    r.append(link.as_str());
    r.append(")");
    if e.closes.len() > 0 {
        let closes = refs_text(style, &e.closes, repo);
        r.append(", closes ");
        r.append(closes.as_str());
    }
    let named = named_only(&e.breaks);
    if named.len() > 0 {
        let breaks = refs_text(style, &named, repo);
        r.append(", breaks ");
        r.append(breaks.as_str());
    }
    r.append(")\n");
    assert(r@ =~= md_entry(style, opt_str_view(repo), prefix@, e@));
    r
}

fn component_text(style: LinkStyle, repo: Option<&str>, name: &String, es: &Vec<Commit>) -> (r: String)
    ensures
        r@ == md_component(style, opt_str_view(repo), name@, commits_view(es@)),
{
    let ghost cv = commits_view(es@);
    let ghost rp = opt_str_view(repo);
    let named = !name.as_str().is_empty();
    let nested = es.len() > 1 && named;
    let mut r = String::new();
    let prefix = if nested {
        r.append("* **");
        r.append(name.as_str());
        r.append(":**\n");
        "  *".to_owned()
    } else if named {
        let mut p = "* **".to_owned();
        p.append(name.as_str());
        p.append(":**");
        p
    } else {
        "* ".to_owned()
    };
    assert(prefix@ =~= md_prefix(name@, cv));
    let ghost head = r@;
    let mut i: usize = 0;
    while i < es.len()
        invariant
            i <= es.len(),
            cv == commits_view(es@),
            rp == opt_str_view(repo),
            prefix@ == md_prefix(name@, cv),
            r@ == head + md_entries(style, rp, prefix@, cv.subrange(0, i as int)),
        decreases es.len() - i,
    {
        assert(cv.subrange(0, i + 1).drop_last() =~= cv.subrange(0, i as int));
        let line = entry_text(style, repo, prefix.as_str(), &es[i]);
        r.append(line.as_str());
        assert(r@ =~= head + md_entries(style, rp, prefix@, cv.subrange(0, i + 1)));
        i = i + 1;
    }
    assert(cv.subrange(0, es.len() as int) =~= cv);
    assert(r@ =~= md_component(style, rp, name@, cv));
    r
}

fn section_text(style: LinkStyle, repo: Option<&str>, title: &str, section: &ComponentMap) -> (r: String)
    ensures
        r@ == md_section(style, opt_str_view(repo), title@, components_view(section@)),
{
    let ghost cs = components_view(section@);
    let ghost rp = opt_str_view(repo);
    let mut r = String::new();
    if section.len() == 0 {
        return r;
    }
    r.append("\n#### ");
    r.append(title);
    r.append("\n\n");
    let ghost head = r@;
    let mut i: usize = 0;
    while i < section.len()
        invariant
            i <= section.len(),
            cs == components_view(section@),
            rp == opt_str_view(repo),
            r@ == head + md_components(style, rp, cs.subrange(0, i as int)),
        decreases section.len() - i,
    {
        assert(cs.subrange(0, i + 1).drop_last() =~= cs.subrange(0, i as int));
        let part = component_text(style, repo, &section[i].0, &section[i].1);
        r.append(part.as_str());
        assert(r@ =~= head + md_components(style, rp, cs.subrange(0, i + 1)));
        i = i + 1;
    }
    assert(cs.subrange(0, section.len() as int) =~= cs);
    r
}

impl MarkdownWriter {
    /// Creates a writer that holds nothing yet.
    pub fn new() -> (r: MarkdownWriter)
        ensures
            r@ == Seq::<char>::empty(),
    {
        MarkdownWriter(String::new())
    }

    /// The text written so far.
    pub fn text(&self) -> (r: &str)
        ensures
            r@ == self@,
    {
        self.0.as_str()
    }

    /// Writes the release header.
    fn write_header(&mut self, options: &Clog, date: &ReleaseDate)
        ensures
            final(self)@ == old(self)@ + md_header(
                or_empty(opt_view(options.version)),
                or_empty(opt_view(options.subtitle)),
                options.patch_ver,
                date_text(*date),
            ),
    {
        let subtitle = match &options.subtitle {
            Some(s) => s.as_str(),
            None => "",
        };
        let version = match &options.version {
            Some(v) => v.as_str(),
            None => "",
        };
        proof {
            reveal_strlit("");
        }
        assert(subtitle@ == or_empty(opt_view(options.subtitle)));
        assert(version@ == or_empty(opt_view(options.version)));
        let date_str = date.text();
        let header = header_text(version, subtitle, options.patch_ver, date_str.as_str());
        self.0.append(header.as_str());
    }

    /// Writes some contents after three line breaks.
    pub fn write(&mut self, content: &str)
        ensures
            final(self)@ == old(self)@ + "\n\n\n"@ + content@,
    {
        self.0.append("\n\n\n");
        self.0.append(content);
    }

    /// Writes the changelog of a release dated `date`: the header, then each
    /// section of the section table, in table order, that the grouping holds.
    pub fn write_changelog_dated(&mut self, options: &Clog, sm: &SectionMap, date: &ReleaseDate)
        ensures
            final(self)@ == old(self)@ + md_changelog(*options, sm@, *date),
            grouping_wf(sm@),
    {
        let sections = sm.sections();
        self.write_header(options, date);
        let ghost head = self@;
        let repo = options.repo_str();
        let ghost rp = opt_view(options.repo);
        let ghost t = section_entries(options.section_map);
        let n = table_len(&options.section_map);
        let mut i: usize = 0;
        while i < n
            invariant
                i <= n,
                n == t.len(),
                t == section_entries(options.section_map),
                grouping_view(sections@) == sm@,
                rp == opt_view(options.repo),
                opt_str_view(repo) == rp,
                self@ == head + md_sections(options.link_style, rp, t.subrange(0, i as int), sm@),
            decreases n - i,
        {
            assert(t.subrange(0, i + 1).drop_last() =~= t.subrange(0, i as int));
            match table_entry(&options.section_map, i) {
                Some((title, _)) => {
                    match sm.position(title) {
                        Some(k) => {
                            let part = section_text(
                                options.link_style,
                                repo,
                                title.as_str(),
                                &sections[k].1,
                            );
                            self.0.append(part.as_str());
                        },
                        None => {},
                    }
                },
                None => {},
            }
            assert(self@ =~= head + md_sections(options.link_style, rp, t.subrange(0, i + 1), sm@));
            i = i + 1;
        }
        assert(t.subrange(0, n as int) =~= t);
    }
}

impl FormatWriter for MarkdownWriter {
    fn write_changelog(&mut self, options: &Clog, sm: &SectionMap)
        ensures
            exists|d: ReleaseDate|
                1 <= d.month <= 12 && 1 <= d.day <= 31 && final(self)@ == old(self)@ + md_changelog(
                    *options,
                    sm@,
                    d,
                ),
            grouping_wf(sm@),
    {
        let date = ReleaseDate::today();
        self.write_changelog_dated(options, sm, &date);
    }
}

} // verus!
