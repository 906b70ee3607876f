//! The JSON form of a changelog.
use super::{date_text, FormatWriter, ReleaseDate};
use crate::alias::{section_entries, table_entry, table_len, AliasModel};
use crate::clog::Clog;
use crate::git::{commits_view, Commit, CommitView};
use crate::link_style::{commit_link_view, issue_link_view, LinkStyle};
use crate::sectionmap::{components_view, first_key, grouping_view, grouping_wf, ComponentMap, ComponentsModel, GroupingModel, SectionMap};
use crate::text::{chars_of, opt_str_view, opt_view, push_char, strs_of};
use vstd::prelude::*;
use vstd::string::*;

verus! {

/// Collects a changelog in JSON form.
pub struct JsonWriter(pub String);

impl View for JsonWriter {
    type V = Seq<char>;

    open spec fn view(&self) -> Seq<char> {
        self.0@
    }
}

/// The hexadecimal digit `d`.
pub open spec fn hex_digit(d: int) -> char {
    "0123456789abcdef"@[d]
}

/// One character inside a JSON string: the quote, the backslash and the
/// control characters escaped, every other character as it is.
pub open spec fn json_char(c: char) -> Seq<char> {
    if c == '"' {
        "\\\""@
    } else if c == '\\' {
        "\\\\"@
    } else if c == '\n' {
        "\\n"@
    } else if c == '\r' {
        "\\r"@
    } else if c == '\t' {
        "\\t"@
    } else if (c as u32) < 0x20 {
        "\\u00"@ + seq![hex_digit((c as u32) as int / 16), hex_digit((c as u32) as int % 16)]
    } else {
        seq![c]
    }
}

/// The characters of `s`, each as `json_char` writes it.
pub open spec fn json_chars(s: Seq<char>) -> Seq<char>
    decreases s.len(),
{
    if s.len() == 0 {
        Seq::empty()
    } else {
        json_chars(s.drop_last()) + json_char(s.last())
    }
}

/// `s` as a JSON string.
pub open spec fn json_string(s: Seq<char>) -> Seq<char> {
    "\""@ + json_chars(s) + "\""@
}

/// An optional text as a JSON string, or `null`.
pub open spec fn json_opt(o: Option<Seq<char>>) -> Seq<char> {
    match o {
        Some(v) => json_string(v),
        None => "null"@,
    }
}

/// `s` as a JSON string.
pub fn json_quote(s: &str) -> (r: String)
    ensures
        r@ == json_string(s@),
{
    proof {
        reveal_strlit("0123456789abcdef");
    }
    let hex = chars_of("0123456789abcdef");
    let cs = chars_of(s);
    let mut body = String::new();
    let mut i: usize = 0;
    while i < cs.len()
        invariant
            i <= cs.len(),
            cs@ == s@,
            hex@ == "0123456789abcdef"@,
            hex@.len() == 16,
            body@ == json_chars(cs@.subrange(0, i as int)),
        decreases cs.len() - i,
    {
        assert(cs@.subrange(0, i + 1).drop_last() =~= cs@.subrange(0, i as int));
        let c = cs[i];
        let ghost before = body@;
        if c == '"' {
            body.append("\\\"");
        } else if c == '\\' {
            body.append("\\\\");
        } else if c == '\n' {
            body.append("\\n");
        } else if c == '\r' {
            body.append("\\r");
        } else if c == '\t' {
            body.append("\\t");
        } else if (c as u32) < 0x20 {
            let u = c as u32;
            assert(u / 16 < 2 && u % 16 < 16);
            body.append("\\u00");
            push_char(&mut body, hex[(u / 16) as usize]);
            push_char(&mut body, hex[(u % 16) as usize]);
        } else {
            push_char(&mut body, c);
        }
        assert(body@ =~= before + json_char(c));
        i = i + 1;
    }
    assert(cs@.subrange(0, cs.len() as int) =~= cs@);
    let mut r = "\"".to_owned();
    r.append(body.as_str());
    r.append("\"");
    r
}

fn json_quote_opt(o: &Option<String>) -> (r: String)
    ensures
        r@ == json_opt(opt_view(*o)),
{
    match o {
        Some(v) => json_quote(v.as_str()),
        None => "null".to_owned(),
    }
}

/// The release header: version, patch flag, subtitle and date.
pub open spec fn json_header(version: Option<Seq<char>>, patch: bool, subtitle: Option<Seq<char>>, date: Seq<char>) -> Seq<
    char,
> {
    "\"header\":{\"version\":"@ + json_opt(version) + ",\"patch_version\":"@ + (if patch {
        "true"@
    } else {
        "false"@
    }) + ",\"subtitle\":"@ + json_opt(subtitle) + ",\"date\":\""@ + date + "\"},"@
}

/// One issue reference: the issue and its link.
pub open spec fn json_issue(style: LinkStyle, issue: Seq<char>, repo: Option<Seq<char>>) -> Seq<char> {
    "{\"issue\":"@ + json_string(issue) + ",\"issue_link\":"@ + json_string(issue_link_view(style, issue, repo))
        + "}"@
}

/// Issue references joined by commas.
pub open spec fn json_issues(style: LinkStyle, refs: Seq<Seq<char>>, repo: Option<Seq<char>>) -> Seq<
    char,
>
    decreases refs.len(),
{
    if refs.len() == 0 {
        Seq::empty()
    } else if refs.len() == 1 {
        json_issue(style, refs[0], repo)
    } else {
        json_issues(style, refs.drop_last(), repo) + ","@ + json_issue(style, refs.last(), repo)
    }
}

/// The commits of a component, joined by commas.
pub open spec fn json_entries(
    style: LinkStyle,
    repo: Option<Seq<char>>,
    name: Seq<char>,
    es: Seq<CommitView>,
) -> Seq<char>
    decreases es.len(),
{
    if es.len() == 0 {
        Seq::empty()
    } else if es.len() == 1 {
        json_entry(style, repo, name, es[0])
    } else {
        json_entries(style, repo, name, es.drop_last()) + ","@ + json_entry(style, repo, name, es.last())
    }
}

/// The components of a section, joined by commas.
pub open spec fn json_components(style: LinkStyle, repo: Option<Seq<char>>, cs: ComponentsModel) -> Seq<
    char,
>
    decreases cs.len(),
{
    if cs.len() == 0 {
        Seq::empty()
    } else if cs.len() == 1 {
        json_entries(style, repo, cs[0].0, cs[0].1)
    } else {
        json_components(style, repo, cs.drop_last()) + ","@ + json_entries(
            style,
            repo,
            cs.last().0,
            cs.last().1,
        )
    }
}

/// A section: its title and its commits (or null).
pub open spec fn json_section(style: LinkStyle, repo: Option<Seq<char>>, title: Seq<char>, cs: ComponentsModel) -> Seq<
    char,
> {
    "{\"title\":"@ + json_string(title) + ","@ + (if cs.len() == 0 {
        "\"commits\":null"@
    } else {
        "\"commits\":["@ + json_components(style, repo, cs) + "]"@
    }) + "}"@
}

/// Some section of the table `t` is in the grouping `m`.
pub open spec fn any_present(t: AliasModel, m: GroupingModel) -> bool
    decreases t.len(),
{
    if t.len() == 0 {
        false
    } else {
        any_present(t.drop_last(), m) || first_key(m, t.last().0, 0) >= 0
    }
}

/// The sections of the table `t`, in table order, each that the grouping
/// `m` holds, joined by commas.
pub open spec fn json_sections(style: LinkStyle, repo: Option<Seq<char>>, t: AliasModel, m: GroupingModel) -> Seq<
    char,
>
    decreases t.len(),
{
    if t.len() == 0 {
        Seq::empty()
    } else {
        let rest = json_sections(style, repo, t.drop_last(), m);
        let i = first_key(m, t.last().0, 0);
        if i < 0 {
            rest
        } else if !any_present(t.drop_last(), m) {
            json_section(style, repo, t.last().0, m[i].1)
        } else {
            rest + ","@ + json_section(style, repo, t.last().0, m[i].1)
        }
    }
}

/// The whole JSON changelog of a release: the header, then the sections as
/// a list, or null where the grouping holds none of the table's sections.
pub open spec fn json_changelog(o: Clog, m: GroupingModel, date: ReleaseDate) -> Seq<char> {
    let t = section_entries(o.section_map);
    let style = o.link_style;
    let repo = opt_view(o.repo);
    "{"@ + json_header(opt_view(o.version), o.patch_ver, opt_view(o.subtitle), date_text(date))
        + "\"sections\":"@ + (if any_present(t, m) {
        "["@ + json_sections(style, repo, t, m) + "]"@
    } else {
        "null"@
    }) + "}"@
}

fn header_text(options: &Clog, date: &ReleaseDate) -> (r: String)
    ensures
        r@ == json_header(
            opt_view(options.version),
            options.patch_ver,
            opt_view(options.subtitle),
            date_text(*date),
        ),
{
    let version = json_quote_opt(&options.version);
    let subtitle = json_quote_opt(&options.subtitle);
    let date_str = date.text();
    let mut r = "\"header\":{\"version\":".to_owned();
    r.append(version.as_str());
    r.append(",\"patch_version\":");
    if options.patch_ver {
        r.append("true");
    } else {
        r.append("false");
    }
    r.append(",\"subtitle\":");
    r.append(subtitle.as_str());
    r.append(",\"date\":\"");
    r.append(date_str.as_str());
    r.append("\"},");
    assert(r@ =~= json_header(
        opt_view(options.version),
        options.patch_ver,
        opt_view(options.subtitle),
        date_text(*date),
    ));
    r
}

fn issues_text(style: LinkStyle, refs: &Vec<String>, repo: Option<&str>) -> (r: String)
    ensures
        r@ == json_issues(style, strs_of(refs@), opt_str_view(repo)),
{
    let ghost rs = strs_of(refs@);
    let ghost rp = opt_str_view(repo);
    let mut r = String::new();
    let mut i: usize = 0;
    while i < refs.len()
        invariant
            i <= refs.len(),
            rs == strs_of(refs@),
            rp == opt_str_view(repo),
            r@ == json_issues(style, rs.subrange(0, i as int), rp),
        decreases refs.len() - i,
    {
        let ghost before = r@;
        assert(rs.subrange(0, i + 1).drop_last() =~= rs.subrange(0, i as int));
        if i > 0 {
            r.append(",");
        }
        let issue = refs[i].as_str();
        let link = json_quote(style.issue_link(issue, repo).as_str());
        r.append("{\"issue\":");
        let issue_text = json_quote(issue);
        r.append(issue_text.as_str());
        r.append(",\"issue_link\":");
        r.append(link.as_str());
        r.append("}");
        if i == 0 {
            assert(r@ =~= json_issues(style, rs.subrange(0, 1), rp));
        } else {
            assert(r@ =~= before + ","@ + json_issue(style, rs[i as int], rp));
        }
        i = i + 1;
    }
    assert(rs.subrange(0, refs.len() as int) =~= rs);
    r
}

/// The component field's value of a commit's object.
pub open spec fn json_component_value(name: Seq<char>) -> Seq<char> {
    if name.len() == 0 {
        "null,"@
    } else {
        json_string(name) + ","@
    }
}

/// The closes field's value of a commit's object.
pub open spec fn json_closes_value(style: LinkStyle, repo: Option<Seq<char>>, refs: Seq<Seq<char>>) -> Seq<char> {
    if refs.len() > 0 {
        "["@ + json_issues(style, refs, repo) + "],"@
    } else {
        "null,"@
    }
}

/// The breaks field's value of a commit's object, and its closing brace.
pub open spec fn json_breaks_value(style: LinkStyle, repo: Option<Seq<char>>, refs: Seq<Seq<char>>) -> Seq<char> {
    if refs.len() > 0 {
        "["@ + json_issues(style, refs, repo) + "]}"@
    } else {
        "null}"@
    }
}

/// One commit: its component (or null), subject, commit link, and the issues
/// it closes and breaks (or null).
pub open spec fn json_entry(style: LinkStyle, repo: Option<Seq<char>>, name: Seq<char>, e: CommitView) -> Seq<
    char,
> {
    "{\"component\":"@ + json_component_value(name) + "\"subject\":"@ + json_string(e.subject)
        + ",\"commit_link\":"@ + json_string(commit_link_view(style, e.hash, repo))
        + ",\"closes\":"@ + json_closes_value(style, repo, e.closes) + "\"breaks\":"@
        + json_breaks_value(style, repo, e.breaks)
}

fn component_value(name: &String) -> (r: String)
    ensures
        r@ == json_component_value(name@),
{
    if name.as_str().is_empty() {
        "null,".to_owned()
    } else {
        let mut r = json_quote(name.as_str());
        r.append(",");
        r
    }
}

fn refs_value(style: LinkStyle, refs: &Vec<String>, repo: Option<&str>, last: bool) -> (r: String)
    ensures
        r@ == if last {
            json_breaks_value(style, opt_str_view(repo), strs_of(refs@))
        } else {
            json_closes_value(style, opt_str_view(repo), strs_of(refs@))
        },
{
    if refs.len() > 0 {
        let items = issues_text(style, refs, repo);
        let mut r = "[".to_owned();
        r.append(items.as_str());
        if last {
            r.append("]}");
        } else {
            r.append("],");
        }
        r
    } else if last {
        "null}".to_owned()
    } else {
        "null,".to_owned()
    }
}

fn entry_text(style: LinkStyle, repo: Option<&str>, name: &String, e: &Commit) -> (r: String)
    ensures
        r@ == json_entry(style, opt_str_view(repo), name@, e@),
{
    let component = component_value(name);
    let subject = json_quote(e.subject.as_str());
    let link = json_quote(style.commit_link(e.hash.as_str(), repo).as_str());
    let closes = refs_value(style, &e.closes, repo, false);
    let breaks = refs_value(style, &e.breaks, repo, true);
    let mut r = "{\"component\":".to_owned();
    r.append(component.as_str());
    r.append("\"subject\":");
    r.append(subject.as_str());
    r.append(",\"commit_link\":");
    r.append(link.as_str());
    r.append(",\"closes\":");
    r.append(closes.as_str());
    r.append("\"breaks\":");
    r.append(breaks.as_str());
    r
}

fn entries_text(style: LinkStyle, repo: Option<&str>, name: &String, es: &Vec<Commit>) -> (r: String)
    ensures
        r@ == json_entries(style, opt_str_view(repo), name@, commits_view(es@)),
{
    let ghost cv = commits_view(es@);
    let ghost rp = opt_str_view(repo);
    let mut r = String::new();
    let mut i: usize = 0;
    while i < es.len()
        invariant
            i <= es.len(),
            cv == commits_view(es@),
            rp == opt_str_view(repo),
            r@ == json_entries(style, rp, name@, cv.subrange(0, i as int)),
        decreases es.len() - i,
    {
        let ghost before = r@;
        assert(cv.subrange(0, i + 1).drop_last() =~= cv.subrange(0, i as int));
        if i > 0 {
            r.append(",");
        }
        let item = entry_text(style, repo, name, &es[i]);
        r.append(item.as_str());
        if i == 0 {
            assert(r@ =~= json_entries(style, rp, name@, cv.subrange(0, 1)));
        } else {
            assert(r@ =~= before + ","@ + json_entry(style, rp, name@, cv[i as int]));
        }
        i = i + 1;
    }
    assert(cv.subrange(0, es.len() as int) =~= cv);
    r
}

fn section_text(style: LinkStyle, repo: Option<&str>, title: &str, section: &ComponentMap) -> (r: String)
    ensures
        r@ == json_section(style, opt_str_view(repo), title@, components_view(section@)),
{
    let ghost cs = components_view(section@);
    let ghost rp = opt_str_view(repo);
    let mut body = String::new();
    let mut i: usize = 0;
    while i < section.len()
        invariant
            i <= section.len(),
            cs == components_view(section@),
            rp == opt_str_view(repo),
            body@ == json_components(style, rp, cs.subrange(0, i as int)),
        decreases section.len() - i,
    {
        let ghost before = body@;
        assert(cs.subrange(0, i + 1).drop_last() =~= cs.subrange(0, i as int));
        if i > 0 {
            body.append(",");
        }
        let part = entries_text(style, repo, &section[i].0, &section[i].1);
        body.append(part.as_str());
        if i == 0 {
            assert(body@ =~= json_components(style, rp, cs.subrange(0, 1)));
        } else {
            assert(body@ =~= before + ","@ + json_entries(
                style,
                rp,
                cs[i as int].0,
                cs[i as int].1,
            ));
        }
        i = i + 1;
    }
    assert(cs.subrange(0, section.len() as int) =~= cs);
    let q = json_quote(title);
    let mut r = "{\"title\":".to_owned();
    r.append(q.as_str());
    r.append(",");
    if section.len() == 0 {
        r.append("\"commits\":null");
    } else {
        r.append("\"commits\":[");
        r.append(body.as_str());
        r.append("]");
    }
    r.append("}");
    assert(r@ =~= json_section(style, rp, title@, cs));
    r
}

proof fn lemma_none_present(style: LinkStyle, repo: Option<Seq<char>>, t: AliasModel, m: GroupingModel)
    requires
        !any_present(t, m),
    ensures
        json_sections(style, repo, t, m) == Seq::<char>::empty(),
    decreases t.len(),
{
    if t.len() > 0 {
        lemma_none_present(style, repo, t.drop_last(), m);
    }
}

impl JsonWriter {
    /// Creates a writer that holds nothing yet.
    pub fn new() -> (r: JsonWriter)
        ensures
            r@ == Seq::<char>::empty(),
    {
        JsonWriter(String::new())
    }

    /// The text written so far.
    pub fn text(&self) -> (r: &str)
        ensures
            r@ == self@,
    {
        self.0.as_str()
    }

    /// Writes some contents.
    pub fn write(&mut self, content: &str)
        ensures
            final(self)@ == old(self)@ + content@,
    {
        self.0.append(content);
    }

    /// Writes the changelog of a release dated `date`: the header, then the
    /// sections of the section table, in table order, that the grouping
    /// holds.
    pub fn write_changelog_dated(&mut self, options: &Clog, sm: &SectionMap, date: &ReleaseDate)
        ensures
            final(self)@ == old(self)@ + json_changelog(*options, sm@, *date),
            grouping_wf(sm@),
    {
        let sections = sm.sections();
        let repo = options.repo_str();
        let ghost rp = opt_view(options.repo);
        let ghost t = section_entries(options.section_map);
        let header = header_text(options, date);
        let n = table_len(&options.section_map);
        let mut body = String::new();
        let mut any = false;
        let mut i: usize = 0;
        while i < n
            invariant
                i <= n,
                n == t.len(),
                t == section_entries(options.section_map),
                grouping_view(sections@) == sm@,
                rp == opt_view(options.repo),
                opt_str_view(repo) == rp,
                any == any_present(t.subrange(0, i as int), sm@),
                body@ == json_sections(options.link_style, rp, t.subrange(0, i as int), sm@),
            decreases n - i,
        {
            assert(t.subrange(0, i + 1).drop_last() =~= t.subrange(0, i as int));
            match table_entry(&options.section_map, i) {
                Some((title, _)) => {
                    match sm.position(title) {
                        Some(k) => {
                            if any {
                                body.append(",");
                            } else {
                                proof {
                                    lemma_none_present(
                                        options.link_style,
                                        rp,
                                        t.subrange(0, i as int),
                                        sm@,
                                    );
                                }
                            }
                            let part = section_text(
                                options.link_style,
                                repo,
                                title.as_str(),
                                &sections[k].1,
                            );
                            body.append(part.as_str());
                            any = true;
                        },
                        None => {},
                    }
                },
                None => {},
            }
            assert(body@ =~= json_sections(options.link_style, rp, t.subrange(0, i + 1), sm@));
            i = i + 1;
        }
        assert(t.subrange(0, n as int) =~= t);
        let ghost start = self@;
        self.0.append("{");
        self.0.append(header.as_str());
        self.0.append("\"sections\":");
        if any {
            self.0.append("[");
            self.0.append(body.as_str());
            self.0.append("]");
        } else {
            self.0.append("null");
        }
        self.0.append("}");
        assert(self@ =~= start + json_changelog(*options, sm@, *date));
    }
}

impl FormatWriter for JsonWriter {
    fn write_changelog(&mut self, options: &Clog, sm: &SectionMap)
        ensures
            exists|d: ReleaseDate|
                1 <= d.month <= 12 && 1 <= d.day <= 31 && final(self)@ == old(self)@ + json_changelog(
                    *options,
                    sm@,
                    d,
                ),
            grouping_wf(sm@),
    {
        let date = ReleaseDate::today();
        self.write_changelog_dated(options, sm, &date);
    }
}

} // verus!
