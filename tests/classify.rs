use clog::Clog;
use indexmap::IndexMap;

fn strings(items: &[&str]) -> Vec<String> {
    items.iter().map(|s| s.to_string()).collect()
}

#[test]
fn subject_with_component_is_split() {
    let clog = Clog::default();
    let c = clog.parse_raw_commit("abc123\nfeat(cli): add flag\n").unwrap();
    assert_eq!(c.hash, "abc123");
    assert_eq!(c.commit_type, "Features");
    assert_eq!(c.component, "cli");
    assert_eq!(c.subject, " add flag");
    assert!(c.closes.is_empty());
    assert!(c.breaks.is_empty());
}

#[test]
fn subject_without_component() {
    let clog = Clog::default();
    let c = clog.parse_raw_commit("h\nfix: crash on empty input").unwrap();
    assert_eq!(c.commit_type, "Bug Fixes");
    assert_eq!(c.component, "");
    assert_eq!(c.subject, " crash on empty input");
}

#[test]
fn empty_component_parentheses() {
    let clog = Clog::default();
    let c = clog.parse_raw_commit("h\nperf(): faster").unwrap();
    assert_eq!(c.commit_type, "Performance");
    assert_eq!(c.component, "");
    assert_eq!(c.subject, " faster");
}

#[test]
fn component_may_hold_colon_and_paren() {
    let clog = Clog::default();
    let c = clog.parse_raw_commit("h\nfeat(a:(b): x").unwrap();
    assert_eq!(c.component, "a:(b");
    assert_eq!(c.subject, " x");
}

#[test]
fn unconventional_subject_is_unknown() {
    let clog = Clog::default();
    for block in [
        "h\njust some words",
        "h\n: leading colon",
        "h\nfeat(cli) missing colon",
        "h\nfeat(cli: unclosed",
        "h",
        "",
    ] {
        let c = clog.parse_raw_commit(block).unwrap();
        assert_eq!(c.commit_type, "Unknown", "{block:?}");
        assert_eq!(c.component, "", "{block:?}");
        assert_eq!(c.subject, "", "{block:?}");
    }
}

#[test]
fn unmatched_type_token_is_unknown() {
    let clog = Clog::default();
    let c = clog.parse_raw_commit("h\nchore(x): tidy").unwrap();
    assert_eq!(c.commit_type, "Unknown");
    assert_eq!(c.component, "x");
    assert_eq!(c.subject, " tidy");
}

#[test]
fn resolve_section_first_match_and_unknown() {
    let mut sections = IndexMap::new();
    sections.insert("Features".to_string(), strings(&["ft", "feat"]));
    let clog = Clog { section_map: sections, ..Clog::default() };
    assert_eq!(clog.resolve_section("feat"), "Features");
    assert_eq!(clog.resolve_section("ft"), "Features");
    assert_eq!(clog.resolve_section("xyz"), "Unknown");
    assert_eq!(clog.section_for("feat"), Some("Features"));
    assert_eq!(clog.section_for("xyz"), None);
}

#[test]
fn resolve_section_is_case_sensitive() {
    let clog = Clog::default();
    assert_eq!(clog.resolve_section("Feat"), "Unknown");
    assert_eq!(clog.resolve_section("feat"), "Features");
}

#[test]
fn earlier_section_wins_shared_alias() {
    let mut sections = IndexMap::new();
    sections.insert("First".to_string(), strings(&["x"]));
    sections.insert("Second".to_string(), strings(&["y", "x"]));
    let clog = Clog { section_map: sections, ..Clog::default() };
    assert_eq!(clog.resolve_section("x"), "First");
    assert_eq!(clog.resolve_section("y"), "Second");
}

#[test]
fn resolve_component_passes_through() {
    let clog = Clog {
        component_map: vec![("API".to_string(), strings(&["api"]))],
        ..Clog::default()
    };
    assert_eq!(clog.resolve_component("api"), "API");
    assert_eq!(clog.resolve_component("web"), "web");
    assert_eq!(clog.component_for("api"), Some(&"API".to_string()));
    assert_eq!(clog.component_for("web"), None);
    let c = clog.parse_raw_commit("h\nfeat(api): x").unwrap();
    assert_eq!(c.component, "API");
    let c = clog.parse_raw_commit("h\nfeat(web): x").unwrap();
    assert_eq!(c.component, "web");
}

#[test]
fn closes_directive_lists_every_issue() {
    let clog = Clog::default();
    let c = clog.parse_raw_commit("h\nfeat: x\nCloses #12, #34").unwrap();
    assert_eq!(c.closes, strings(&["12", "34"]));
    assert!(c.breaks.is_empty());
}

#[test]
fn bare_breaking_marker_gives_empty_reference() {
    let clog = Clog::default();
    let c = clog.parse_raw_commit("h\nfeat: x\nBREAKING change in API").unwrap();
    assert_eq!(c.breaks, strings(&[""]));
    let c = clog.parse_raw_commit("h\nfeat: x\nthis is BrEaKiNg").unwrap();
    assert_eq!(c.breaks, strings(&[""]));
}

#[test]
fn directives_over_several_lines() {
    let clog = Clog::default();
    let block = "h\nfix(core): y\n\nFixes #1\nResolves #2#3\nBreaks #7, #8\nBroke #9\nnot a Closes#4 directive";
    let c = clog.parse_raw_commit(block).unwrap();
    assert_eq!(c.closes, strings(&["1", "2"]));
    assert_eq!(c.breaks, strings(&["7", "8", "9"]));
}

#[test]
fn issues_are_separated_by_comma_and_space_only() {
    let clog = Clog::default();
    let c = clog.parse_raw_commit("h\nfeat: x\nCloses #1,\t#2\nFixes #3,#4\nResolves #5, #6, #7").unwrap();
    assert_eq!(c.closes, strings(&["1", "3", "5", "6", "7"]));
}

#[test]
fn unconventional_subject_is_unknown_whatever_the_table() {
    let mut sections = IndexMap::new();
    sections.insert("Misc".to_string(), strings(&["unk"]));
    let clog = Clog { section_map: sections, ..Clog::default() };
    let c = clog.parse_raw_commit("h\nno convention here").unwrap();
    assert_eq!(c.commit_type, "Unknown");
    assert_eq!(clog.resolve_section("unk"), "Misc");
}

#[test]
fn breaks_line_mentioning_breaking_counts_once() {
    let clog = Clog::default();
    let c = clog.parse_raw_commit("h\nfeat: x\nBreaks #5 (breaking)").unwrap();
    assert_eq!(c.breaks, strings(&["5"]));
}

#[test]
fn first_directive_of_a_line_only() {
    let clog = Clog::default();
    let c = clog.parse_raw_commit("h\nfeat: x\nCloses #1 and Fixes #2").unwrap();
    assert_eq!(c.closes, strings(&["1"]));
}

#[test]
fn directive_needs_space_hash_and_digit() {
    let clog = Clog::default();
    let c = clog.parse_raw_commit("h\nfeat: x\nCloses #a\nCloses 12\nCloses\t#6, #x").unwrap();
    assert_eq!(c.closes, strings(&["6"]));
}

#[test]
fn carriage_returns_are_dropped() {
    let clog = Clog::default();
    let c = clog.parse_raw_commit("abc\r\nfeat(ui): y\r\nCloses #3\r\n").unwrap();
    assert_eq!(c.hash, "abc");
    assert_eq!(c.component, "ui");
    assert_eq!(c.subject, " y");
    assert_eq!(c.closes, strings(&["3"]));
}

#[test]
fn log_is_cut_at_delimiter_lines() {
    let pieces = Clog::split_log("a\nb\n==END==\nc\n==END==\n");
    assert_eq!(pieces, strings(&["a\nb", "c", ""]));
    assert_eq!(Clog::split_log(""), strings(&[""]));
    assert_eq!(Clog::split_log("x==END=="), strings(&["x==END=="]));
}

#[test]
fn log_commits_drop_unknown() {
    let clog = Clog::default();
    let log = "h1\nfeat: a\n==END==\nh2\nrandom words\n==END==\nh3\nfix(x): b\n==END==\n";
    let commits = clog.commits_from_log(log);
    assert_eq!(commits.len(), 2);
    assert_eq!(commits[0].hash, "h1");
    assert_eq!(commits[0].commit_type, "Features");
    assert_eq!(commits[1].hash, "h3");
    assert_eq!(commits[1].commit_type, "Bug Fixes");
    assert_eq!(commits[1].component, "x");
}

#[test]
fn default_search_pattern() {
    let clog = Clog::default();
    assert_eq!(clog.grep, "^ft|^feat|^fx|^fix|^perf|^unk|^breaks|BREAKING'");
    assert_eq!(clog.format, "%H%n%s%n%b%n==END==");
    assert_eq!(clog.to, "HEAD");
    let keys: Vec<&String> = clog.section_map.keys().collect();
    assert_eq!(keys, vec!["Features", "Bug Fixes", "Performance", "Unknown", "Breaking Changes"]);
}
