use clog::config::{RawCfg, RawClogCfg};
use clog::fmt::ChangelogFormat;
use clog::{Clog, LinkStyle};
use indexmap::IndexMap;

const HASH: &str = "123abc891234567890abcdefabc4567898724";
const REPO: &str = "https://github.com/clog-tool/clog-lib";

#[test]
fn issue_links_per_style() {
    assert_eq!(LinkStyle::Github.issue_link("141", Some(REPO)), format!("{REPO}/issues/141"));
    assert_eq!(LinkStyle::Gitlab.issue_link("141", Some(REPO)), format!("{REPO}/issues/141"));
    assert_eq!(LinkStyle::Stash.issue_link("141", Some(REPO)), "141");
    assert_eq!(LinkStyle::Cgit.issue_link("141", Some(REPO)), "141");
    assert_eq!(LinkStyle::Github.issue_link("141", None), "141");
}

#[test]
fn commit_links_per_style() {
    assert_eq!(LinkStyle::Github.commit_link(HASH, Some(REPO)), format!("{REPO}/commit/{HASH}"));
    assert_eq!(LinkStyle::Gitlab.commit_link(HASH, Some(REPO)), format!("{REPO}/commit/{HASH}"));
    assert_eq!(LinkStyle::Stash.commit_link(HASH, Some(REPO)), format!("{REPO}/commits/{HASH}"));
    assert_eq!(LinkStyle::Cgit.commit_link(HASH, Some(REPO)), format!("{REPO}/commit/?id={HASH}"));
    assert_eq!(LinkStyle::Github.commit_link(HASH, None), "123abc89");
    assert_eq!(LinkStyle::Github.commit_link("abc", None), "abc");
}

#[test]
fn style_names() {
    assert_eq!(LinkStyle::from_name("github"), Some(LinkStyle::Github));
    assert_eq!(LinkStyle::from_name("GitLab"), Some(LinkStyle::Gitlab));
    assert_eq!(LinkStyle::from_name("STASH"), Some(LinkStyle::Stash));
    assert_eq!(LinkStyle::from_name("cGit"), Some(LinkStyle::Cgit));
    assert_eq!(LinkStyle::from_name("bitbucket"), None);
    assert_eq!(LinkStyle::from_name("githubb"), None);
    assert_eq!("gitlab".parse::<LinkStyle>(), Ok(LinkStyle::Gitlab));
    assert_eq!("x".parse::<LinkStyle>(), Err(clog::error::Error::LinkStyle));
    assert_eq!(LinkStyle::Cgit.name(), "Cgit");
    assert_eq!(LinkStyle::default(), LinkStyle::Github);
}

#[test]
fn builders_set_one_option() {
    let clog = Clog::default()
        .grep("BREAKS")
        .format("%H%n%n==END==")
        .repository(REPO)
        .link_style(LinkStyle::Stash)
        .version("v0.2.1-beta3")
        .subtitle("Title")
        .from("6d8183f")
        .to("123abc4d")
        .changelog("changelog.md")
        .git_dir("/p/.git")
        .git_work_tree("/p")
        .patch_ver(true)
        .output_format(ChangelogFormat::Json);
    assert_eq!(clog.grep, "BREAKS");
    assert_eq!(clog.format, "%H%n%n==END==");
    assert_eq!(clog.repo.as_deref(), Some(REPO));
    assert_eq!(clog.link_style, LinkStyle::Stash);
    assert_eq!(clog.version.as_deref(), Some("v0.2.1-beta3"));
    assert_eq!(clog.subtitle.as_deref(), Some("Title"));
    assert_eq!(clog.from.as_deref(), Some("6d8183f"));
    assert_eq!(clog.to, "123abc4d");
    assert_eq!(clog.infile.as_deref(), Some("changelog.md"));
    assert_eq!(clog.outfile.as_deref(), Some("changelog.md"));
    assert_eq!(clog.git_dir.as_deref(), Some("/p/.git"));
    assert_eq!(clog.git_work_tree.as_deref(), Some("/p"));
    assert!(clog.patch_ver);
    assert_eq!(clog.out_format, ChangelogFormat::Json);
    let clog = clog.infile("old.md").outfile("new.md");
    assert_eq!(clog.infile.as_deref(), Some("old.md"));
    assert_eq!(clog.outfile.as_deref(), Some("new.md"));
}

#[test]
fn settings_from_a_configuration() {
    let mut sections = IndexMap::new();
    sections.insert("MySection".to_string(), vec!["mysec".to_string(), "ms".to_string()]);
    sections.insert("Another Section".to_string(), vec!["another".to_string()]);
    let cfg = RawCfg {
        clog: RawClogCfg {
            changelog: Some("mychangelog.md".to_string()),
            outfile: Some("MyChangelog.md".to_string()),
            infile: Some("My_old_changelog.md".to_string()),
            repository: Some(REPO.to_string()),
            link_style: LinkStyle::Gitlab,
            output_format: ChangelogFormat::Json,
            ..RawClogCfg::default()
        },
        sections,
        components: vec![("MyLongComponentName".to_string(), vec!["long".to_string(), "comp".to_string()])],
    };
    let clog = Clog::from_raw(cfg);
    assert_eq!(clog.infile.as_deref(), Some("mychangelog.md"));
    assert_eq!(clog.outfile.as_deref(), Some("mychangelog.md"));
    assert_eq!(clog.link_style, LinkStyle::Gitlab);
    assert_eq!(clog.out_format, ChangelogFormat::Json);
    assert_eq!(clog.grep, "^mysec|^ms|^another|^unk|BREAKING'");
    assert_eq!(clog.resolve_section("ms"), "MySection");
    assert_eq!(clog.resolve_component("comp"), "MyLongComponentName");
    assert_eq!(clog.resolve_section("feat"), "Unknown");
    let keys: Vec<&String> = clog.section_map.keys().collect();
    assert_eq!(keys, vec!["MySection", "Another Section", "Unknown"]);
    assert_eq!(clog.resolve_section("unk"), "Unknown");
}

#[test]
fn configured_unknown_section_is_kept() {
    let mut sections = IndexMap::new();
    sections.insert("Unknown".to_string(), vec!["misc".to_string()]);
    sections.insert("Features".to_string(), vec!["feat".to_string()]);
    let cfg = RawCfg { clog: RawClogCfg::default(), sections, components: vec![] };
    let clog = Clog::from_raw(cfg);
    let keys: Vec<&String> = clog.section_map.keys().collect();
    assert_eq!(keys, vec!["Unknown", "Features"]);
    assert_eq!(clog.grep, "^misc|^feat|BREAKING'");
}

#[test]
fn configuration_without_sections_keeps_defaults() {
    let cfg = RawCfg {
        clog: RawClogCfg { infile: Some("in.md".to_string()), ..RawClogCfg::default() },
        sections: IndexMap::new(),
        components: vec![],
    };
    let clog = Clog::from_raw(cfg);
    assert_eq!(clog.resolve_section("feat"), "Features");
    assert_eq!(clog.infile.as_deref(), Some("in.md"));
    assert_eq!(clog.outfile, None);
    assert_eq!(clog.grep, Clog::default().grep);
}
