use clog::fmt::{ChangelogFormat, FormatWriter, JsonWriter, MarkdownWriter, ReleaseDate};
use clog::sectionmap::SectionMap;
use clog::Clog;

fn grouping(clog: &Clog) -> SectionMap {
    let log = "aaa1112222333\nfeat(core): add retry\nCloses #5\n==END==\nbbb2223333444\nfix: crash on empty input\nBREAKING: changes signature\n==END==\n";
    SectionMap::from_commits(clog.commits_from_log(log))
}

fn date() -> ReleaseDate {
    ReleaseDate { year: 2024, month: 3, day: 7 }
}

#[test]
fn date_text_is_padded() {
    assert_eq!(date().text(), "2024-03-07");
    assert_eq!(ReleaseDate { year: 5, month: 12, day: 31 }.text(), "0005-12-31");
    assert_eq!(ReleaseDate { year: -44, month: 1, day: 1 }.text(), "-0044-01-01");
    assert_eq!(ReleaseDate { year: 12345, month: 10, day: 9 }.text(), "12345-10-09");
}

#[test]
fn today_is_a_calendar_date() {
    let d = ReleaseDate::today();
    assert!((1..=12).contains(&d.month));
    assert!((1..=31).contains(&d.day));
    assert!(d.year >= 2024);
}

#[test]
fn markdown_with_repository() {
    let clog = Clog::default().version("1.0.0").repository("https://github.com/o/r");
    let sm = grouping(&clog);
    let mut w = MarkdownWriter::new();
    w.write_changelog_dated(&clog, &sm, &date());
    let expected = [
        "<a name=\"1.0.0\"></a>\n## 1.0.0  (2024-03-07)\n\n",
        "\n#### Features\n\n",
        "* **core:**  add retry ([aaa11122](https://github.com/o/r/commit/aaa1112222333), closes [#5](https://github.com/o/r/issues/5))\n",
        "\n#### Bug Fixes\n\n",
        "*   crash on empty input ([bbb22233](https://github.com/o/r/commit/bbb2223333444))\n",
        "\n#### Breaking Changes\n\n",
        "*   crash on empty input ([bbb22233](https://github.com/o/r/commit/bbb2223333444))\n",
    ]
    .concat();
    assert_eq!(w.text(), expected);
}

#[test]
fn markdown_without_repository_and_nested_component() {
    let clog = Clog::default().version("v2").subtitle("Name").patch_ver(true);
    let log = "1234567890\nfeat(ui): one\n==END==\nabcdefghij\nfeat(ui): two\nBREAKING\n==END==\n";
    let sm = SectionMap::from_commits(clog.commits_from_log(log));
    let mut w = MarkdownWriter::new();
    w.write_changelog_dated(&clog, &sm, &date());
    let expected = [
        "<a name=\"v2\"></a>\n### v2 Name (2024-03-07)\n\n",
        "\n#### Features\n\n",
        "* **ui:**\n",
        "  *  one ([12345678](12345678))\n",
        "  *  two ([abcdefgh](abcdefgh))\n",
        "\n#### Breaking Changes\n\n",
        "* **ui:**  two ([abcdefgh](abcdefgh))\n",
    ]
    .concat();
    assert_eq!(w.text(), expected);
}

#[test]
fn markdown_write_appends_after_breaks() {
    let mut w = MarkdownWriter::new();
    w.write("old");
    assert_eq!(w.text(), "\n\n\nold");
}

#[test]
fn markdown_of_nothing_is_the_header() {
    let clog = Clog::default();
    let sm = SectionMap::from_commits(vec![]);
    let mut w = MarkdownWriter::new();
    w.write_changelog_dated(&clog, &sm, &date());
    assert_eq!(w.text(), "<a name=\"\"></a>\n##   (2024-03-07)\n\n");
}

#[test]
fn json_without_repository() {
    let clog = Clog::default();
    let sm = grouping(&clog);
    let mut w = JsonWriter::new();
    w.write_changelog_dated(&clog, &sm, &date());
    let bug = "{\"component\":null,\"subject\":\" crash on empty input\",\"commit_link\":\"bbb22233\",\"closes\":null,\"breaks\":[{\"issue\":\"\",\"issue_link\":\"\"}]}";
    let expected = format!(
        "{{\"header\":{{\"version\":null,\"patch_version\":false,\"subtitle\":null,\"date\":\"2024-03-07\"}},\"sections\":[{{\"title\":\"Features\",\"commits\":[{{\"component\":\"core\",\"subject\":\" add retry\",\"commit_link\":\"aaa11122\",\"closes\":[{{\"issue\":\"5\",\"issue_link\":\"5\"}}],\"breaks\":null}}]}},{{\"title\":\"Bug Fixes\",\"commits\":[{bug}]}},{{\"title\":\"Breaking Changes\",\"commits\":[{bug}]}}]}}"
    );
    assert_eq!(w.text(), expected);
}

#[test]
fn json_quotes_and_escapes_text() {
    let clog = Clog::default().version("1.0").subtitle("T").repository("https://gitlab.com/o/r").link_style(clog::LinkStyle::Gitlab);
    let log = "0123456789\nfeat(a \"b\"): say \"hi\"\\\nFixes #9\n==END==\n";
    let sm = SectionMap::from_commits(clog.commits_from_log(log));
    let mut w = JsonWriter::new();
    w.write_changelog_dated(&clog, &sm, &date());
    let expected = [
        "{\"header\":{\"version\":\"1.0\",\"patch_version\":false,\"subtitle\":\"T\",\"date\":\"2024-03-07\"},",
        "\"sections\":[{\"title\":\"Features\",\"commits\":[{\"component\":\"a \\\"b\\\"\",",
        "\"subject\":\" say \\\"hi\\\"\\\\\",\"commit_link\":\"https://gitlab.com/o/r/commit/0123456789\",",
        "\"closes\":[{\"issue\":\"9\",\"issue_link\":\"https://gitlab.com/o/r/issues/9\"}],\"breaks\":null}]}]}",
    ]
    .concat();
    assert_eq!(w.text(), expected);
}

#[test]
fn json_strings_escape_control_characters() {
    assert_eq!(clog::fmt::json_quote("a\u{1}b\n\t\r\"\\é"), "\"a\\u0001b\\n\\t\\r\\\"\\\\é\"");
    assert_eq!(clog::fmt::json_quote(""), "\"\"");
}

#[test]
fn json_of_nothing_has_null_sections() {
    let clog = Clog::default().patch_ver(true);
    let sm = SectionMap::from_commits(vec![]);
    let mut w = JsonWriter::new();
    w.write_changelog_dated(&clog, &sm, &date());
    assert_eq!(
        w.text(),
        "{\"header\":{\"version\":null,\"patch_version\":true,\"subtitle\":null,\"date\":\"2024-03-07\"},\"sections\":null}"
    );
    w.write("x");
    assert!(w.text().ends_with("}x"));
}

#[test]
fn writers_through_the_trait_use_todays_date() {
    let clog = Clog::default();
    let sm = grouping(&clog);
    let mut md = MarkdownWriter::new();
    md.write_changelog(&clog, &sm);
    assert!(md.text().starts_with("<a name=\"\"></a>\n##   ("));
    assert!(md.text().contains("#### Features"));
    let mut js = JsonWriter::new();
    js.write_changelog(&clog, &sm);
    assert!(js.text().contains("\"title\":\"Bug Fixes\""));
}

#[test]
fn format_names() {
    assert_eq!(ChangelogFormat::from_name("JSON"), Some(ChangelogFormat::Json));
    assert_eq!(ChangelogFormat::from_name("markDown"), Some(ChangelogFormat::Markdown));
    assert_eq!(ChangelogFormat::from_name("md"), None);
    assert_eq!("json".parse::<ChangelogFormat>(), Ok(ChangelogFormat::Json));
    assert_eq!(
        "yaml".parse::<ChangelogFormat>(),
        Err(clog::error::Error::ChangelogFormat("yaml".to_string()))
    );
    assert_eq!(ChangelogFormat::Json.name(), "Json");
    assert_eq!(ChangelogFormat::default(), ChangelogFormat::Markdown);
}
