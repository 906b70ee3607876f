use clog::git::Commit;
use clog::sectionmap::SectionMap;
use clog::Clog;

fn commit(hash: &str, ty: &str, comp: &str, breaks: &[&str]) -> Commit {
    Commit {
        hash: hash.to_string(),
        subject: format!("subject {hash}"),
        component: comp.to_string(),
        closes: vec![],
        breaks: breaks.iter().map(|s| s.to_string()).collect(),
        commit_type: ty.to_string(),
    }
}

fn shape(sm: &SectionMap) -> Vec<(String, Vec<(String, Vec<String>)>)> {
    sm.sections()
        .iter()
        .map(|(title, comps)| {
            (
                title.clone(),
                comps
                    .iter()
                    .map(|(name, cs)| (name.clone(), cs.iter().map(|c| c.hash.clone()).collect()))
                    .collect(),
            )
        })
        .collect()
}

fn bucket(sm: &SectionMap, section: &str, comp: &str) -> Vec<String> {
    sm.sections()
        .iter()
        .find(|(t, _)| t == section)
        .and_then(|(_, comps)| comps.iter().find(|(n, _)| n == comp))
        .map(|(_, cs)| cs.iter().map(|c| c.hash.clone()).collect())
        .unwrap_or_default()
}

fn total(sm: &SectionMap) -> usize {
    sm.sections().iter().map(|(_, comps)| comps.iter().map(|(_, cs)| cs.len()).sum::<usize>()).sum()
}

#[test]
fn empty_input_gives_empty_grouping() {
    let sm = SectionMap::from_commits(vec![]);
    assert!(sm.sections().is_empty());
}

#[test]
fn aggregating_twice_gives_equal_groupings() {
    let input = vec![
        commit("a", "Features", "core", &[]),
        commit("b", "Bug Fixes", "", &["1"]),
        commit("c", "Features", "api", &[]),
        commit("d", "Features", "core", &[""]),
    ];
    let first = SectionMap::from_commits(input.clone());
    let second = SectionMap::from_commits(input);
    assert_eq!(shape(&first), shape(&second));
}

#[test]
fn breaking_entry_is_listed_twice() {
    let input = vec![
        commit("a", "Features", "core", &[]),
        commit("b", "Bug Fixes", "", &["1"]),
        commit("d", "Features", "core", &[""]),
    ];
    let sm = SectionMap::from_commits(input);
    assert_eq!(bucket(&sm, "Bug Fixes", ""), vec!["b"]);
    assert_eq!(bucket(&sm, "Breaking Changes", ""), vec!["b"]);
    assert_eq!(bucket(&sm, "Breaking Changes", "core"), vec!["d"]);
    assert_eq!(bucket(&sm, "Features", "core"), vec!["a", "d"]);
    assert_eq!(total(&sm), 3 + 2);
}

#[test]
fn breaking_section_commit_that_breaks_is_listed_twice_there() {
    let sm = SectionMap::from_commits(vec![commit("z", "Breaking Changes", "", &[""])]);
    assert_eq!(bucket(&sm, "Breaking Changes", ""), vec!["z", "z"]);
    assert_eq!(total(&sm), 2);
}

#[test]
fn components_are_in_name_order_and_commits_in_input_order() {
    let input = vec![
        commit("1", "Features", "zeta", &[]),
        commit("2", "Features", "", &[]),
        commit("3", "Features", "alpha", &[]),
        commit("4", "Features", "Beta", &[]),
        commit("5", "Features", "alpha", &[]),
    ];
    let sm = SectionMap::from_commits(input);
    let names: Vec<&String> = sm.sections()[0].1.iter().map(|(n, _)| n).collect();
    assert_eq!(names, vec!["", "Beta", "alpha", "zeta"]);
    assert_eq!(bucket(&sm, "Features", "alpha"), vec!["3", "5"]);
}

#[test]
fn two_blocks_end_to_end() {
    let clog = Clog::default();
    let log = "aaa111\nfeat(core): add retry\nCloses #5\n==END==\nbbb222\nfix: crash on empty input\nBREAKING: changes signature\n==END==\n";
    let commits = clog.commits_from_log(log);
    assert_eq!(commits.len(), 2);
    assert_eq!(commits[0].closes, vec!["5".to_string()]);
    assert_eq!(commits[1].breaks, vec!["".to_string()]);
    let sm = SectionMap::from_commits(commits);
    assert_eq!(
        shape(&sm),
        vec![
            ("Features".to_string(), vec![("core".to_string(), vec!["aaa111".to_string()])]),
            ("Breaking Changes".to_string(), vec![("".to_string(), vec!["bbb222".to_string()])]),
            ("Bug Fixes".to_string(), vec![("".to_string(), vec!["bbb222".to_string()])]),
        ]
    );
    assert!(sm.position(&"Performance".to_string()).is_none());
}
