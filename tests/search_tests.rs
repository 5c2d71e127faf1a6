use jump_start::error::JumpStartError;
use jump_start::index::{parse_starters, DescriptorFile};
use jump_start::search::{file_matches, make_pattern, matches_name, select_matches};
use jump_start::LocalStarter;

const FIXTURE_DESCRIPTOR: &str = "
description: A starter for testing
defaultDir: ./test-project
    ";

/// Runs a search over an instance given as (path, contents) pairs, the way
/// the command line does over the disk.
fn search(files: &[(&str, &str)], term: &str) -> Vec<LocalStarter> {
    let pattern = make_pattern(term).unwrap();
    let descriptors = files
        .iter()
        .filter(|(p, _)| p.ends_with("jump-start.yaml"))
        .map(|(p, t)| DescriptorFile { path: p.to_string(), text: t.to_string() })
        .collect();
    let index = parse_starters(descriptors);
    let starters: Vec<LocalStarter> = index.groups.into_iter().flat_map(|g| g.starters).collect();
    let hits = starters
        .iter()
        .map(|s| {
            !matches_name(&pattern, s)
                && files.iter().any(|(p, t)| {
                    let dir = format!("instance/{}/", s.path);
                    p.starts_with(&dir)
                        && file_matches(&pattern, p.rsplit('/').next().unwrap(), Some(t))
                })
        })
        .collect();
    select_matches(&pattern, starters, &hits)
}

fn fixture1() -> Vec<(&'static str, &'static str)> {
    vec![("instance/group/test-starter/jump-start.yaml", FIXTURE_DESCRIPTOR)]
}

#[test]
fn test_search_instance_filename_group() {
    let matches = search(&fixture1(), "group");
    assert_eq!(matches.len(), 1);
    assert_eq!(matches[0].path, "group/test-starter");
}

#[test]
fn test_search_instance_filename_name() {
    let matches = search(&fixture1(), "starter");
    assert_eq!(matches.len(), 1);
    assert_eq!(matches[0].path, "group/test-starter");
}

#[test]
fn test_search_instance_filename_not_instance() {
    let matches = search(&fixture1(), "instance");
    assert_eq!(matches.len(), 0);
}

#[test]
fn test_search_instance_filename_group_name() {
    let matches = search(&fixture1(), "group/test");
    assert_eq!(matches.len(), 1);
    assert_eq!(matches[0].path, "group/test-starter");
}

#[test]
fn test_search_instance_contents_yaml() {
    let matches = search(&fixture1(), "A starter for testing");
    assert_eq!(matches.len(), 1);
    assert_eq!(matches[0].path, "group/test-starter");
}

#[test]
fn search_scenario_by_content_and_by_missing_group() {
    let files = vec![(
        "instance/groupA/templateX/jump-start.yaml",
        "description: \"A sample\"",
    )];
    let found = search(&files, "sample");
    assert_eq!(found.len(), 1);
    assert_eq!(found[0].path, "groupA/templateX");
    assert_eq!(search(&files, "groupB").len(), 0);
}

#[test]
fn search_matches_by_file_name_and_by_other_files() {
    let files = vec![
        ("instance/g/a/jump-start.yaml", "description: one"),
        ("instance/g/a/index.js", "console.log('needle')"),
        ("instance/g/b/jump-start.yaml", "description: two"),
        ("instance/g/b/needle.txt", ""),
        ("instance/g/c/jump-start.yaml", "description: three"),
    ];
    let mut found: Vec<String> = search(&files, "needle").into_iter().map(|s| s.path).collect();
    found.sort();
    assert_eq!(found, vec!["g/a".to_string(), "g/b".to_string()]);
}

#[test]
fn results_hold_each_path_once() {
    let pattern = make_pattern("x").unwrap();
    let starters = vec![
        LocalStarter::new("x", "one"),
        LocalStarter::new("x", "one"),
        LocalStarter::new("g", "two"),
        LocalStarter::new("g", "three"),
    ];
    let hits = vec![true, true, true, false];
    let found = select_matches(&pattern, starters, &hits);
    let paths: Vec<&str> = found.iter().map(|s| s.path.as_str()).collect();
    assert_eq!(paths, vec!["x/one", "g/two"]);
}

#[test]
fn name_match_does_not_depend_on_file_hits() {
    let pattern = make_pattern("^g/two$").unwrap();
    let starters = vec![LocalStarter::new("g", "one"), LocalStarter::new("g", "two")];
    let found = select_matches(&pattern, starters, &vec![false, false]);
    assert_eq!(found.len(), 1);
    assert_eq!(found[0].path, "g/two");
}

#[test]
fn file_matching_uses_name_then_contents() {
    let pattern = make_pattern("abc").unwrap();
    assert!(file_matches(&pattern, "abc.txt", None));
    assert!(file_matches(&pattern, "x.txt", Some("--abc--")));
    assert!(!file_matches(&pattern, "x.txt", None));
    assert!(!file_matches(&pattern, "x.txt", Some("ab c")));
    assert!(pattern.is_match("xxabcxx"));
}

#[test]
fn invalid_pattern_is_reported() {
    match make_pattern("(unclosed") {
        Err(JumpStartError::InvalidPattern(s)) => assert_eq!(s, "(unclosed"),
        Err(e) => panic!("unexpected {:?}", e),
        Ok(_) => panic!("pattern accepted"),
    }
}

#[test]
fn missing_file_hit_flags_count_as_misses() {
    let pattern = make_pattern("zzz").unwrap();
    let starters = vec![LocalStarter::new("g", "one"), LocalStarter::new("g", "two")];
    let found = select_matches(&pattern, starters, &vec![true]);
    assert_eq!(found.len(), 1);
    assert_eq!(found[0].path, "g/one");
}
