use flashrom_tester::cases::{
    check_host_os_release, filter_tests, parse_os_release, release_description, OsReleaseInfo,
    ScriptedTest,
};
use flashrom_tester::sim::SimFlash;
use flashrom_tester::tester::TestConclusion;

fn scripted(name: &str) -> ScriptedTest {
    ScriptedTest {
        name: name.to_string(),
        expected: TestConclusion::Pass,
        failure: None,
    }
}

#[test]
fn test_parse_os_release() {
    let lines = [
        "BUILD_ID=12516.0.0",
        "# this line is a comment followed by an empty line",
        "",
        "ID_LIKE=chromiumos",
        "ID=chromeos",
        "VERSION=79",
        "EMPTY_VALUE=",
    ];
    let map = parse_os_release(&lines.iter().map(|&s| s.to_owned()).collect());

    fn get<'a>(m: &'a OsReleaseInfo, k: &str) -> Option<&'a str> {
        m.get(k)
    }

    assert_eq!(get(&map, "ID"), Some("chromeos"));
    assert_eq!(get(&map, "BUILD_ID"), Some("12516.0.0"));
    assert_eq!(get(&map, "EMPTY_VALUE"), Some(""));
    assert_eq!(get(&map, ""), None);
}

#[test]
fn test_name_filter() {
    let tests = vec![scripted("Test One"), scripted("Test Two")];

    let mut names: Option<Vec<String>> = None;
    // All tests pass through
    assert_eq!(
        filter_tests::<SimFlash, ScriptedTest>(&tests, &mut names).len(),
        2
    );

    names = Some(vec!["test two".to_string()]);
    // Filtered out test one
    assert_eq!(
        filter_tests::<SimFlash, ScriptedTest>(&tests, &mut names).len(),
        1
    );

    names = Some(vec!["test three".to_string()]);
    // No tests emitted
    assert_eq!(
        filter_tests::<SimFlash, ScriptedTest>(&tests, &mut names).len(),
        0
    );
    // Name got left behind because no test matched it
    assert_eq!(names.unwrap().len(), 1);
}

/// Filtering by an empty set runs no tests; a matched entry is consumed
/// exactly once even when two tests share a name.
#[test]
fn name_filter_edge_cases() {
    let tests = vec![scripted("Alpha"), scripted("alpha"), scripted("Beta")];

    let mut names: Option<Vec<String>> = Some(Vec::new());
    assert_eq!(
        filter_tests::<SimFlash, ScriptedTest>(&tests, &mut names).len(),
        0
    );
    assert_eq!(names.unwrap().len(), 0);

    // One entry matches only the first of the two same-named tests.
    names = Some(vec!["alpha".to_string()]);
    let kept = filter_tests::<SimFlash, ScriptedTest>(&tests, &mut names);
    assert_eq!(kept, vec![0]);
    assert_eq!(names.unwrap().len(), 0);

    // Two entries match both.
    names = Some(vec!["alpha".to_string(), "alpha".to_string()]);
    let kept = filter_tests::<SimFlash, ScriptedTest>(&tests, &mut names);
    assert_eq!(kept, vec![0, 1]);
    assert_eq!(names.unwrap().len(), 0);
}

#[test]
fn release_description_finds_the_first_matching_line() {
    let lines: Vec<String> = [
        "GOOGLE_RELEASE=12516.0.0",
        "CHROMEOS_RELEASE_DESCRIPTION=12516.0.0 (Official Build)",
    ]
    .iter()
    .map(|&s| s.to_owned())
    .collect();
    assert_eq!(
        release_description(&lines),
        Some("CHROMEOS_RELEASE_DESCRIPTION=12516.0.0 (Official Build)".to_string())
    );
    assert_eq!(release_description(&Vec::new()), None);
}

#[test]
fn host_check_accepts_exactly_the_chromeos_ids() {
    let parse = |lines: &[&str]| -> OsReleaseInfo {
        parse_os_release(&lines.iter().map(|&s| s.to_owned()).collect())
    };
    assert_eq!(check_host_os_release(&parse(&["ID=chromeos"])), Ok(()));
    assert_eq!(check_host_os_release(&parse(&["ID=chromiumos"])), Ok(()));
    assert_eq!(
        check_host_os_release(&parse(&["ID=debian"])),
        Err("Test host os-release \"debian\" should be but is not chromeos".to_string())
    );
    assert_eq!(
        check_host_os_release(&parse(&[])),
        Err("Test host os-release \"UNKNOWN\" should be but is not chromeos".to_string())
    );
}

#[test]
fn parse_os_release_last_entry_wins() {
    let lines: Vec<String> = ["ID=first", "ID=second"]
        .iter()
        .map(|&s| s.to_owned())
        .collect();
    let map = parse_os_release(&lines);
    assert_eq!(map.get("ID"), Some("second"));
    assert_eq!(map.get("missing"), None);
}
