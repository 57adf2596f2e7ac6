use webcontext::version::{
    filter_version_branches, is_version_branch, latest_version_of, new_version_name, next_version, version_number,
};

fn names(v: &[&str]) -> Vec<String> {
    v.iter().map(|s| s.to_string()).collect()
}

#[test]
fn latest_version_picks_highest_number() {
    let b = names(&["master", "v2", "architecture", "v10", "v3"]);
    assert_eq!(latest_version_of(&b), Some("v10".to_string()));
}

#[test]
fn latest_version_none_without_versions() {
    let b = names(&["master", "architecture", "v", "vx1", "v1a"]);
    assert_eq!(latest_version_of(&b), None);
}

#[test]
fn version_number_of_plain_name() {
    assert_eq!(version_number("v42"), 42);
    assert_eq!(version_number("v0"), 0);
    assert_eq!(version_number("x42"), 0);
}

#[test]
fn new_version_after_latest() {
    assert_eq!(new_version_name(None), Some("v1".to_string()));
    assert_eq!(new_version_name(Some("v9")), Some("v10".to_string()));
    assert_eq!(new_version_name(Some("v4294967295")), None);
}

#[test]
fn version_number_needs_ascii_digits() {
    // `\d` matches Arabic-Indic digits, but they do not parse as a number
    assert_eq!(version_number("v\u{0661}\u{0662}"), 0);
    assert_eq!(version_number("v12 "), 0);
    assert_eq!(version_number("v99999999999"), 0);
    assert_eq!(version_number("v4294967295"), 4294967295);
}

#[test]
fn latest_version_first_of_equal_numbers() {
    let b = names(&["v01", "v1", "v2", "v02"]);
    assert_eq!(latest_version_of(&b), Some("v2".to_string()));
    let b = names(&["v01", "v1"]);
    assert_eq!(latest_version_of(&b), Some("v01".to_string()));
}

#[test]
fn latest_version_skips_v0() {
    let b = names(&["v0", "v00"]);
    assert_eq!(latest_version_of(&b), None);
}

#[test]
fn new_version_reads_leading_digits() {
    assert_eq!(new_version_name(Some("v007")), Some("v8".to_string()));
    assert_eq!(new_version_name(Some("release-v3-x")), Some("v4".to_string()));
    assert_eq!(new_version_name(Some("none")), Some("v1".to_string()));
}

#[test]
fn new_version_becomes_latest_scenario() {
    let mut b = names(&["master", "architecture", "v1", "v3", "v2"]);
    let latest = latest_version_of(&b);
    let next = new_version_name(latest.as_deref()).unwrap();
    assert_eq!(next, "v4");
    b.push(next.clone());
    assert_eq!(latest_version_of(&b), Some(next));
}

#[test]
fn version_branch_filter() {
    let b = names(&["master", "v1", "v1-x", "arch-v2", "v20", "V3"]);
    assert_eq!(filter_version_branches(&b), names(&["v1", "v20"]));
    assert!(is_version_branch("v7"));
    assert!(!is_version_branch("v"));
}

#[test]
fn next_version_is_one_above_highest() {
    assert_eq!(next_version(&names(&[])), Some("v1".to_string()));
    assert_eq!(next_version(&names(&["master", "v1", "v3", "v2", "arch-x"])), Some("v4".to_string()));
    assert_eq!(next_version(&names(&["v09", "v10"])), Some("v11".to_string()));
    assert_eq!(next_version(&names(&["v4294967295"])), None);
    let mut b = names(&["v2", "v7"]);
    let n = next_version(&b).unwrap();
    b.push(n.clone());
    assert_eq!(latest_version_of(&b), Some(n));
}
