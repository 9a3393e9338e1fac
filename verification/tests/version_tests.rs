use ruder::version::{extract_version, find_version, Version, VersionParseError};

fn v(major: u64, minor: u64, patch: u64) -> Version {
    Version::new(major, minor, patch)
}

#[test]
fn first_candidate_wins() {
    let candidates = vec!["v1.2.3".to_string(), "release 9.9.9".to_string()];
    assert_eq!(find_version(&candidates), Ok(Some(v(1, 2, 3))));
}

#[test]
fn first_candidate_wins_reversed() {
    let candidates = vec!["release 9.9.9".to_string(), "v1.2.3".to_string()];
    assert_eq!(find_version(&candidates), Ok(Some(v(9, 9, 9))));
}

#[test]
fn absent_on_no_match() {
    let candidates = vec!["no version here".to_string()];
    assert_eq!(find_version(&candidates), Ok(None));
}

#[test]
fn absent_on_empty_candidate_list() {
    let candidates: Vec<String> = Vec::new();
    assert_eq!(find_version(&candidates), Ok(None));
}

#[test]
fn candidates_without_match_are_skipped() {
    let candidates = vec![
        "nothing".to_string(),
        "still nothing".to_string(),
        "tool 4.5.6 here".to_string(),
    ];
    assert_eq!(find_version(&candidates), Ok(Some(v(4, 5, 6))));
}

#[test]
fn extract_plain() {
    assert_eq!(extract_version("1.2.3"), Ok(Some(v(1, 2, 3))));
}

#[test]
fn extract_embedded() {
    assert_eq!(
        extract_version("ripgrep-12.1.1-x86_64-unknown-linux-musl.tar.gz"),
        Ok(Some(v(12, 1, 1)))
    );
}

#[test]
fn extract_takes_leftmost_match() {
    assert_eq!(extract_version("a 1.2.3 then 4.5.6"), Ok(Some(v(1, 2, 3))));
}

#[test]
fn extract_zero_components() {
    assert_eq!(extract_version("v0.1.2"), Ok(Some(v(0, 1, 2))));
    assert_eq!(extract_version("0.0.0"), Ok(Some(v(0, 0, 0))));
}

#[test]
fn extract_greedy_runs() {
    assert_eq!(extract_version("v10.20.30-rc1"), Ok(Some(v(10, 20, 30))));
}

#[test]
fn extract_needs_three_components() {
    assert_eq!(extract_version("1.2"), Ok(None));
    assert_eq!(extract_version("1."), Ok(None));
    assert_eq!(extract_version("..."), Ok(None));
    assert_eq!(extract_version(""), Ok(None));
}

#[test]
fn extract_rejects_leading_zero() {
    assert_eq!(extract_version("01.2.3"), Err(VersionParseError));
    assert_eq!(extract_version("1.02.3"), Err(VersionParseError));
}

#[test]
fn extract_rejects_overflow() {
    assert_eq!(
        extract_version("99999999999999999999.1.2"),
        Err(VersionParseError)
    );
}

#[test]
fn parse_error_on_first_match_is_fatal() {
    let candidates = vec!["v01.2.3".to_string(), "v1.2.3".to_string()];
    assert_eq!(find_version(&candidates), Err(VersionParseError));
}

#[test]
fn max_component_value_is_accepted() {
    assert_eq!(
        extract_version("18446744073709551615.0.1"),
        Ok(Some(v(u64::MAX, 0, 1)))
    );
}

#[test]
fn ordering_is_major_minor_patch() {
    assert!(v(1, 0, 0).lt(&v(2, 0, 0)));
    assert!(v(1, 2, 3).lt(&v(1, 3, 0)));
    assert!(v(1, 2, 3).lt(&v(1, 2, 4)));
    assert!(!v(1, 0, 0).lt(&v(1, 0, 0)));
    assert!(!v(2, 0, 0).lt(&v(1, 9, 9)));
    assert!(!v(1, 10, 0).lt(&v(1, 9, 9)));
}

#[test]
fn version_renders_as_dotted_decimal() {
    assert_eq!(v(1, 2, 3).to_text(), "1.2.3");
    assert_eq!(v(0, 0, 0).to_text(), "0.0.0");
    assert_eq!(v(10, 200, 3000).to_text(), "10.200.3000");
    assert_eq!(
        v(u64::MAX, 0, 1).to_text(),
        "18446744073709551615.0.1"
    );
}
