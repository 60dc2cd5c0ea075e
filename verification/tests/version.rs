use toml_describe::version::{SemanticVersion, VersionRange};

fn admits(range: &str, version: &str) -> bool {
    VersionRange::parse(range).unwrap().matches(&SemanticVersion::parse(version).unwrap())
}

#[test]
fn caret_range_admits_minor_and_patch_updates_only() {
    let range = VersionRange::parse("^1.2.0").unwrap();
    assert!(range.matches(&SemanticVersion::new(1, 2, 0)));
    assert!(range.matches(&SemanticVersion::new(1, 2, 7)));
    assert!(range.matches(&SemanticVersion::new(1, 3, 0)));
    assert!(range.matches(&SemanticVersion::new(1, 9, 4)));
    assert!(!range.matches(&SemanticVersion::new(2, 0, 0)));
    assert!(!range.matches(&SemanticVersion::new(1, 1, 9)));
}

#[test]
fn each_operator_has_its_meaning() {
    assert!(admits("=1.2.3", "1.2.3") && !admits("=1.2.3", "1.2.4"));
    assert!(admits(">1.2.3", "1.2.4") && !admits(">1.2.3", "1.2.3"));
    assert!(admits(">=1.2.3", "1.2.3") && !admits(">=1.2.3", "1.2.2"));
    assert!(admits("<1.2.3", "1.2.2") && !admits("<1.2.3", "1.2.3"));
    assert!(admits("<=1.2.3", "1.2.3") && !admits("<=1.2.3", "1.2.4"));
    assert!(admits("~1.2.3", "1.2.9") && !admits("~1.2.3", "1.3.0"));
    assert!(admits("^0.2.3", "0.2.9") && !admits("^0.2.3", "0.3.0"));
    assert!(admits("1.2.3", "1.9.0") && !admits("1.2.3", "2.0.0"));
    assert!(admits("*", "0.0.0") && admits("*", "99.1.2"));
}

#[test]
fn comparators_are_joined_by_and() {
    assert!(admits(">1.0.0, <2.0.0", "1.3.0"));
    assert!(!admits(">1.0.0, <2.0.0", "0.3.0"));
    assert!(!admits(">1.0.0, <2.0.0", "2.3.0"));
    assert!(!admits(">2.0.0, <1.0.0", "1.5.0"));
}

#[test]
fn same_range_and_version_give_the_same_answer() {
    for (range, version) in [("^1.2.0", "1.4.0"), ("<1", "1.0.0"), (">= 1", "1.0.0")] {
        assert_eq!(admits(range, version), admits(range, version));
    }
}

#[test]
fn pre_release_versions_need_a_comparator_with_a_tag() {
    assert!(!admits(">=1.0.0", "1.2.3-alpha.1"));
    assert!(admits(">=1.2.3-alpha.0", "1.2.3-alpha.1"));
    assert!(!admits(">=1.2.3-alpha.2", "1.2.3-alpha.1"));
}

#[test]
fn malformed_ranges_are_refused_with_their_text() {
    for text in ["", "one", ">=", "1.0.0 2.0.0", "@1.0.0", "^1.0.0, ", "*.*", "1.2.3.4"] {
        match VersionRange::parse(text) {
            Err(e) => assert_eq!(e.text, text),
            Ok(range) => panic!("accepted {:?}", range),
        }
    }
}

#[test]
fn range_keeps_its_text() {
    let range = VersionRange::parse(" >= 1.2 , <3").unwrap();
    assert_eq!(range.as_str(), " >= 1.2 , <3");
    let copy = range.clone();
    assert_eq!(copy.as_str(), " >= 1.2 , <3");
    assert!(copy.matches(&SemanticVersion::new(2, 0, 0)));
}

#[test]
fn version_is_read_from_its_text() {
    let v = SemanticVersion::parse("1.22.333").unwrap();
    assert_eq!((v.major(), v.minor(), v.patch(), v.tag()), (1, 22, 333, ""));
    let v = SemanticVersion::parse("0.1.2-rc.1+build.5").unwrap();
    assert_eq!((v.major(), v.minor(), v.patch(), v.tag()), (0, 1, 2, "rc.1"));
    let copy = v.clone();
    assert_eq!((copy.major(), copy.minor(), copy.patch(), copy.tag()), (0, 1, 2, "rc.1"));
}

#[test]
fn malformed_versions_are_refused() {
    for text in ["", "1", "1.0", "1.0.01", "1.0.unknown", "1.0.0-", "1.0.0+", "1.0.0-alpha_1", "23456789999999999999.0.0", " 1.0.0"] {
        assert!(SemanticVersion::parse(text).is_none(), "{:?}", text);
    }
}

#[test]
fn new_version_has_no_tag() {
    let v = SemanticVersion::new(3, 2, 1);
    assert_eq!((v.major(), v.minor(), v.patch(), v.tag()), (3, 2, 1, ""));
    assert!(VersionRange::parse("=3.2.1").unwrap().matches(&v));
}
