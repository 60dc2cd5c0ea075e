use toml_describe::cfg::{check, join};
use toml_describe::manifest::{parse, Checks};

const BASIC: &str = r#"
    [package.metadata.toml_describe.compiler_checks]
    foo = { version = ">=1.0.0" }

    [package.metadata.toml_describe.allowed_cfgs]
    foo = []
    bar = ["a", "b"]
"#;

#[test]
fn test_basic() {
    let expected = vec![
        "cargo:rustc-check-cfg=cfg(foo)",
        "cargo:rustc-check-cfg=cfg(bar, values(\"a\", \"b\"))",
    ];
    let checks = parse(BASIC, "x86_64-unknown-linux-gnu").unwrap();
    let mut out = String::new();
    for line in check(&checks) {
        out.push_str(&line);
        out.push('\n');
    }
    let found: Vec<&str> = out.strip_suffix("\n").unwrap().split("\n").collect();
    assert_eq!(
        expected.len(),
        found.len(),
        "Got wrong number of elements, expected {}, got {}",
        expected.len(),
        found.len()
    );
    for v in found {
        assert!(expected.contains(&v), "'{v}' not found in {expected:?}");
    }
}

#[test]
fn declarations_keep_the_order_of_the_manifest() {
    let checks = parse(BASIC, "x86_64-unknown-linux-gnu").unwrap();
    assert_eq!(
        check(&checks),
        ["cargo:rustc-check-cfg=cfg(foo)", "cargo:rustc-check-cfg=cfg(bar, values(\"a\", \"b\"))"]
    );
}

#[test]
fn flag_with_one_value_has_no_comma() {
    let mut checks = Checks::new();
    checks.cfgs.push(("one".to_string(), Some(vec!["only".to_string()])));
    assert_eq!(check(&checks), ["cargo:rustc-check-cfg=cfg(one, values(\"only\"))"]);
}

#[test]
fn no_flags_give_no_lines() {
    assert!(check(&Checks::new()).is_empty());
}

#[test]
fn values_are_quoted_and_joined() {
    assert_eq!(join(&vec![]), "");
    assert_eq!(join(&vec!["a".to_string()]), "\"a\"");
    assert_eq!(
        join(&vec!["a".to_string(), "".to_string(), "c d".to_string()]),
        "\"a\", \"\", \"c d\""
    );
}

#[test]
fn empty_list_of_values_declares_a_bare_flag() {
    let text = r#"
        [package.metadata.toml_describe.allowed_cfgs]
        bare = []
        valued = ["x"]
    "#;
    let checks = parse(text, "x86_64-unknown-linux-gnu").unwrap();
    assert_eq!(
        checks.cfgs,
        [("bare".to_string(), None), ("valued".to_string(), Some(vec!["x".to_string()]))]
    );
}
