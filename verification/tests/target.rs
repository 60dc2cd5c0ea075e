use toml_describe::target::{holds, leaf_value, TargetError, BRACKET_LIMIT};

const LINUX: &str = "x86_64-unknown-linux-gnu";
const WINDOWS: &str = "x86_64-pc-windows-msvc";

#[test]
fn os_predicate_follows_the_target() {
    assert_eq!(holds("cfg(target_os = \"linux\")", LINUX), Ok(true));
    assert_eq!(holds("cfg(target_os = \"linux\")", WINDOWS), Ok(false));
    assert_eq!(holds("cfg(target_os = \"windows\")", WINDOWS), Ok(true));
}

#[test]
fn connectives_combine_leaves() {
    let expr = "cfg(all(unix, not(target_arch = \"arm\"), any(target_env = \"musl\", target_env = \"gnu\")))";
    assert_eq!(holds(expr, LINUX), Ok(true));
    assert_eq!(holds(expr, WINDOWS), Ok(false));
    assert_eq!(holds("not(unix)", WINDOWS), Ok(true));
}

#[test]
fn unknown_attribute_is_a_false_leaf() {
    assert_eq!(holds("cfg(feature = \"fast\")", LINUX), Ok(false));
    assert_eq!(holds("cfg(any(made_up, unix))", LINUX), Ok(true));
    assert_eq!(holds("cfg(not(made_up))", LINUX), Ok(true));
    assert_eq!(holds("cfg(key = \"value\")", LINUX), Ok(false));
}

#[test]
fn malformed_expression_is_refused() {
    assert_eq!(holds("cfg(all(unix)", LINUX), Err(TargetError::InvalidExpression));
    assert_eq!(holds("", LINUX), Err(TargetError::InvalidExpression));
    assert_eq!(holds("cfg(not(unix, windows))", LINUX), Err(TargetError::InvalidExpression));
}

#[test]
fn unknown_target_is_an_error_not_a_mismatch() {
    assert_eq!(
        holds("cfg(target_os = \"linux\")", "x86_65-unknown-freax-gna"),
        Err(TargetError::UnknownTarget)
    );
}

#[test]
fn malformed_expression_is_reported_before_unknown_target() {
    assert_eq!(
        holds("cfg(", "x86_65-unknown-freax-gna"),
        Err(TargetError::InvalidExpression)
    );
}

#[test]
fn leaf_value_is_true_only_for_a_matching_target_attribute() {
    assert!(leaf_value(Some(true)));
    assert!(!leaf_value(Some(false)));
    assert!(!leaf_value(None));
}

fn nested_calls(n: usize) -> String {
    format!("any({}unix)", "all(),".repeat(n))
}

#[test]
fn many_nested_calls_are_read_below_the_limit() {
    let expr = nested_calls(BRACKET_LIMIT - 2);
    assert_eq!(expr.matches('(').count(), BRACKET_LIMIT - 1);
    assert_eq!(holds(&expr, LINUX), Ok(true));
    assert_eq!(holds(&expr, WINDOWS), Ok(true));
    let none = format!("any({}windows)", "any(),".repeat(BRACKET_LIMIT - 2));
    assert_eq!(holds(&none, LINUX), Ok(false));
}

#[test]
fn text_with_too_many_brackets_is_refused_unread() {
    for calls in [BRACKET_LIMIT - 1, 255, 256, 300, 1000] {
        assert_eq!(
            holds(&nested_calls(calls), LINUX),
            Err(TargetError::InvalidExpression),
            "{}",
            calls
        );
    }
    let chain = format!("{}unix{}", "not(".repeat(BRACKET_LIMIT), ")".repeat(BRACKET_LIMIT));
    assert_eq!(holds(&chain, LINUX), Err(TargetError::InvalidExpression));
    let quoted = format!("target_os = \"{}\"", "(".repeat(BRACKET_LIMIT));
    assert_eq!(holds(&quoted, LINUX), Err(TargetError::InvalidExpression));
}
