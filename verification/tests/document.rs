use toml_describe::document::{find, find_text, is_text_or_absent, parse_document, text_list, Node};

fn entries(node: &Node) -> &Vec<(String, Node)> {
    match node {
        Node::Table(entries) => entries,
        other => panic!("not a table: {:?}", other),
    }
}

#[test]
fn document_is_copied_kind_by_kind() {
    let text = r#"
        s = "text"
        i = -3
        f = 1.5
        b = true
        d = 1979-05-27
        l = [1, "two", [3]]
        [t]
        inner = "x"
    "#;
    let document = parse_document(text).unwrap();
    assert_eq!(
        format!("{:?}", document),
        "Table([(\"s\", Text(\"text\")), (\"i\", Integer(-3)), (\"f\", Float), (\"b\", Boolean(true)), \
         (\"d\", Datetime), (\"l\", List([Integer(1), Text(\"two\"), List([Integer(3)])])), \
         (\"t\", Table([(\"inner\", Text(\"x\"))]))])"
    );
}

#[test]
fn tables_keep_the_order_of_the_source() {
    let document = parse_document("zeta = 1\nalpha = 2\nmid = 3\n").unwrap();
    let keys: Vec<&str> = entries(&document).iter().map(|entry| entry.0.as_str()).collect();
    assert_eq!(keys, ["zeta", "alpha", "mid"]);
}

#[test]
fn invalid_toml_gives_no_document() {
    assert!(parse_document("a = ").is_none());
    assert!(parse_document("a = 1\na = 2").is_none());
    assert!(parse_document("[t").is_none());
}

#[test]
fn empty_text_is_an_empty_table() {
    let document = parse_document("").unwrap();
    assert!(entries(&document).is_empty());
}

#[test]
fn find_returns_the_first_entry_with_the_key() {
    let list = vec![
        ("a".to_string(), Node::Integer(1)),
        ("b".to_string(), Node::Text("x".to_string())),
        ("a".to_string(), Node::Integer(2)),
    ];
    assert!(matches!(find(&list, "a"), Some(Node::Integer(1))));
    assert!(matches!(find(&list, "b"), Some(Node::Text(_))));
    assert!(find(&list, "c").is_none());
    assert!(find(&list, "").is_none());
    assert_eq!(find_text(&list, "b").map(|s| s.as_str()), Some("x"));
    assert_eq!(find_text(&list, "a"), None);
    assert_eq!(find_text(&list, "c"), None);
    assert!(is_text_or_absent(&list, "b"));
    assert!(is_text_or_absent(&list, "c"));
    assert!(!is_text_or_absent(&list, "a"));
}

#[test]
fn text_list_takes_lists_of_texts_only() {
    let texts = Node::List(vec![Node::Text("a".to_string()), Node::Text("b".to_string())]);
    assert_eq!(text_list(&texts), Some(vec!["a".to_string(), "b".to_string()]));
    assert_eq!(text_list(&Node::List(vec![])), Some(vec![]));
    let mixed = Node::List(vec![Node::Text("a".to_string()), Node::Integer(1)]);
    assert_eq!(text_list(&mixed), None);
    assert_eq!(text_list(&Node::Text("a".to_string())), None);
    assert_eq!(text_list(&Node::Table(vec![])), None);
}
