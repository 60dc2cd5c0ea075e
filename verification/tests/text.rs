use toml_describe::text::{append_texts, count_char, has_text, push_text, split};

fn owned(items: &[&str]) -> Vec<String> {
    items.iter().map(|item| item.to_string()).collect()
}

#[test]
fn split_cuts_at_every_separator() {
    assert_eq!(split("a,b,c", ','), ["a", "b", "c"]);
    assert_eq!(split("abc", ','), ["abc"]);
    assert_eq!(split("", ','), [""]);
    assert_eq!(split(",", ','), ["", ""]);
    assert_eq!(split(",a,,b,", ','), ["", "a", "", "b", ""]);
}

#[test]
fn split_agrees_with_the_standard_library() {
    for text in ["", "x", "-", "a-b", "--", "1.0.0-nightly", "é-ü-", "-中-文"] {
        let expected: Vec<&str> = text.split('-').collect();
        assert_eq!(split(text, '-'), expected, "{:?}", text);
    }
}

#[test]
fn split_counts_characters_not_bytes() {
    assert_eq!(split("é|ü|中文", '|'), ["é", "ü", "中文"]);
    assert_eq!(split("aébéc", 'é'), ["a", "b", "c"]);
}

#[test]
fn has_text_finds_whole_texts_only() {
    let list = owned(&["fast", "small"]);
    assert!(has_text(&list, "fast"));
    assert!(has_text(&list, "small"));
    assert!(!has_text(&list, "fas"));
    assert!(!has_text(&list, ""));
    assert!(!has_text(&vec![], "fast"));
}

#[test]
fn push_and_append_add_at_the_end() {
    let mut list = owned(&["a"]);
    push_text(&mut list, "b");
    assert_eq!(list, ["a", "b"]);
    append_texts(&mut list, &owned(&["c", "d"]));
    assert_eq!(list, ["a", "b", "c", "d"]);
    append_texts(&mut list, &vec![]);
    assert_eq!(list.len(), 4);
}

#[test]
fn count_char_counts_every_occurrence() {
    assert_eq!(count_char("", '('), 0);
    assert_eq!(count_char("abc", '('), 0);
    assert_eq!(count_char("a(b(c)(", '('), 3);
    assert_eq!(count_char("((((", '('), 4);
    assert_eq!(count_char("é(ü(", '('), 2);
    assert_eq!(count_char("éüé", 'é'), 2);
}
