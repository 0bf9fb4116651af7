use waql_tool::query::{split, SplitError};

fn words(v: &[&str]) -> Vec<String> {
    v.iter().map(|s| s.to_string()).collect()
}

#[test]
fn test_parse_query_without_options() {
    let q = split("$ from type Sound").unwrap();
    assert_eq!(q.clause, "$ from type Sound");
    assert!(q.projection.is_none());
}

#[test]
fn test_parse_query_with_options() {
    let q = split("$ from type Sound | name id").unwrap();
    assert_eq!(q.clause, "$ from type Sound");
    assert!(q.projection.is_some());
}

#[test]
fn split_trims_input_without_bar() {
    let q = split("  $ from type Sound  ").unwrap();
    assert_eq!(q.clause, "$ from type Sound");
    assert_eq!(q.projection, None);
}

#[test]
fn split_takes_projection_after_bar() {
    let q = split("$ from type Sound | name id").unwrap();
    assert_eq!(q.clause, "$ from type Sound");
    assert_eq!(q.projection, Some(words(&["name", "id"])));
}

#[test]
fn split_refuses_blank_input() {
    assert_eq!(split("   "), Err(SplitError::EmptyQuery));
    assert_eq!(split(""), Err(SplitError::EmptyQuery));
    assert_eq!(split("\t\u{3000}\n"), Err(SplitError::EmptyQuery));
}

#[test]
fn split_without_bar_keeps_trimmed_line() {
    for line in ["x", " a b  c ", "\u{a0}$ from object \"\\Events\"\u{2003}"] {
        let q = split(line).unwrap();
        assert_eq!(q.clause, line.trim());
        assert_eq!(q.projection, None);
    }
}

#[test]
fn split_only_first_bar_separates() {
    let q = split("$ from type Sound | name | id").unwrap();
    assert_eq!(q.clause, "$ from type Sound");
    assert_eq!(q.projection, Some(words(&["name", "|", "id"])));
}

#[test]
fn split_blank_options_give_no_projection() {
    let q = split("$ from type Sound |   ").unwrap();
    assert_eq!(q.clause, "$ from type Sound");
    assert_eq!(q.projection, None);
}

#[test]
fn split_keeps_duplicate_fields_and_runs_of_space() {
    let q = split("$ this |name\t\tid   name ").unwrap();
    assert_eq!(q.clause, "$ this");
    assert_eq!(q.projection, Some(words(&["name", "id", "name"])));
}

#[test]
fn split_bar_first_gives_empty_clause() {
    let q = split("| name").unwrap();
    assert_eq!(q.clause, "");
    assert_eq!(q.projection, Some(words(&["name"])));
}
