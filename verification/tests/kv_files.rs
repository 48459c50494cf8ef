use localdesktop::kv;

fn shown(lines: &Vec<kv::KvLine>) -> Vec<String> {
    lines.iter().map(|l| format!("{:?}", l)).collect()
}

#[test]
fn entries_comments_and_other_lines() {
    let content = "Xft.dpi: 96\n  # x: 1\n\t! y: 2\n\nno delimiter\n : 3\n  a b :c:d  \r\n";
    let lines = kv::parse_kv_lines(content, ':');
    assert_eq!(
        shown(&lines),
        vec![
            "Entry { key: \"Xft.dpi\", value: \"96\", prefix: \"\", delimiter: ':' }",
            "Other(\"  # x: 1\")",
            "Other(\"\\t! y: 2\")",
            "Other(\"\")",
            "Other(\"no delimiter\")",
            "Other(\" : 3\")",
            "Entry { key: \"a b\", value: \"c:d\", prefix: \"  \", delimiter: ':' }",
        ]
    );
}

#[test]
fn no_lines_in_an_empty_file() {
    assert!(kv::parse_kv_lines("", ':').is_empty());
    assert_eq!(kv::render_kv_lines(&[]), "\n");
}

#[test]
fn all_entries_for_the_key_are_set() {
    let mut lines = kv::parse_kv_lines("a: 1\nb: 2\n a : 3\n", ':');
    kv::set_kv_value(&mut lines, "a", "9", ':');
    assert_eq!(kv::render_kv_lines(&lines), "a: 9\nb: 2\n a: 9\n");
}

#[test]
fn a_missing_key_is_added_at_the_end() {
    let mut lines = kv::parse_kv_lines("! a: 1\n", ':');
    kv::set_kv_value(&mut lines, "a", "2", ':');
    assert_eq!(kv::render_kv_lines(&lines), "! a: 1\na: 2\n");
}

#[test]
fn keys_differ_by_case() {
    let mut lines = kv::parse_kv_lines("A: 1\n", ':');
    kv::set_kv_value(&mut lines, "a", "2", ':');
    assert_eq!(kv::render_kv_lines(&lines), "A: 1\na: 2\n");
}

#[test]
fn setting_twice_changes_nothing_more() {
    let mut once = kv::parse_kv_lines("b: 1\na: 2\n", ':');
    kv::set_kv_value(&mut once, "a", "7", ':');
    let mut twice = kv::parse_kv_lines("b: 1\na: 2\n", ':');
    kv::set_kv_value(&mut twice, "a", "7", ':');
    kv::set_kv_value(&mut twice, "a", "7", ':');
    assert_eq!(shown(&once), shown(&twice));
}

#[test]
fn written_lines_are_read_back() {
    let mut lines = kv::parse_kv_lines("# c\n  key=value\nrest\n", '=');
    kv::set_kv_value(&mut lines, "new", " spaced ", '=');
    let written = kv::render_kv_lines(&lines);
    assert_eq!(written, "# c\n  key= value\nrest\nnew=  spaced \n");
    assert_eq!(
        shown(&kv::parse_kv_lines(&written, '=')),
        vec![
            "Other(\"# c\")",
            "Entry { key: \"key\", value: \"value\", prefix: \"  \", delimiter: '=' }",
            "Other(\"rest\")",
            "Entry { key: \"new\", value: \"spaced\", prefix: \"\", delimiter: '=' }",
        ]
    );
}

#[test]
fn updates_are_made_in_turn() {
    let updates = [
        ("a", "1".to_string()),
        ("b", "2".to_string()),
        ("a", "3".to_string()),
    ];
    assert_eq!(kv::upsert_kv_file("b : 0\n", ':', &updates), "b: 2\na: 3\n");
    assert_eq!(kv::upsert_kv_file("", ':', &updates), "a: 3\nb: 2\n");
}

#[test]
fn upserting_twice_gives_the_same_file() {
    let updates = [("Xft.dpi", "192".to_string())];
    let once = kv::upsert_kv_file("! mine\nXft.dpi:96\nXcursor.size: 24", ':', &updates);
    assert_eq!(once, "! mine\nXft.dpi: 192\nXcursor.size: 24\n");
    assert_eq!(kv::upsert_kv_file(&once, ':', &updates), once);
}

#[test]
fn a_stray_carriage_return_goes_with_the_second_update() {
    let updates = [("a", "1".to_string())];
    let once = kv::upsert_kv_file("#\r\r\n", ':', &updates);
    assert_eq!(once, "#\r\na: 1\n");
    assert_eq!(kv::upsert_kv_file(&once, ':', &updates), "#\na: 1\n");
}

#[test]
fn no_updates_still_normalise_the_file() {
    assert_eq!(kv::upsert_kv_file("  k:v", ':', &[]), "  k: v\n");
    assert_eq!(kv::upsert_kv_file("", ':', &[]), "\n");
}
