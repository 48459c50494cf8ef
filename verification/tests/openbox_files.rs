use localdesktop::openbox;
use localdesktop::theme;

const RC: &str = "<?xml version=\"1.0\"?>\n<openbox_config>\n  <theme>\n    <name>Clearlooks</name>\n    <font place=\"ActiveWindow\">\n      <name>sans</name>\n      <size>8</size>\n      <weight>bold</weight>\n    </font>\n    <font place=\"MenuItem\">\n      <name>sans</name>\n      <size>9</size>\n    </font>\n  </theme>\n  <name>outside</name>\n</openbox_config>\n";

#[test]
fn attribute_values() {
    assert_eq!(
        openbox::extract_attr_value("<font place=\"MenuItem\">", "place"),
        Some("MenuItem".to_string())
    );
    assert_eq!(openbox::extract_attr_value("<font place=\"\">", "place"), Some(String::new()));
    assert_eq!(openbox::extract_attr_value("<font place=\"Menu", "place"), None);
    assert_eq!(openbox::extract_attr_value("<font place='a'>", "place"), None);
    assert_eq!(
        openbox::extract_attr_value("replace=\"a\" place=\"b\"", "place"),
        Some("a".to_string())
    );
}

#[test]
fn tag_values() {
    assert_eq!(
        openbox::extract_tag_value("<name> Clear looks </name>", "name"),
        Some("Clear looks".to_string())
    );
    assert_eq!(openbox::extract_tag_value("<name></name>", "name"), Some(String::new()));
    assert_eq!(openbox::extract_tag_value("<name>a", "name"), None);
    assert_eq!(openbox::extract_tag_value("a</name>", "name"), None);
    assert_eq!(openbox::extract_tag_value("</name><name>", "name"), None);
    assert_eq!(
        openbox::extract_tag_value("<size>1</size><size>2</size>", "size"),
        Some("1".to_string())
    );
}

#[test]
fn fonts_are_scaled_and_the_theme_is_found() {
    let (rc, theme) = openbox::update_openbox_rc(RC, 3, "DejaVu Sans");
    assert_eq!(theme, Some("Clearlooks".to_string()));
    let expected = RC
        .replace("<name>sans</name>", "<name>DejaVu Sans</name>")
        .replace("<size>8</size>", "<size>30</size>")
        .replace("<size>9</size>", "<size>33</size>");
    assert_eq!(rc, expected);
}

#[test]
fn only_window_titles_have_the_smaller_size() {
    for (place, size) in [
        ("ActiveWindow", 20),
        ("InactiveWindow", 20),
        ("MenuHeader", 22),
        ("MenuItem", 22),
        ("ActiveOnScreenDisplay", 22),
        ("InactiveOnScreenDisplay", 22),
        ("Elsewhere", 22),
    ] {
        let content = format!("<font place=\"{}\">\n<size>1</size>\n</font>", place);
        let (rc, theme) = openbox::update_openbox_rc(&content, 2, "F");
        assert_eq!(rc, format!("<font place=\"{}\">\n<size>{}</size>\n</font>\n", place, size));
        assert_eq!(theme, None);
    }
    let (rc, _) = openbox::update_openbox_rc("<font>\n\t<size>1</size>\n", 1, "F");
    assert_eq!(rc, "<font>\n\t<size>11</size>\n");
}

#[test]
fn names_and_sizes_outside_a_font_are_left_alone() {
    let content = "<size>4</size>\n<name>n</name>\n<font>\n</font>\n<size>5</size>\n";
    let (rc, theme) = openbox::update_openbox_rc(content, 9, "F");
    assert_eq!(rc, content);
    assert_eq!(theme, None);
}

#[test]
fn only_the_first_name_in_the_theme_is_its_name() {
    let content = "<theme>\n<name>A</name>\n<name>B</name>\n</theme>\n<theme>\n<name>C</name>\n";
    let (rc, theme) = openbox::update_openbox_rc(content, 1, "F");
    assert_eq!(rc, content);
    assert_eq!(theme, Some("A".to_string()));
}

#[test]
fn the_name_of_a_font_is_not_that_of_the_theme() {
    let content = "<theme>\n<font>\n<name>x</name>\n</font>\n<name>T</name>\n";
    let (rc, theme) = openbox::update_openbox_rc(content, 1, "F");
    assert_eq!(rc, "<theme>\n<font>\n<name>F</name>\n</font>\n<name>T</name>\n");
    assert_eq!(theme, Some("T".to_string()));
}

#[test]
fn an_updated_rc_stays_as_it_is_and_keeps_its_theme() {
    let (once, theme) = openbox::update_openbox_rc(RC, 2, "DejaVu Sans");
    let (twice, theme_again) = openbox::update_openbox_rc(&once, 2, "DejaVu Sans");
    assert_eq!(once, twice);
    assert_eq!(theme, theme_again);
}

#[test]
fn paths_of_a_theme() {
    let paths = theme::openbox_theme_paths("Clearlooks");
    assert_eq!(paths.user, "root/.themes/Clearlooks/openbox-3/themerc");
    assert_eq!(paths.system, "usr/share/themes/Clearlooks/openbox-3/themerc");
}

#[test]
fn a_theme_is_scaled() {
    assert_eq!(
        theme::scale_theme("# t\nbutton.width:16\npadding.width: 2\n", 2),
        "# t\nbutton.width: 36\npadding.width: 2\nbutton.height: 36\ntitle.height: 44\n"
    );
}

#[test]
fn the_theme_of_the_user_goes_first() {
    let steps = theme::update_openbox_theme("T", 1, Some("a: 1"), Some("b: 2"));
    assert_eq!(
        format!("{:?}", steps),
        "[Step { op: CreateDir { path: \"root/.themes/T/openbox-3\" }, on_error: Ignore }, \
         Step { op: Write { path: \"root/.themes/T/openbox-3/themerc\", \
         content: \"a: 1\\nbutton.width: 18\\nbutton.height: 18\\ntitle.height: 22\\n\" }, \
         on_error: Abort(\"Failed to write openbox theme file\") }]"
    );
    let from_system = theme::update_openbox_theme("T", 1, None, Some("b: 2"));
    assert_eq!(from_system.len(), 2);
    assert!(format!("{:?}", from_system).contains("content: \"b: 2\\nbutton.width"));
}

#[test]
fn a_missing_or_empty_theme_is_left_alone() {
    assert!(theme::update_openbox_theme("T", 1, None, None).is_empty());
    assert!(theme::update_openbox_theme("T", 1, Some(""), Some("b: 2")).is_empty());
    assert!(theme::update_openbox_theme("T", 1, None, Some("")).is_empty());
}
