use localdesktop::ini;

fn one(key: &'static str, value: &str) -> [(&'static str, String); 1] {
    [(key, value.to_string())]
}

#[test]
fn a_key_of_the_section_is_replaced() {
    let content = "[General]\n  Theme = light\nwindow_manager=xfwm4\n[Other]\nwindow_manager=x\n";
    assert_eq!(
        ini::update_ini_section(content, "General", &one("window_manager", "openbox")),
        "[General]\n  Theme = light\nwindow_manager=openbox\n[Other]\nwindow_manager=x\n"
    );
}

#[test]
fn a_missing_key_stands_at_the_end_of_its_section() {
    assert_eq!(
        ini::update_ini_section("[A]\nx=1\n\n[B]\ny=2\n", "A", &one("z", "3")),
        "[A]\nx=1\n\nz=3\n[B]\ny=2\n"
    );
    assert_eq!(
        ini::update_ini_section("[B]\n[A]\nx=1", "A", &one("z", "3")),
        "[B]\n[A]\nx=1\nz=3\n"
    );
}

#[test]
fn a_missing_section_stands_at_the_end_of_the_file() {
    assert_eq!(
        ini::update_ini_section("", "Environment", &one("GDK_SCALE", "2")),
        "[Environment]\nGDK_SCALE=2\n"
    );
    assert_eq!(
        ini::update_ini_section("[A]\nx=1\n", "Environment", &one("GDK_SCALE", "2")),
        "[A]\nx=1\n\n[Environment]\nGDK_SCALE=2\n"
    );
}

#[test]
fn case_and_white_space_of_names_make_no_difference() {
    assert_eq!(
        ini::update_ini_section(" [ gEnErAl ] \n\tWindow_Manager = a\n", "General", &one("window_manager", "b")),
        " [ gEnErAl ] \n\tWindow_Manager=b\n"
    );
}

#[test]
fn comments_are_no_keys() {
    assert_eq!(
        ini::update_ini_section("[A]\n#x=1\n ;x=2\nx\n", "A", &one("x", "3")),
        "[A]\n#x=1\n ;x=2\nx\nx=3\n"
    );
}

#[test]
fn keys_before_any_section_are_left_alone() {
    assert_eq!(
        ini::update_ini_section("x=1\n[A]\n", "A", &one("x", "2")),
        "x=1\n[A]\nx=2\n"
    );
}

#[test]
fn a_section_that_stands_twice() {
    assert_eq!(
        ini::update_ini_section("[A]\nx=1\n[B]\n[A]\nx=2\n", "A", &[("x", "9".to_string()), ("y", "8".to_string())]),
        "[A]\nx=9\ny=8\n[B]\n[A]\nx=9\ny=8\n"
    );
}

#[test]
fn only_the_first_of_two_equal_keys_counts() {
    assert_eq!(
        ini::update_ini_section("[A]\nX=0\n", "A", &[("x", "1".to_string()), ("X", "2".to_string())]),
        "[A]\nX=1\nX=2\n"
    );
}

#[test]
fn a_value_may_hold_an_equals_sign() {
    assert_eq!(
        ini::update_ini_section("[A]\nk=a=b\n", "A", &one("k", "c=d")),
        "[A]\nk=c=d\n"
    );
}

#[test]
fn an_empty_section_name() {
    assert_eq!(ini::update_ini_section("[]\n", "", &one("k", "v")), "[]\nk=v\n");
}

#[test]
fn updating_twice_gives_the_same_ini_file() {
    let updates = [("GDK_SCALE", "2".to_string()), ("QT_SCALE_FACTOR", "2".to_string())];
    let content = "[General]\na=1\n[environment]\n gdk_scale = 1\n[Last]\nb=2";
    let once = ini::update_ini_section(content, "Environment", &updates);
    assert_eq!(
        once,
        "[General]\na=1\n[environment]\n gdk_scale=2\nQT_SCALE_FACTOR=2\n[Last]\nb=2\n"
    );
    assert_eq!(ini::update_ini_section(&once, "Environment", &updates), once);
}

#[test]
fn every_old_line_keeps_its_order() {
    let content = "# top\n[A]\nk=1\n\n# mid\n[B]\nk=2\n";
    let updated = ini::update_ini_section(content, "A", &[("new", "1".to_string())]);
    let mut rest = updated.lines();
    for line in content.lines() {
        assert!(rest.any(|l| l == line), "{}", line);
    }
}

#[test]
fn other_sections_keep_their_settings() {
    let content = "[A]\nk=1\n[B]\nk=2\n[C]\nk=3\n";
    let updated = ini::update_ini_section(content, "B", &one("k", "9"));
    assert_eq!(updated, "[A]\nk=1\n[B]\nk=9\n[C]\nk=3\n");
}

fn both_orders(
    content: &str,
    a: &str,
    ua: &[(&str, String)],
    b: &str,
    ub: &[(&str, String)],
) -> (String, String) {
    (
        ini::update_ini_section(&ini::update_ini_section(content, a, ua), b, ub),
        ini::update_ini_section(&ini::update_ini_section(content, b, ub), a, ua),
    )
}

#[test]
fn the_order_of_updates_to_two_sections_makes_no_difference() {
    let ua = [("x", "1".to_string()), (" odd", "2".to_string()), ("", "3".to_string())];
    let ub = [("X", "4".to_string()), ("#y", "5".to_string())];
    for content in [
        "[A]\nx=0\n[B]\n x = 9\n",
        "[b]\n\n[a]\n",
        "x=7\r\r\n[A]\r\n;c\n[C]\nx=1\n[B]\nx\r\r\n[A]\nX=5\r\r\n",
    ] {
        let (one, other) = both_orders(content, "A", &ua, "B", &ub);
        assert_eq!(one, other);
    }
    assert_eq!(
        both_orders("[A]\nx=0\n[B]\n x = 9\n", "A", &ua, "B", &ub).0,
        "[A]\nx=1\n odd=2\n=3\n[B]\n x=4\n#y=5\n"
    );
}

#[test]
fn the_order_makes_a_difference_where_a_section_is_missing() {
    let (one, other) = both_orders("[A]\n", "A", &one("x", "1"), "B", &one("y", "2"));
    assert_eq!(one, "[A]\nx=1\n\n[B]\ny=2\n");
    assert_eq!(other, "[A]\n\nx=1\n[B]\ny=2\n");
}

#[test]
fn a_carriage_return_at_the_end_of_a_value_goes_with_the_next_update() {
    let (one, other) = both_orders("[A]\n[B]\n", "A", &one("x", "1\r"), "B", &one("y", "2"));
    assert_eq!(one, "[A]\nx=1\n[B]\ny=2\n");
    assert_eq!(other, "[A]\nx=1\r\n[B]\ny=2\n");
}
