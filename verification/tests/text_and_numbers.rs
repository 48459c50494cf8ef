use localdesktop::decimal;
use localdesktop::message;
use localdesktop::text;

fn chars(s: &str) -> Vec<char> {
    s.chars().collect()
}

fn string(cs: &[char]) -> String {
    cs.iter().collect()
}

#[test]
fn white_space_is_what_unicode_says() {
    for n in 0u32..=0x10ffff {
        if let Some(c) = char::from_u32(n) {
            let listed = (0x09..=0x0d).contains(&n)
                || (0x2000..=0x200a).contains(&n)
                || [0x20, 0x85, 0xa0, 0x1680, 0x2028, 0x2029, 0x202f, 0x205f, 0x3000].contains(&n);
            assert_eq!(text::count_white(&[c]) == 1, listed, "{:#x}", n);
        }
    }
}

#[test]
fn strings_and_characters_round_trip() {
    for s in ["", "a", "über ✅\n", "\u{10ffff}\0"] {
        assert_eq!(text::to_chars(s), chars(s));
        assert_eq!(text::from_chars(&chars(s)), s);
    }
    let mut out = "ab".to_string();
    text::push_chars(&mut out, &['c', '✅']);
    assert_eq!(out, "abc✅");
}

#[test]
fn trimming_agrees_with_std() {
    for s in ["", " ", "a", " a ", "\t\u{3000}x y\u{a0}\n", "\u{200b}z", "  \r\n"] {
        let cs = chars(s);
        assert_eq!(string(text::trimmed_start(&cs)), s.trim_start());
        assert_eq!(string(text::trimmed_end(&cs)), s.trim_end());
        assert_eq!(string(text::trimmed(&cs)), s.trim());
        assert_eq!(
            string(text::leading_white(&cs)),
            s[..s.len() - s.trim_start().len()]
        );
    }
}

#[test]
fn lines_agree_with_std() {
    for s in [
        "", "\n", "a", "a\n", "a\r\nb", "a\r\r\nb\r", "\r", "\r\n", "a\n\nb\n\n", "a\rb\n",
    ] {
        let expected: Vec<&str> = s.lines().collect();
        assert_eq!(text::split_lines(s), expected, "{:?}", s);
    }
}

#[test]
fn joined_lines_end_in_a_line_feed() {
    assert_eq!(text::lines_to_file(&vec![]), "\n");
    assert_eq!(text::lines_to_file(&vec!["a".to_string()]), "a\n");
    assert_eq!(
        text::lines_to_file(&vec!["a".to_string(), String::new(), "b".to_string()]),
        "a\n\nb\n"
    );
}

#[test]
fn searching_agrees_with_std() {
    let cases = [("", ""), ("abc", ""), ("", "a"), ("aab", "ab"), ("abab", "ab"), ("ab", "abc")];
    for (s, p) in cases {
        let found = text::find_chars(&chars(s), &chars(p));
        assert_eq!(found, s.find(p), "{:?} in {:?}", p, s);
        assert_eq!(text::starts_with(&chars(s), p), s.starts_with(p));
    }
}

#[test]
fn splitting_agrees_with_std() {
    for s in ["", "=", "a=b=c", "abc", "==", "a="] {
        let cs = chars(s);
        let split = text::split_at_first(&cs, '=').map(|(a, b)| (string(a), string(b)));
        let expected = s.split_once('=').map(|(a, b)| (a.to_string(), b.to_string()));
        assert_eq!(split, expected);
    }
}

#[test]
fn case_is_ignored_for_ascii_only() {
    let cases = [("General", "GENERAL"), ("ä", "Ä"), ("[", "{"), ("a", "ab"), ("Zz", "zZ"), ("@", "`")];
    for (a, b) in cases {
        assert_eq!(
            text::same_chars_ignoring_case(&chars(a), &chars(b)),
            a.eq_ignore_ascii_case(b),
            "{} {}",
            a,
            b
        );
    }
    for n in 0u32..0x300 {
        if let Some(c) = char::from_u32(n) {
            assert_eq!(text::lower(c), c.to_ascii_lowercase());
        }
    }
}

#[test]
fn equality_of_texts() {
    assert!(text::same_text("", ""));
    assert!(text::same_text("place", "place"));
    assert!(!text::same_text("place", "Place"));
    assert!(!text::same_text("place", "places"));
}

#[test]
fn numbers_are_written_as_std_writes_them() {
    for n in [0, 1, 9, 10, 96, 100, 1234567890, -1, -10, i32::MAX, i32::MIN] {
        assert_eq!(decimal::signed_text(n), n.to_string());
    }
    let mut out = "n=".to_string();
    decimal::push_unsigned(&mut out, u64::MAX);
    assert_eq!(out, format!("n={}", u64::MAX));
}

#[test]
fn messages_and_what_happens_when_they_are_lost() {
    assert_eq!(
        format!("{:?}", message::emit_setup_error("e".to_string())),
        "Notice { message: Error(\"e\"), on_lost: Ignore }"
    );
    assert_eq!(
        format!("{:?}", message::emit_progress("p".to_string())),
        "Notice { message: Progress(\"p\"), on_lost: Ignore }"
    );
    assert_eq!(
        format!("{:?}", message::emit_progress_or("p".to_string(), "f")),
        "Notice { message: Progress(\"p\"), on_lost: Abort(\"f\") }"
    );
}
