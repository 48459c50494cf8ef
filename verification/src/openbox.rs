//! The configuration of the Openbox window manager, `rc.xml`.

use crate::decimal;
use crate::text;
use vstd::prelude::*;

verus! {

/// The start of an attribute, up to its value.
pub open spec fn attr_start(attr: Seq<char>) -> Seq<char> {
    attr.push('=').push('"')
}

/// The value of an attribute: what stands between the quotes behind its name.
pub open spec fn attr_value(line: Seq<char>, attr: Seq<char>) -> Option<Seq<char>> {
    match text::find(line, attr_start(attr)) {
        Some(i) => match text::split_once(line.skip(i + attr_start(attr).len()), '"') {
            Some((value, _)) => Some(value),
            None => None,
        },
        None => None,
    }
}

/// The opening tag of an element.
pub open spec fn open_tag(tag: Seq<char>) -> Seq<char> {
    seq!['<'] + tag.push('>')
}

/// The closing tag of an element.
pub open spec fn close_tag(tag: Seq<char>) -> Seq<char> {
    seq!['<', '/'] + tag.push('>')
}

/// What stands in an element, without the white space at its ends. The element has to open and
/// close in this line.
pub open spec fn tag_value(line: Seq<char>, tag: Seq<char>) -> Option<Seq<char>> {
    match (text::find(line, open_tag(tag)), text::find(line, close_tag(tag))) {
        (Some(i), Some(end)) => {
            let start = i + open_tag(tag).len();
            if end < start {
                None
            } else {
                Some(text::trim(line.subrange(start, end)))
            }
        },
        _ => None,
    }
}

/// Where in `rc.xml` a line stands.
pub struct RcState {
    /// In the element `theme`.
    pub in_theme: bool,
    /// In an element `font`.
    pub in_font: bool,
    /// The attribute `place` of that element.
    pub font_place: Option<Seq<char>>,
    /// The name of the theme, once it was found.
    pub theme_name: Option<Seq<char>>,
}

/// The line opens or closes an element `theme` or `font`.
pub open spec fn is_marker(line: Seq<char>) -> bool {
    let t = text::trim(line);
    ||| "<theme>"@.is_prefix_of(t)
    ||| "</theme>"@.is_prefix_of(t)
    ||| "<font"@.is_prefix_of(t)
    ||| "</font>"@.is_prefix_of(t)
}

/// The state behind one more line.
pub open spec fn rc_next(st: RcState, line: Seq<char>) -> RcState {
    let t = text::trim(line);
    if "<theme>"@.is_prefix_of(t) {
        RcState { in_theme: true, ..st }
    } else if "</theme>"@.is_prefix_of(t) {
        RcState { in_theme: false, ..st }
    } else if "<font"@.is_prefix_of(t) {
        RcState { in_font: true, font_place: attr_value(t, "place"@), ..st }
    } else if "</font>"@.is_prefix_of(t) {
        RcState { in_font: false, font_place: None, ..st }
    } else if st.in_theme && !st.in_font && st.theme_name is None {
        RcState { theme_name: tag_value(t, "name"@), ..st }
    } else {
        st
    }
}

/// The state behind these lines.
pub open spec fn rc_state(ls: Seq<Seq<char>>) -> RcState
    decreases ls.len(),
{
    if ls.len() == 0 {
        RcState { in_theme: false, in_font: false, font_place: None, theme_name: None }
    } else {
        rc_next(rc_state(ls.drop_last()), ls.last())
    }
}

/// The font size for a place: window titles have a smaller one than all else.
pub open spec fn font_size(place: Option<Seq<char>>, scale: int) -> int {
    if place == Some("ActiveWindow"@) || place == Some("InactiveWindow"@) {
        10 * scale
    } else {
        11 * scale
    }
}

/// A line that holds an element.
pub open spec fn element(indent: Seq<char>, tag: Seq<char>, value: Seq<char>) -> Seq<char> {
    indent + open_tag(tag) + value + close_tag(tag)
}

/// The line holds the name or the size of a font.
pub open spec fn sets_font(st: RcState, line: Seq<char>, tag: Seq<char>) -> bool {
    !is_marker(line) && st.in_font && tag_value(text::trim(line), tag) is Some
}

/// A line with the name or the size of a font replaced.
pub open spec fn rc_line(
    st: RcState,
    line: Seq<char>,
    scale: int,
    font_name: Seq<char>,
) -> Seq<char> {
    if sets_font(st, line, "name"@) {
        element(text::indent(line), "name"@, font_name)
    } else if sets_font(st, line, "size"@) {
        element(text::indent(line), "size"@, decimal::decimal(font_size(st.font_place, scale)))
    } else {
        line
    }
}

/// The lines of `rc.xml` with names and sizes of all fonts replaced.
pub open spec fn rc_lines(ls: Seq<Seq<char>>, scale: int, font_name: Seq<char>) -> Seq<Seq<char>> {
    Seq::new(ls.len(), |i: int| rc_line(rc_state(ls.take(i)), ls[i], scale, font_name))
}

/// The text of `rc.xml` with names and sizes of all fonts replaced.
pub open spec fn rc_file(content: Seq<char>, scale: int, font_name: Seq<char>) -> Seq<char> {
    text::file_text(rc_lines(text::lines(content), scale, font_name))
}

/// The name of the theme that `rc.xml` chooses.
pub open spec fn rc_theme(content: Seq<char>) -> Option<Seq<char>> {
    rc_state(text::lines(content)).theme_name
}

/// The view of an optional string.
pub open spec fn opt_text(s: Option<String>) -> Option<Seq<char>> {
    match s {
        Some(t) => Some(t@),
        None => None,
    }
}

/// The value of an attribute in a line.
fn attr_value_chars(line: &[char], attr: &str) -> (r: Option<String>)
    ensures
        opt_text(r) == attr_value(line@, attr@),
{
    let mut needle = text::to_chars(attr);
    needle.push('=');
    needle.push('"');
    assert(needle@ == attr_start(attr@));
    match text::find_chars(line, needle.as_slice()) {
        Some(i) => {
            let rest = vstd::slice::slice_subrange(line, i + needle.len(), line.len());
            match text::split_at_first(rest, '"') {
                Some((value, _)) => Some(text::from_chars(value)),
                None => None,
            }
        },
        None => None,
    }
}

/// The value of an attribute in a line.
pub fn extract_attr_value(line: &str, attr: &str) -> (r: Option<String>)
    ensures
        opt_text(r) == attr_value(line@, attr@),
{
    let cs = text::to_chars(line);
    attr_value_chars(cs.as_slice(), attr)
}

/// Appends an opening tag.
fn push_open_tag(out: &mut Vec<char>, tag: &str)
    ensures
        final(out)@ == old(out)@ + open_tag(tag@),
{
    let mut name = text::to_chars(tag);
    out.push('<');
    out.append(&mut name);
    out.push('>');
    assert(out@ == old(out)@ + open_tag(tag@));
}

/// Appends a closing tag.
fn push_close_tag(out: &mut Vec<char>, tag: &str)
    ensures
        final(out)@ == old(out)@ + close_tag(tag@),
{
    let mut name = text::to_chars(tag);
    out.push('<');
    out.push('/');
    out.append(&mut name);
    out.push('>');
    assert(out@ == old(out)@ + close_tag(tag@));
}

/// What stands in an element of a line.
fn tag_value_chars(line: &[char], tag: &str) -> (r: Option<String>)
    ensures
        opt_text(r) == tag_value(line@, tag@),
{
    let mut open: Vec<char> = Vec::new();
    push_open_tag(&mut open, tag);
    let mut close: Vec<char> = Vec::new();
    push_close_tag(&mut close, tag);
    assert(open@ == open_tag(tag@));
    assert(close@ == close_tag(tag@));
    let start: usize = match text::find_chars(line, open.as_slice()) {
        Some(i) => i + open.len(),
        None => {
            return None;
        },
    };
    let end: usize = match text::find_chars(line, close.as_slice()) {
        Some(i) => i,
        None => {
            return None;
        },
    };
    if end < start {
        return None;
    }
    Some(text::from_chars(text::trimmed(vstd::slice::slice_subrange(line, start, end))))
}

/// What stands in an element of a line.
pub fn extract_tag_value(line: &str, tag: &str) -> (r: Option<String>)
    ensures
        opt_text(r) == tag_value(line@, tag@),
{
    let cs = text::to_chars(line);
    tag_value_chars(cs.as_slice(), tag)
}

/// A line that holds an element.
fn element_line(indent: &[char], tag: &str, value: &str) -> (r: String)
    ensures
        r@ == element(indent@, tag@, value@),
{
    let mut open: Vec<char> = Vec::new();
    push_open_tag(&mut open, tag);
    let mut close: Vec<char> = Vec::new();
    push_close_tag(&mut close, tag);
    let mut r = String::new();
    text::push_chars(&mut r, indent);
    text::push_chars(&mut r, open.as_slice());
    r.append(value);
    text::push_chars(&mut r, close.as_slice());
    assert(r@ == element(indent@, tag@, value@));
    r
}

/// Whether a font stands in a window title.
fn is_title_place(place: &Option<String>) -> (r: bool)
    ensures
        r == (opt_text(*place) == Some("ActiveWindow"@) || opt_text(*place) == Some(
            "InactiveWindow"@,
        )),
{
    match place {
        Some(p) => text::same_text(p.as_str(), "ActiveWindow") || text::same_text(
            p.as_str(),
            "InactiveWindow",
        ),
        None => false,
    }
}

/// The text of `rc.xml` with the names and sizes of all fonts replaced, and the name of the theme
/// that it chooses.
pub fn update_openbox_rc(content: &str, scale: i32, font_name: &str) -> (r: (
    String,
    Option<String>,
))
    requires
        i32::MIN <= 11 * scale <= i32::MAX,
    ensures
        r.0@ == rc_file(content@, scale as int, font_name@),
        opt_text(r.1) == rc_theme(content@),
{
    let active_size: i32 = 10 * scale;
    let menu_size: i32 = 11 * scale;
    let ls = text::split_lines(content);
    let ghost all = text::texts(ls@);
    let mut out: Vec<String> = Vec::new();
    let mut in_font: bool = false;
    let mut in_theme: bool = false;
    let mut font_place: Option<String> = None;
    let mut theme_name: Option<String> = None;
    let mut i: usize = 0;
    while i < ls.len()
        invariant
            i <= ls.len(),
            all == text::texts(ls@),
            active_size == 10 * scale,
            menu_size == 11 * scale,
            rc_state(all.take(i as int)) == (RcState {
                in_theme,
                in_font,
                font_place: opt_text(font_place),
                theme_name: opt_text(theme_name),
            }),
            text::texts(out@) == rc_lines(all, scale as int, font_name@).take(i as int),
        decreases ls.len() - i,
    {
        let ghost st = rc_state(all.take(i as int));
        let ghost line = all[i as int];
        let ghost prior = out@;
        let raw = text::to_chars(ls[i].as_str());
        let cs: &[char] = raw.as_slice();
        let t = text::trimmed(cs);
        let mut new_line: Option<String> = None;
        if text::starts_with(t, "<theme>") {
            in_theme = true;
        } else if text::starts_with(t, "</theme>") {
            in_theme = false;
        } else if text::starts_with(t, "<font") {
            in_font = true;
            font_place = attr_value_chars(t, "place");
        } else if text::starts_with(t, "</font>") {
            in_font = false;
            font_place = None;
        } else if in_theme && !in_font && theme_name.is_none() {
            theme_name = tag_value_chars(t, "name");
        } else if in_font {
            if tag_value_chars(t, "name").is_some() {
                new_line = Some(element_line(text::leading_white(cs), "name", font_name));
            } else if tag_value_chars(t, "size").is_some() {
                let size: i32 = if is_title_place(&font_place) {
                    active_size
                } else {
                    menu_size
                };
                let digits = decimal::signed_text(size);
                new_line = Some(element_line(text::leading_white(cs), "size", digits.as_str()));
            }
        }
        let line_out = match new_line {
            Some(l) => l,
            None => text::from_chars(cs),
        };
        i += 1;
        proof {
            assert(all.take(i as int).drop_last() == all.take(i - 1));
            assert(all.take(i as int).last() == line);
            assert(line_out@ == rc_line(st, line, scale as int, font_name@));
        }
        out.push(line_out);
        assert(text::texts(out@) =~= text::texts(prior).push(line_out@));
    }
    assert(all.take(i as int) == all);
    assert(text::texts(out@) =~= rc_lines(all, scale as int, font_name@));
    (text::lines_to_file(&out), theme_name)
}

} // verus!
