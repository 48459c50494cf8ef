//! What holds of an updated `rc.xml`: the fonts are set, the rest stays, and a second update finds
//! nothing to do.

use crate::decimal;
use crate::facts;
use crate::openbox;
use crate::openbox::RcState;
use crate::text;
use vstd::prelude::*;

verus! {

/// The line keeps its text.
pub open spec fn stays(st: RcState, line: Seq<char>) -> bool {
    !openbox::sets_font(st, line, "name"@) && !openbox::sets_font(st, line, "size"@)
}

/// No line that stays as it is ends in a stray carriage return.
pub open spec fn no_stray_cr(ls: Seq<Seq<char>>) -> bool {
    forall|i: int|
        0 <= i < ls.len() && stays(openbox::rc_state(ls.take(i)), #[trigger] ls[i])
            ==> text::strip_cr(ls[i]) == ls[i]
}

/// A character that does not occur keeps a word with it from occurring.
proof fn lemma_no_occurrence(s: Seq<char>, p: Seq<char>, k: int)
    requires
        0 <= k < p.len(),
        !s.contains(p[k]),
    ensures
        text::find(s, p) is None,
{
    if exists|i: int| text::occurs_at(s, p, i) {
        let i = choose|i: int| text::occurs_at(s, p, i);
        assert(s[i + k] == s.subrange(i, i + p.len())[k]);
    }
}

/// The characters of the two tags.
proof fn lemma_tag_chars(tag: Seq<char>)
    ensures
        ({
            let open = openbox::open_tag(tag);
            let close = openbox::close_tag(tag);
            &&& open.len() == tag.len() + 2
            &&& open[0] == '<'
            &&& open.last() == '>'
            &&& forall|k: int| 0 < k < open.len() - 1 ==> #[trigger] open[k] == tag[k - 1]
            &&& close.len() == tag.len() + 3
            &&& close[0] == '<'
            &&& close[1] == '/'
            &&& close.last() == '>'
            &&& forall|k: int| 1 < k < close.len() - 1 ==> #[trigger] close[k] == tag[k - 2]
        }),
{
}

/// A word stands where its characters stand.
proof fn lemma_occurs_chars(s: Seq<char>, p: Seq<char>, i: int)
    ensures
        text::occurs_at(s, p, i) <==> 0 <= i && i + p.len() <= s.len() && forall|k: int|
            0 <= k < p.len() ==> s[i + k] == #[trigger] p[k],
{
    if 0 <= i && i + p.len() <= s.len() {
        if text::occurs_at(s, p, i) {
            assert forall|k: int| 0 <= k < p.len() implies s[i + k] == #[trigger] p[k] by {
                assert(s.subrange(i, i + p.len())[k] == s[i + k]);
            }
        }
        if forall|k: int| 0 <= k < p.len() ==> s[i + k] == #[trigger] p[k] {
            assert(s.subrange(i, i + p.len()) =~= p);
        }
    }
}

/// A word that starts like no other part of `open` and `close` stands behind the value, and not
/// before it.
proof fn lemma_close_place(open: Seq<char>, value: Seq<char>, close: Seq<char>, j: int)
    requires
        open.len() >= 2,
        open[1] != close[1],
        close.len() >= 2,
        forall|k: int| 0 < k < open.len() ==> #[trigger] open[k] != close[0],
        forall|k: int| 0 < k < close.len() ==> #[trigger] close[k] != close[0],
        text::occurs_at(open + value + close, close, j),
    ensures
        open.len() <= j,
        text::find(value, close) is None ==> j >= open.len() + value.len(),
{
    let t = open + value + close;
    let n = open.len() as int;
    let m = n + value.len();
    lemma_occurs_chars(t, close, j);
    assert(t[j + 0] == close[0]);
    assert(t[j + 1] == close[1]);
    if j < n {
        assert(t[j] == open[j]);
        assert(j == 0);
        assert(t[1] == open[1]);
        assert(false);
    }
    if text::find(value, close) is None && j < m {
        if j + close.len() <= m {
            assert forall|k: int| 0 <= k < close.len() implies value[j - n + k]
                == #[trigger] close[k] by {
                assert(t[j + k] == value[j - n + k]);
            }
            lemma_occurs_chars(value, close, j - n);
            assert(text::occurs_at(value, close, j - n));
        } else {
            let k = m - j;
            assert(t[m] == close[0]);
            assert(t[j + k] == close[k]);
        }
        assert(false);
    }
}

/// Where the tags around a value are found.
#[verifier::rlimit(30)]
proof fn lemma_find_tags(open: Seq<char>, value: Seq<char>, close: Seq<char>)
    requires
        open.len() >= 2,
        open[1] != close[1],
        close.len() >= 2,
        forall|k: int| 0 < k < open.len() ==> #[trigger] open[k] != close[0],
        forall|k: int| 0 < k < close.len() ==> #[trigger] close[k] != close[0],
    ensures
        ({
            let t = open + value + close;
            &&& text::find(t, open) == Some(0int)
            &&& text::find(t, close) is Some
            &&& text::find(t, close).unwrap() >= open.len()
            &&& text::find(value, close) is None ==> t.subrange(
                open.len() as int,
                text::find(t, close).unwrap(),
            ) == value
        }),
{
    let t = open + value + close;
    let n = open.len() as int;
    let m = n + value.len();
    assert(t.subrange(0, n) =~= open);
    assert(text::occurs_at(t, open, 0));
    text::lemma_find(t, open, 0);
    assert(t.subrange(m, m + close.len()) =~= close);
    assert(text::occurs_at(t, close, m));
    text::lemma_find_some(t, close, m);
    let end = text::find(t, close).unwrap();
    lemma_close_place(open, value, close, end);
    if text::find(value, close) is None {
        assert(t.subrange(n, m) =~= value);
    }
}

/// What is read from an element.
proof fn lemma_element_value(tag: Seq<char>, value: Seq<char>)
    requires
        tag.len() > 0,
        !tag.contains('<'),
        tag[0] != '/',
    ensures
        ({
            let t = openbox::open_tag(tag) + value + openbox::close_tag(tag);
            &&& openbox::tag_value(t, tag) is Some
            &&& text::find(value, openbox::close_tag(tag)) is None ==> openbox::tag_value(t, tag)
                == Some(text::trim(value))
        }),
{
    let open = openbox::open_tag(tag);
    let close = openbox::close_tag(tag);
    lemma_tag_chars(tag);
    assert forall|k: int| 0 < k < open.len() implies #[trigger] open[k] != close[0] by {
        if k < open.len() - 1 {
            assert(tag.contains(tag[k - 1]));
        }
    }
    assert forall|k: int| 0 < k < close.len() implies #[trigger] close[k] != close[0] by {
        if 1 < k < close.len() - 1 {
            assert(tag.contains(tag[k - 2]));
        }
    }
    lemma_find_tags(open, value, close);
}

/// What is read from a line that holds an element.
proof fn lemma_element(w: Seq<char>, tag: Seq<char>, value: Seq<char>)
    requires
        facts::all_white(w),
        tag.len() > 0,
        !tag.contains('<'),
        tag[0] != '/',
    ensures
        ({
            let line = openbox::element(w, tag, value);
            let t = openbox::open_tag(tag) + value + openbox::close_tag(tag);
            &&& text::trim(line) == t
            &&& text::indent(line) == w
            &&& text::strip_cr(line) == line
            &&& openbox::tag_value(t, tag) is Some
            &&& text::find(value, openbox::close_tag(tag)) is None ==> openbox::tag_value(t, tag)
                == Some(text::trim(value))
        }),
{
    let open = openbox::open_tag(tag);
    let close = openbox::close_tag(tag);
    let line = openbox::element(w, tag, value);
    let t = open + value + close;
    let e = Seq::<char>::empty();
    lemma_tag_chars(tag);
    assert(t[0] == open[0]);
    assert(t.last() == close.last());
    assert(w + t + e =~= line);
    facts::lemma_trim_of(w, t, e);
    assert(line =~= w + t);
    facts::lemma_indent(w, t);
    assert(line.last() == close.last());
    lemma_element_value(tag, value);
}

/// A line with an element other than `theme` and `font` is no marker.
proof fn lemma_no_marker(w: Seq<char>, tag: Seq<char>, value: Seq<char>)
    requires
        facts::all_white(w),
        tag.len() > 0,
        !tag.contains('<'),
        tag[0] != '/',
        tag[0] != 't',
        tag[0] != 'f',
    ensures
        !openbox::is_marker(openbox::element(w, tag, value)),
{
    lemma_element(w, tag, value);
    let t = openbox::open_tag(tag) + value + openbox::close_tag(tag);
    assert(t[1] == tag[0]);
    reveal_strlit("<theme>");
    reveal_strlit("</theme>");
    reveal_strlit("<font");
    reveal_strlit("</font>");
    if "<theme>"@.is_prefix_of(t) {
        assert("<theme>"@[1] == t.subrange(0, "<theme>"@.len() as int)[1]);
    }
    if "</theme>"@.is_prefix_of(t) {
        assert("</theme>"@[1] == t.subrange(0, "</theme>"@.len() as int)[1]);
    }
    if "<font"@.is_prefix_of(t) {
        assert("<font"@[1] == t.subrange(0, "<font"@.len() as int)[1]);
    }
    if "</font>"@.is_prefix_of(t) {
        assert("</font>"@[1] == t.subrange(0, "</font>"@.len() as int)[1]);
    }
}

/// The tags `name` and `size` are plain words.
proof fn lemma_tags()
    ensures
        "name"@.len() == 4,
        "name"@[0] == 'n',
        !"name"@.contains('<'),
        !"name"@.contains('\n'),
        "size"@.len() == 4,
        "size"@[0] == 's',
        !"size"@.contains('<'),
        !"size"@.contains('n'),
        !"size"@.contains('\n'),
{
    reveal_strlit("name");
    reveal_strlit("size");
}

/// An element of one line stands in one line.
proof fn lemma_element_one_line(w: Seq<char>, tag: Seq<char>, value: Seq<char>, c: char)
    requires
        !w.contains(c),
        !tag.contains(c),
        !value.contains(c),
        c != '<',
        c != '>',
        c != '/',
    ensures
        !openbox::element(w, tag, value).contains(c),
{
    let line = openbox::element(w, tag, value);
    if line.contains(c) {
        let i = choose|i: int| 0 <= i < line.len() && line[i] == c;
        let a = w.len() as int;
        let b = a + openbox::open_tag(tag).len();
        let d = b + value.len();
        if i < a {
            assert(w[i] == c);
        } else if i < b {
            assert(openbox::open_tag(tag)[i - a] == c);
            if 0 < i - a < tag.len() + 1 {
                assert(tag[i - a - 1] == c);
            }
        } else if i < d {
            assert(value[i - b] == c);
        } else {
            assert(openbox::close_tag(tag)[i - d] == c);
            if 1 < i - d < tag.len() + 2 {
                assert(tag[i - d - 2] == c);
            }
        }
    }
}

/// A replaced name is read as the name.
proof fn lemma_name_line(st: RcState, w: Seq<char>, font_name: Seq<char>)
    requires
        facts::all_white(w),
        st.in_font,
    ensures
        ({
            let line = openbox::element(w, "name"@, font_name);
            &&& text::indent(line) == w
            &&& text::strip_cr(line) == line
            &&& openbox::rc_next(st, line) == st
            &&& openbox::sets_font(st, line, "name"@)
            &&& text::find(font_name, openbox::close_tag("name"@)) is None ==> openbox::tag_value(
                text::trim(line),
                "name"@,
            ) == Some(text::trim(font_name))
        }),
{
    lemma_tags();
    lemma_element(w, "name"@, font_name);
    lemma_no_marker(w, "name"@, font_name);
}

/// A replaced size is read as the size, and not as a name.
proof fn lemma_size_line(st: RcState, w: Seq<char>, n: int)
    requires
        facts::all_white(w),
        st.in_font,
    ensures
        ({
            let line = openbox::element(w, "size"@, decimal::decimal(n));
            &&& text::indent(line) == w
            &&& text::strip_cr(line) == line
            &&& openbox::rc_next(st, line) == st
            &&& !openbox::sets_font(st, line, "name"@)
            &&& openbox::sets_font(st, line, "size"@)
            &&& openbox::tag_value(text::trim(line), "size"@) == Some(decimal::decimal(n))
        }),
{
    let v = decimal::decimal(n);
    lemma_tags();
    decimal::lemma_decimal_chars(n);
    assert(!v.contains('<'));
    assert(!v.contains('n'));
    lemma_element(w, "size"@, v);
    lemma_no_marker(w, "size"@, v);
    lemma_tag_chars("size"@);
    lemma_tag_chars("name"@);
    lemma_no_occurrence(v, openbox::close_tag("size"@), 0);
    assert(!text::is_white_space(v[0])) by {
        assert(v.contains(v[0]));
    }
    assert(!text::is_white_space(v.last())) by {
        assert(v.contains(v.last()));
    }
    facts::lemma_trim_clean(v);
    let e = Seq::<char>::empty();
    let t = openbox::open_tag("size"@) + v + openbox::close_tag("size"@);
    lemma_element_one_line(e, "size"@, v, 'n');
    assert(openbox::element(e, "size"@, v) =~= t);
    assert(openbox::open_tag("name"@)[1] == "name"@[0]);
    lemma_no_occurrence(t, openbox::open_tag("name"@), 1);
}

/// A replaced line is read as the line it came from, and a second update leaves it as it is.
proof fn lemma_rc_line(st: RcState, line: Seq<char>, scale: int, font_name: Seq<char>)
    requires
        facts::one_line(line),
        facts::one_line(font_name),
    ensures
        ({
            let new_line = openbox::rc_line(st, line, scale, font_name);
            &&& facts::one_line(new_line)
            &&& openbox::rc_next(st, new_line) == openbox::rc_next(st, line)
            &&& openbox::rc_line(st, new_line, scale, font_name) == new_line
            &&& stays(st, line) ==> new_line == line
            &&& !stays(st, line) ==> text::strip_cr(new_line) == new_line
            &&& openbox::sets_font(st, line, "name"@) ==> openbox::sets_font(
                st,
                new_line,
                "name"@,
            ) && (text::find(font_name, openbox::close_tag("name"@)) is None ==> openbox::tag_value(
                text::trim(new_line),
                "name"@,
            ) == Some(text::trim(font_name)))
            &&& !openbox::sets_font(st, line, "name"@) && openbox::sets_font(st, line, "size"@)
                ==> openbox::tag_value(text::trim(new_line), "size"@) == Some(
                decimal::decimal(openbox::font_size(st.font_place, scale)),
            ) && openbox::sets_font(st, new_line, "size"@)
        }),
{
    let w = text::indent(line);
    facts::lemma_white_prefix(line);
    lemma_tags();
    assert(!w.contains('\n')) by {
        if w.contains('\n') {
            let i = choose|i: int| 0 <= i < w.len() && w[i] == '\n';
            assert(line[i] == '\n');
        }
    }
    if openbox::sets_font(st, line, "name"@) {
        lemma_name_line(st, w, font_name);
        lemma_element_one_line(w, "name"@, font_name, '\n');
    } else if openbox::sets_font(st, line, "size"@) {
        let n = openbox::font_size(st.font_place, scale);
        lemma_size_line(st, w, n);
        decimal::lemma_decimal_chars(n);
        assert(!decimal::decimal(n).contains('\n'));
        lemma_element_one_line(w, "size"@, decimal::decimal(n), '\n');
    }
}

/// A carriage return at the end of a line makes no difference to what is read from it.
proof fn lemma_strip_line(st: RcState, line: Seq<char>)
    ensures
        text::trim(text::strip_cr(line)) == text::trim(line),
        openbox::rc_next(st, text::strip_cr(line)) == openbox::rc_next(st, line),
        openbox::is_marker(text::strip_cr(line)) == openbox::is_marker(line),
{
    let s = text::strip_cr(line);
    facts::lemma_strip_cr(line);
    if s != line {
        let e = Seq::<char>::empty();
        assert(e + s + seq!['\r'] == line);
        facts::lemma_trim_around(e, s, seq!['\r']);
    }
}

/// The state behind updated lines is that behind the old ones.
proof fn lemma_state(ls: Seq<Seq<char>>, scale: int, font_name: Seq<char>, n: int)
    requires
        forall|i: int| 0 <= i < ls.len() ==> facts::one_line(#[trigger] ls[i]),
        facts::one_line(font_name),
        0 <= n <= ls.len(),
    ensures
        openbox::rc_state(text::stripped(openbox::rc_lines(ls, scale, font_name)).take(n))
            == openbox::rc_state(ls.take(n)),
    decreases n,
{
    let r = text::stripped(openbox::rc_lines(ls, scale, font_name));
    if n > 0 {
        lemma_state(ls, scale, font_name, n - 1);
        assert(r.take(n).drop_last() =~= r.take(n - 1));
        assert(ls.take(n).drop_last() =~= ls.take(n - 1));
        let st = openbox::rc_state(ls.take(n - 1));
        let line = ls[n - 1];
        lemma_rc_line(st, line, scale, font_name);
        lemma_strip_line(st, openbox::rc_line(st, line, scale, font_name));
        assert(r[n - 1] == text::strip_cr(openbox::rc_line(st, line, scale, font_name)));
    } else {
        assert(r.take(0) =~= Seq::<Seq<char>>::empty());
        assert(ls.take(0) =~= Seq::<Seq<char>>::empty());
    }
}

/// What is read from an updated file are the updated lines, without the carriage returns that
/// they may end in. A file of no line becomes one of an empty line.
proof fn lemma_read(content: Seq<char>, scale: int, font_name: Seq<char>)
    requires
        facts::one_line(font_name),
    ensures
        ({
            let ls = text::lines(content);
            let r = text::lines(openbox::rc_file(content, scale, font_name));
            if ls.len() > 0 {
                r == text::stripped(openbox::rc_lines(ls, scale, font_name))
            } else {
                r == seq![Seq::<char>::empty()] && openbox::rc_file(content, scale, font_name)
                    == text::file_text(seq![Seq::<char>::empty()])
            }
        }),
{
    let ls = text::lines(content);
    let o = openbox::rc_lines(ls, scale, font_name);
    facts::lemma_lines_one_line(content);
    if ls.len() > 0 {
        assert forall|i: int| 0 <= i < o.len() implies facts::one_line(#[trigger] o[i]) by {
            lemma_rc_line(openbox::rc_state(ls.take(i)), ls[i], scale, font_name);
        }
        facts::lemma_lines_of_file(o);
    } else {
        let e = Seq::<char>::empty();
        assert(o =~= Seq::<Seq<char>>::empty());
        assert(text::file_text(o) =~= seq!['\n']);
        assert(text::file_text(seq![e]) =~= seq!['\n']);
        facts::lemma_lines_of_file(seq![e]);
        assert(seq![e].map_values(|l: Seq<char>| text::strip_cr(l)) =~= seq![e]);
    }
}

/// An empty line changes nothing.
proof fn lemma_empty_line(scale: int, font_name: Seq<char>)
    ensures
        openbox::rc_state(seq![Seq::<char>::empty()]) == openbox::rc_state(
            Seq::<Seq<char>>::empty(),
        ),
        openbox::rc_lines(seq![Seq::<char>::empty()], scale, font_name)
            == seq![Seq::<char>::empty()],
{
    let e = Seq::<char>::empty();
    let one = seq![e];
    facts::lemma_trim_clean(e);
    reveal_strlit("<theme>");
    reveal_strlit("</theme>");
    reveal_strlit("<font");
    reveal_strlit("</font>");
    assert(one.drop_last() =~= Seq::<Seq<char>>::empty());
    assert(one.take(0) =~= Seq::<Seq<char>>::empty());
    assert(openbox::rc_lines(one, scale, font_name) =~= one);
}

/// An updated file chooses the same theme.
pub proof fn law_rc_keeps_theme(content: Seq<char>, scale: int, font_name: Seq<char>)
    requires
        facts::one_line(font_name),
    ensures
        openbox::rc_theme(openbox::rc_file(content, scale, font_name)) == openbox::rc_theme(
            content,
        ),
{
    let ls = text::lines(content);
    lemma_read(content, scale, font_name);
    facts::lemma_lines_one_line(content);
    if ls.len() > 0 {
        let r = text::stripped(openbox::rc_lines(ls, scale, font_name));
        lemma_state(ls, scale, font_name, ls.len() as int);
        assert(r.take(ls.len() as int) =~= r);
        assert(ls.take(ls.len() as int) =~= ls);
    } else {
        lemma_empty_line(scale, font_name);
        assert(ls =~= Seq::<Seq<char>>::empty());
    }
}

/// What is read from an updated file: it has as many lines; each line that gave the name of a font
/// gives the new name, and each that gave a size the size for its place; every other line is as it
/// was, but for a stray carriage return at its end.
pub proof fn law_rc_read_back(content: Seq<char>, scale: int, font_name: Seq<char>, i: int)
    requires
        facts::one_line(font_name),
        0 <= i < text::lines(content).len(),
    ensures
        ({
            let ls = text::lines(content);
            let r = text::lines(openbox::rc_file(content, scale, font_name));
            let st = openbox::rc_state(ls.take(i));
            &&& r.len() == ls.len()
            &&& openbox::rc_state(r.take(i)) == st
            &&& openbox::sets_font(st, ls[i], "name"@) ==> openbox::sets_font(st, r[i], "name"@)
                && (text::find(font_name, openbox::close_tag("name"@)) is None
                ==> openbox::tag_value(text::trim(r[i]), "name"@) == Some(text::trim(font_name)))
            &&& !openbox::sets_font(st, ls[i], "name"@) && openbox::sets_font(st, ls[i], "size"@)
                ==> openbox::tag_value(text::trim(r[i]), "size"@) == Some(
                decimal::decimal(openbox::font_size(st.font_place, scale)),
            )
            &&& stays(st, ls[i]) ==> r[i] == text::strip_cr(ls[i])
        }),
{
    let ls = text::lines(content);
    lemma_read(content, scale, font_name);
    facts::lemma_lines_one_line(content);
    lemma_state(ls, scale, font_name, i);
    let st = openbox::rc_state(ls.take(i));
    lemma_rc_line(st, ls[i], scale, font_name);
    let new_line = openbox::rc_line(st, ls[i], scale, font_name);
    let r = text::lines(openbox::rc_file(content, scale, font_name));
    assert(r[i] == text::strip_cr(new_line));
}

/// Updating the file again changes nothing, unless a line that stays as it is ends in a stray
/// carriage return.
pub proof fn law_rc_twice(content: Seq<char>, scale: int, font_name: Seq<char>)
    requires
        facts::one_line(font_name),
        no_stray_cr(text::lines(content)),
    ensures
        openbox::rc_file(openbox::rc_file(content, scale, font_name), scale, font_name)
            == openbox::rc_file(content, scale, font_name),
{
    let ls = text::lines(content);
    lemma_read(content, scale, font_name);
    facts::lemma_lines_one_line(content);
    if ls.len() > 0 {
        let o = openbox::rc_lines(ls, scale, font_name);
        let r = text::stripped(o);
        assert forall|i: int| 0 <= i < ls.len() implies #[trigger] openbox::rc_lines(
            r,
            scale,
            font_name,
        )[i] == o[i] by {
            lemma_state(ls, scale, font_name, i);
            let st = openbox::rc_state(ls.take(i));
            lemma_rc_line(st, ls[i], scale, font_name);
            assert(r[i] == o[i]);
        }
        assert(openbox::rc_lines(r, scale, font_name) =~= o);
    } else {
        lemma_empty_line(scale, font_name);
    }
}

} // verus!
