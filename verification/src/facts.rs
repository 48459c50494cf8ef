//! Facts about texts: what trimming leaves, and how lines come back from a file.

use crate::text;
use vstd::prelude::*;

verus! {

/// All characters are white space.
pub open spec fn all_white(s: Seq<char>) -> bool {
    forall|i: int| 0 <= i < s.len() ==> text::is_white_space(#[trigger] s[i])
}

/// The text neither starts nor ends with white space.
pub open spec fn clean(s: Seq<char>) -> bool {
    s.len() > 0 ==> !text::is_white_space(s[0]) && !text::is_white_space(s.last())
}

/// The text holds no line feed.
pub open spec fn one_line(s: Seq<char>) -> bool {
    !s.contains('\n')
}

/// `white_prefix` counts the white space up to the first other character.
pub proof fn lemma_white_prefix(s: Seq<char>)
    ensures
        text::white_prefix(s) <= s.len(),
        all_white(text::indent(s)),
        text::white_prefix(s) < s.len() ==> !text::is_white_space(
            s[text::white_prefix(s) as int],
        ),
        s == text::indent(s) + text::trim_start(s),
    decreases s.len(),
{
    if s.len() > 0 && text::is_white_space(s[0]) {
        lemma_white_prefix(s.drop_first());
        assert forall|i: int| 0 <= i < text::indent(s).len() implies text::is_white_space(
            #[trigger] text::indent(s)[i],
        ) by {
            if i > 0 {
                assert(text::indent(s)[i] == text::indent(s.drop_first())[i - 1]);
            }
        }
    }
    assert(s == text::indent(s) + text::trim_start(s));
}

/// White space before a text that starts with another character is its indent.
pub proof fn lemma_indent(w: Seq<char>, s: Seq<char>)
    requires
        all_white(w),
        s.len() > 0 ==> !text::is_white_space(s[0]),
    ensures
        text::white_prefix(w + s) == w.len(),
        text::indent(w + s) == w,
        text::trim_start(w + s) == s,
    decreases w.len(),
{
    let t = w + s;
    if w.len() > 0 {
        assert(t[0] == w[0]);
        assert(t.drop_first() == w.drop_first() + s);
        lemma_indent(w.drop_first(), s);
    } else {
        assert(t == s);
    }
    assert(text::indent(t) == w);
    assert(text::trim_start(t) == s);
}

/// `trim_end` leaves everything up to the last character that is no white space.
pub proof fn lemma_trim_end(s: Seq<char>)
    ensures
        text::trim_end(s).len() <= s.len(),
        text::trim_end(s) == s.take(text::trim_end(s).len() as int),
        all_white(s.skip(text::trim_end(s).len() as int)),
        text::trim_end(s).len() > 0 ==> !text::is_white_space(text::trim_end(s).last()),
    decreases s.len(),
{
    if s.len() > 0 && text::is_white_space(s.last()) {
        lemma_trim_end(s.drop_last());
        let n = text::trim_end(s).len() as int;
        assert(s.drop_last().take(n) == s.take(n));
        assert forall|i: int| 0 <= i < s.skip(n).len() implies text::is_white_space(
            #[trigger] s.skip(n)[i],
        ) by {
            if i < s.skip(n).len() - 1 {
                assert(s.skip(n)[i] == s.drop_last().skip(n)[i]);
            }
        }
    } else {
        assert(s.take(s.len() as int) == s);
    }
}

/// White space behind a text that ends in another character is what `trim_end` cuts off.
pub proof fn lemma_trim_end_white(s: Seq<char>, w: Seq<char>)
    requires
        all_white(w),
        s.len() > 0 ==> !text::is_white_space(s.last()),
    ensures
        text::trim_end(s + w) == s,
    decreases w.len(),
{
    if w.len() > 0 {
        assert((s + w).last() == w.last());
        assert((s + w).drop_last() == s + w.drop_last());
        lemma_trim_end_white(s, w.drop_last());
    } else {
        assert(s + w == s);
    }
}

/// What `trim` leaves is clean, and stands in the text behind its indent.
pub proof fn lemma_trim(s: Seq<char>)
    ensures
        clean(text::trim(s)),
        text::white_prefix(s) + text::trim(s).len() <= s.len(),
        text::trim(s) == s.subrange(
            text::white_prefix(s) as int,
            (text::white_prefix(s) + text::trim(s).len()) as int,
        ),
        text::trim(s).len() == 0 <==> text::trim_start(s).len() == 0,
        forall|c: char| text::trim(s).contains(c) ==> s.contains(c),
{
    lemma_white_prefix(s);
    let t = text::trim_start(s);
    lemma_trim_end(t);
    let n = text::trim(s).len() as int;
    let w = text::indent(s);
    let v = t.skip(n);
    assert(t == text::trim(s) + v);
    if n > 0 {
        assert(text::trim(s)[0] == t[0]);
    }
    assert(s == w + (text::trim(s) + v));
    if n == 0 && t.len() > 0 {
        assert(text::is_white_space(v[0]));
    }
    assert forall|c: char| text::trim(s).contains(c) implies s.contains(c) by {
        let i = choose|i: int| 0 <= i < n && text::trim(s)[i] == c;
        assert(s[w.len() + i] == c);
    }
}

/// A clean text with white space around it is what `trim` leaves.
pub proof fn lemma_trim_of(w: Seq<char>, s: Seq<char>, v: Seq<char>)
    requires
        all_white(w),
        all_white(v),
        clean(s),
    ensures
        text::trim(w + s + v) == s,
{
    if s.len() > 0 {
        assert(w + s + v == w + (s + v));
        assert((s + v)[0] == s[0]);
        lemma_indent(w, s + v);
        lemma_trim_end_white(s, v);
    } else {
        let t = w + s + v;
        assert(all_white(t));
        lemma_white_prefix(t);
        assert(t == t + Seq::<char>::empty());
        lemma_indent(t, Seq::empty());
    }
}

/// White space around a text makes no difference to `trim`.
pub proof fn lemma_trim_around(w: Seq<char>, s: Seq<char>, v: Seq<char>)
    requires
        all_white(w),
        all_white(v),
    ensures
        text::trim(w + s + v) == text::trim(s),
{
    lemma_trim(s);
    lemma_white_prefix(s);
    lemma_trim_end(text::trim_start(s));
    let a = text::indent(s);
    let t = text::trim(s);
    let b = text::trim_start(s).skip(t.len() as int);
    assert(s == a + t + b);
    assert(w + s + v == (w + a) + t + (b + v));
    lemma_trim_of(w + a, t, b + v);
}

/// `trim` leaves a clean text as it is.
pub proof fn lemma_trim_clean(s: Seq<char>)
    requires
        clean(s),
    ensures
        text::trim(s) == s,
{
    let e = Seq::<char>::empty();
    assert(e + s + e == s);
    lemma_trim_of(e, s, e);
}

/// No line of a text holds a line feed.
pub proof fn lemma_lines_one_line(s: Seq<char>)
    ensures
        forall|i: int| 0 <= i < text::lines(s).len() ==> one_line(#[trigger] text::lines(s)[i]),
    decreases s.len(),
{
    if s.len() > 0 {
        text::lemma_split_once(s, '\n');
        if let Some((line, rest)) = text::split_once(s, '\n') {
            lemma_lines_one_line(rest);
            lemma_strip_cr(line);
            assert forall|i: int| 0 <= i < text::lines(s).len() implies one_line(
                #[trigger] text::lines(s)[i],
            ) by {
                if i > 0 {
                    assert(text::lines(s)[i] == text::lines(rest)[i - 1]);
                }
            }
        }
    }
}

/// Cutting off a carriage return adds no character.
pub proof fn lemma_strip_cr(s: Seq<char>)
    ensures
        forall|c: char| text::strip_cr(s).contains(c) ==> s.contains(c),
        text::strip_cr(s) == s || text::strip_cr(s).push('\r') == s,
{
    assert forall|c: char| text::strip_cr(s).contains(c) implies s.contains(c) by {
        let i = choose|i: int| 0 <= i < text::strip_cr(s).len() && text::strip_cr(s)[i] == c;
        assert(s[i] == c);
    }
    if s.len() > 0 && s.last() == '\r' {
        assert(s.drop_last().push('\r') == s);
    }
}

/// The text of a file starts with its first line.
pub proof fn lemma_file_text_first(ls: Seq<Seq<char>>)
    requires
        ls.len() > 0,
    ensures
        text::file_text(ls) == ls[0].push('\n') + (if ls.len() == 1 {
            Seq::<char>::empty()
        } else {
            text::file_text(ls.drop_first())
        }),
    decreases ls.len(),
{
    if ls.len() > 1 {
        lemma_file_text_first(ls.drop_last());
        let rest = ls.drop_first();
        if ls.len() > 2 {
            assert(ls.drop_last().drop_first() == rest.drop_last());
            assert(text::join(rest) == text::join(rest.drop_last()).push('\n') + rest.last());
        }
        assert(text::file_text(ls) == ls[0].push('\n') + text::file_text(rest));
    } else {
        assert(text::file_text(ls) == ls[0].push('\n') + Seq::<char>::empty());
    }
}

/// The lines of a file are the lines that it was made of, each without the carriage return that
/// it may end in.
pub proof fn lemma_lines_of_file(ls: Seq<Seq<char>>)
    requires
        ls.len() > 0,
        forall|i: int| 0 <= i < ls.len() ==> one_line(#[trigger] ls[i]),
    ensures
        text::lines(text::file_text(ls)) == text::stripped(ls),
    decreases ls.len(),
{
    lemma_file_text_first(ls);
    let t = text::file_text(ls);
    let n = ls[0].len() as int;
    assert(t.take(n) == ls[0]);
    assert(text::first_at(t, '\n', n));
    text::lemma_first_at(t, '\n', n);
    let rest = t.skip(n + 1);
    if ls.len() > 1 {
        assert(rest == text::file_text(ls.drop_first()));
        assert forall|i: int| 0 <= i < ls.drop_first().len() implies one_line(
            #[trigger] ls.drop_first()[i],
        ) by {
            assert(ls.drop_first()[i] == ls[i + 1]);
        }
        lemma_lines_of_file(ls.drop_first());
    } else {
        assert(rest == Seq::<char>::empty());
        assert(text::lines(rest) == Seq::<Seq<char>>::empty());
    }
    assert(text::lines(t) == seq![text::strip_cr(ls[0])] + text::lines(rest));
    assert(text::lines(t) =~= text::stripped(ls));
}

} // verus!
