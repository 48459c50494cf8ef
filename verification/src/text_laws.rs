//! What the operations on texts are for, said of the texts that they take apart and put together.

use crate::decimal;
use crate::facts;
use crate::text;
use vstd::prelude::*;

verus! {

/// The texts are equal but for letters from `A` to `Z` that stand small in one of them.
pub open spec fn letters_alike(c: char, d: char) -> bool {
    ||| c == d
    ||| 65 <= c as int <= 90 && d as int == c as int + 32
    ||| 65 <= d as int <= 90 && c as int == d as int + 32
}

/// Trimming a text takes off white space at its two ends, and all of it: whatever white space is put
/// around a text that neither starts nor ends with some, trimming gives the text back.
pub proof fn law_trim(w: Seq<char>, s: Seq<char>, v: Seq<char>)
    requires
        forall|i: int| 0 <= i < w.len() ==> text::is_white_space(#[trigger] w[i]),
        forall|i: int| 0 <= i < v.len() ==> text::is_white_space(#[trigger] v[i]),
        s.len() > 0 ==> !text::is_white_space(s[0]) && !text::is_white_space(s.last()),
    ensures
        text::trim(w + s + v) == s,
        s.len() > 0 ==> text::indent(w + s + v) == w,
        s.len() > 0 ==> text::trim_start(w + s + v) == s + v,
        s.len() > 0 ==> text::white_prefix(w + s + v) == w.len(),
        s.len() == 0 ==> text::indent(w + v) == w + v && text::trim_start(w + v) == s,
        s.len() == 0 ==> text::white_prefix(w + v) == w.len() + v.len(),
        text::trim_end(s + v) == s,
{
    facts::lemma_trim_of(w, s, v);
    facts::lemma_trim_end_white(s, v);
    if s.len() > 0 {
        assert(w + s + v =~= w + (s + v));
        assert((s + v)[0] == s[0]);
        facts::lemma_indent(w, s + v);
    } else {
        let e = Seq::<char>::empty();
        assert((w + v) + e =~= w + v);
        facts::lemma_indent(w + v, e);
        assert(s =~= e);
    }
}

/// Every text is what trimming leaves, with white space around it.
pub proof fn law_trim_parts(s: Seq<char>) -> (r: (Seq<char>, Seq<char>))
    ensures
        s == r.0 + text::trim(s) + r.1,
        forall|i: int| 0 <= i < r.0.len() ==> text::is_white_space(#[trigger] r.0[i]),
        forall|i: int| 0 <= i < r.1.len() ==> text::is_white_space(#[trigger] r.1[i]),
        text::trim(s).len() > 0 ==> !text::is_white_space(text::trim(s)[0])
            && !text::is_white_space(text::trim(s).last()),
{
    facts::lemma_trim(s);
    facts::lemma_white_prefix(s);
    let t = text::trim_start(s);
    facts::lemma_trim_end(t);
    let v = t.skip(text::trim(s).len() as int);
    assert(s =~= text::indent(s) + text::trim(s) + v);
    (text::indent(s), v)
}

/// A text is split at the first place of a character: what stands before it does not hold the
/// character, and nothing is lost.
pub proof fn law_split_once(l: Seq<char>, c: char, r: Seq<char>)
    requires
        !l.contains(c),
    ensures
        text::split_once(l.push(c) + r, c) == Some((l, r)),
        text::split_once(l, c) is None,
{
    let s = l.push(c) + r;
    let n = l.len() as int;
    assert(s.take(n) =~= l);
    assert(s.skip(n + 1) =~= r);
    assert(s[n] == c);
    text::lemma_first_at(s, c, n);
    text::lemma_split_once(l, c);
}

/// Looking for a word gives the first place where it stands, and nothing only where it stands
/// nowhere.
pub proof fn law_find(s: Seq<char>, p: Seq<char>)
    ensures
        match text::find(s, p) {
            Some(i) => {
                &&& 0 <= i <= s.len() - p.len()
                &&& s.subrange(i, i + p.len()) == p
                &&& forall|j: int|
                    0 <= j < i ==> #[trigger] s.subrange(j, j + p.len()) != p
            },
            None => forall|j: int|
                0 <= j <= s.len() - p.len() ==> #[trigger] s.subrange(j, j + p.len()) != p,
        },
{
    if exists|i: int| text::occurs_at(s, p, i) {
        let i = choose|i: int| text::occurs_at(s, p, i);
        text::lemma_find_some(s, p, i);
        let k = text::find(s, p).unwrap();
        assert forall|j: int| 0 <= j < k implies #[trigger] s.subrange(j, j + p.len()) != p by {
            assert(!text::occurs_at(s, p, j));
        }
    } else {
        assert forall|j: int| 0 <= j <= s.len() - p.len() implies #[trigger] s.subrange(
            j,
            j + p.len(),
        ) != p by {
            assert(!text::occurs_at(s, p, j));
        }
    }
}

/// The lines of a text, one after the other: a line ends at the first line feed, and a carriage
/// return before it goes with it; what stands behind the last line feed is a line as it is, unless
/// nothing stands there.
pub proof fn law_lines(line: Seq<char>, rest: Seq<char>)
    requires
        !line.contains('\n'),
    ensures
        text::lines(Seq::<char>::empty()) == Seq::<Seq<char>>::empty(),
        line.len() > 0 ==> text::lines(line) == seq![line],
        text::lines(line.push('\r').push('\n') + rest) == seq![line] + text::lines(rest),
        line.len() == 0 || line.last() != '\r' ==> text::lines(line.push('\n') + rest)
            == seq![line] + text::lines(rest),
{
    law_split_once(line, '\n', rest);
    let with_cr = line.push('\r');
    assert(!with_cr.contains('\n')) by {
        if with_cr.contains('\n') {
            let i = choose|i: int| 0 <= i < with_cr.len() && with_cr[i] == '\n';
            assert(line[i] == '\n');
        }
    }
    law_split_once(with_cr, '\n', rest);
    assert(with_cr.drop_last() =~= line);
}

/// The text of a file is its lines with a line feed behind each; a file of no line is an empty line.
pub proof fn law_file_text(ls: Seq<Seq<char>>, line: Seq<char>)
    ensures
        text::file_text(Seq::<Seq<char>>::empty()) == seq!['\n'],
        text::file_text(seq![line]) == line.push('\n'),
        ls.len() > 0 ==> text::file_text(ls.push(line)) == text::file_text(ls) + line.push('\n'),
{
    assert(text::file_text(Seq::<Seq<char>>::empty()) =~= seq!['\n']);
    assert(ls.push(line).drop_last() =~= ls);
    if ls.len() > 0 {
        assert(text::file_text(ls.push(line)) =~= text::file_text(ls) + line.push('\n'));
    }
}

/// Texts are the same without regard to case where they are as long, and differ only in letters from
/// `A` to `Z` that stand small in one of them.
pub proof fn law_same_ignoring_case(a: Seq<char>, b: Seq<char>)
    ensures
        text::same_ignoring_case(a, b) <==> a.len() == b.len() && forall|i: int|
            0 <= i < a.len() ==> letters_alike(#[trigger] a[i], b[i]),
{
    assert forall|c: char, d: char|
        (text::ascii_lower(c) == text::ascii_lower(d)) == #[trigger] letters_alike(c, d) by {
        law_lower(c);
        law_lower(d);
    }
    if text::same_ignoring_case(a, b) {
        assert forall|i: int| 0 <= i < a.len() implies letters_alike(#[trigger] a[i], b[i]) by {
            assert(text::ascii_lower(a[i]) == text::ascii_lower(b[i]));
        }
    }
    if a.len() == b.len() && forall|i: int|
        0 <= i < a.len() ==> letters_alike(#[trigger] a[i], b[i]) {
        assert forall|i: int| 0 <= i < a.len() implies text::ascii_lower(#[trigger] a[i])
            == text::ascii_lower(b[i]) by {
            assert(letters_alike(a[i], b[i]));
        }
    }
}

/// Letters from `A` to `Z` become small, and no other character changes.
pub proof fn law_lower(c: char)
    ensures
        text::ascii_lower(c) as int == (if 65 <= c as int <= 90 {
            c as int + 32
        } else {
            c as int
        }),
{
}

/// The contents of lists of strings, and of keys and values, are those of each in turn.
pub proof fn law_contents(v: Seq<String>, u: Seq<(&str, String)>, i: int)
    ensures
        text::texts(v).len() == v.len(),
        0 <= i < v.len() ==> text::texts(v)[i] == v[i]@,
        text::pairs(u).len() == u.len(),
        0 <= i < u.len() ==> text::pairs(u)[i] == (u[i].0@, u[i].1@),
{
}

/// The number that decimal digits stand for.
pub open spec fn number_of(s: Seq<char>) -> int
    decreases s.len(),
{
    if s.len() == 0 {
        0
    } else {
        number_of(s.drop_last()) * 10 + (s.last() as int - 48)
    }
}

/// A number in decimal notation stands for the number: it has digits only, of which the first is no
/// zero unless it is the only one, and a minus sign before them where the number is negative.
pub proof fn law_decimal(n: int)
    requires
        n >= 0,
    ensures
        number_of(decimal::decimal(n)) == n,
        decimal::decimal(n).len() > 0,
        forall|i: int|
            0 <= i < decimal::decimal(n).len() ==> 48 <= #[trigger] decimal::decimal(n)[i] as int
                <= 57,
        decimal::decimal(n).len() > 1 ==> decimal::decimal(n)[0] != '0',
        n > 0 ==> decimal::decimal(-n) == seq!['-'] + decimal::decimal(n),
{
    lemma_digits(n as nat);
}

/// The digits of a natural number.
proof fn lemma_digits(n: nat)
    ensures
        number_of(decimal::digits(n)) == n,
        decimal::digits(n).len() > 0,
        forall|i: int|
            0 <= i < decimal::digits(n).len() ==> 48 <= #[trigger] decimal::digits(n)[i] as int
                <= 57,
        decimal::digits(n).len() > 1 ==> decimal::digits(n)[0] != '0',
        n > 0 ==> decimal::digits(n)[0] != '0',
    decreases n,
{
    let d = decimal::digits(n);
    if n < 10 {
        assert(d.drop_last() =~= Seq::<char>::empty());
        assert(number_of(d.drop_last()) == 0);
    } else {
        lemma_digits(n / 10);
        let rest = decimal::digits(n / 10);
        assert(d.drop_last() =~= rest);
        assert(d[0] == rest[0]);
        assert forall|i: int| 0 <= i < d.len() implies 48 <= #[trigger] d[i] as int <= 57 by {
            if i < rest.len() {
                assert(d[i] == rest[i]);
            }
        }
    }
}

} // verus!
