//! What holds of updated INI files: every key is set, the other lines stay, and a second update
//! finds nothing to do.

use crate::facts;
use crate::ini;
use crate::text;
use vstd::prelude::*;

verus! {

/// A text that can stand as a key: it is clean and not empty, holds neither a line feed nor an
/// equals sign, and does not look like a comment.
pub open spec fn valid_key(key: Seq<char>) -> bool {
    &&& key.len() > 0
    &&& facts::clean(key)
    &&& facts::one_line(key)
    &&& !key.contains('=')
    &&& key[0] != '#'
    &&& key[0] != ';'
}

/// With this key and value the line would look like a section header.
pub open spec fn looks_like_header(key: Seq<char>, value: Seq<char>) -> bool {
    &&& key[0] == '['
    &&& text::trim_end(value).len() > 0
    &&& text::trim_end(value).last() == ']'
}

/// The updates have valid keys, which differ in more than the case of letters, and values of one
/// line.
pub open spec fn valid_updates(updates: Seq<(Seq<char>, Seq<char>)>) -> bool {
    &&& forall|i: int|
        0 <= i < updates.len() ==> valid_key((#[trigger] updates[i]).0) && facts::one_line(
            updates[i].1,
        ) && !looks_like_header(updates[i].0, updates[i].1)
    &&& forall|i: int, j: int|
        0 <= i < j < updates.len() ==> !text::same_ignoring_case(
            (#[trigger] updates[i]).0,
            (#[trigger] updates[j]).0,
        )
}

/// A name that can stand between the brackets of a header.
pub open spec fn valid_section(section: Seq<char>) -> bool {
    facts::clean(section) && facts::one_line(section)
}

/// No line that stays as it is ends in a stray carriage return.
pub open spec fn no_stray_cr(
    ls: Seq<Seq<char>>,
    section: Seq<char>,
    updates: Seq<(Seq<char>, Seq<char>)>,
) -> bool {
    forall|j: int|
        0 <= j < ls.len() && ini::hit(ls.take(j), #[trigger] ls[j], section, updates) is None
            ==> text::strip_cr(ls[j]) == ls[j]
}

/// The value that a line sets.
pub open spec fn value_of(line: Seq<char>) -> Seq<char> {
    text::trim(text::split_once(line, '=').unwrap().1)
}

/// Where a line made of an indent, a key and a value is cut.
proof fn lemma_key_line_cut(w: Seq<char>, key: Seq<char>, value: Seq<char>)
    requires
        facts::all_white(w),
        valid_key(key),
    ensures
        ({
            let line = (w + key).push('=') + value;
            &&& line.contains('=')
            &&& text::split_once(line, '=') == Some((w + key, value))
            &&& ini::key_of(line) == key
            &&& value_of(line) == text::trim(value)
        }),
{
    let line = (w + key).push('=') + value;
    let left = w + key;
    let e = Seq::<char>::empty();
    assert(!left.contains('=')) by {
        if left.contains('=') {
            let i = choose|i: int| 0 <= i < left.len() && left[i] == '=';
            if i < w.len() {
                assert(text::is_white_space(w[i]));
            } else {
                assert(key[i - w.len()] == '=');
            }
        }
    }
    let n = left.len() as int;
    assert(line[n] == '=');
    assert(line.take(n) == left);
    assert(line.skip(n + 1) == value);
    assert(text::first_at(line, '=', n));
    text::lemma_first_at(line, '=', n);
    assert(w + key + e == left);
    facts::lemma_trim_of(w, key, e);
}

/// A line made of an indent, a key and a value without the white space at its ends.
proof fn lemma_key_line_trim(w: Seq<char>, key: Seq<char>, value: Seq<char>)
    requires
        facts::all_white(w),
        valid_key(key),
    ensures
        ({
            let line = (w + key).push('=') + value;
            &&& text::indent(line) == w
            &&& text::trim(line) == key.push('=') + text::trim_end(value)
        }),
{
    let line = (w + key).push('=') + value;
    let tail = key.push('=') + value;
    assert(line =~= w + tail);
    assert(tail[0] == key[0]);
    facts::lemma_indent(w, tail);
    let v = text::trim_end(value);
    facts::lemma_trim_end(value);
    let x = value.skip(v.len() as int);
    let core = key.push('=') + v;
    assert(value =~= v + x);
    assert(tail =~= core + x);
    if v.len() > 0 {
        assert(core.last() == v.last());
    } else {
        assert(core.last() == '=');
    }
    facts::lemma_trim_end_white(core, x);
}

/// What is read from a line made of an indent, a key and a value.
proof fn lemma_key_line(w: Seq<char>, key: Seq<char>, value: Seq<char>)
    requires
        facts::all_white(w),
        valid_key(key),
        !looks_like_header(key, value),
    ensures
        ({
            let line = (w + key).push('=') + value;
            &&& ini::sets_key(line)
            &&& ini::key_of(line) == key
            &&& text::indent(line) == w
            &&& value_of(line) == text::trim(value)
        }),
{
    lemma_key_line_cut(w, key, value);
    lemma_key_line_trim(w, key, value);
    let core = key.push('=') + text::trim_end(value);
    assert(core[0] == key[0]);
}

/// A carriage return at the end of a line makes no difference to what is read from it.
pub proof fn lemma_strip_line(line: Seq<char>)
    ensures
        ({
            let s = text::strip_cr(line);
            &&& text::trim(s) == text::trim(line)
            &&& ini::is_header(s) == ini::is_header(line)
            &&& ini::header_name(s) == ini::header_name(line)
            &&& ini::sets_key(s) == ini::sets_key(line)
            &&& ini::sets_key(line) ==> ini::key_of(s) == ini::key_of(line) && text::indent(s)
                == text::indent(line) && value_of(s) == value_of(line)
        }),
{
    let s = text::strip_cr(line);
    facts::lemma_strip_cr(line);
    if s != line {
        let e = Seq::<char>::empty();
        assert(e + s + seq!['\r'] == line);
        facts::lemma_trim_around(e, s, seq!['\r']);
        if line.contains('=') {
            let i = choose|i: int| 0 <= i < line.len() && line[i] == '=';
            assert(s[i] == '=');
        }
        if ini::sets_key(line) {
            text::lemma_split_once(s, '=');
            let (left, right) = text::split_once(s, '=').unwrap();
            let n = left.len() as int;
            assert(line.take(n) == left);
            assert(line.skip(n + 1) =~= right.push('\r'));
            assert(text::first_at(line, '=', n));
            text::lemma_first_at(line, '=', n);
            assert(e + right + seq!['\r'] == right.push('\r'));
            facts::lemma_trim_around(e, right, seq!['\r']);
            facts::lemma_trim(s);
            facts::lemma_white_prefix(s);
            let tail = text::trim_start(s).push('\r');
            assert(line == text::indent(s) + tail);
            assert(tail[0] == text::trim_start(s)[0]);
            facts::lemma_indent(text::indent(s), tail);
        }
    }
}

/// The same key but for the case of letters is as valid.
proof fn lemma_same_key(a: Seq<char>, b: Seq<char>)
    requires
        text::same_ignoring_case(a, b),
        valid_key(b),
        facts::clean(a),
        facts::one_line(a),
        !a.contains('='),
    ensures
        valid_key(a),
        a[0] == '[' <==> b[0] == '[',
{
    assert(text::ascii_lower(a[0]) == text::ascii_lower(b[0]));
    assert(a.len() == b.len());
    assert(0 <= 0 < a.len());
}

/// Each update is the one for its own key.
proof fn lemma_own_update(updates: Seq<(Seq<char>, Seq<char>)>, k: int)
    requires
        valid_updates(updates),
        0 <= k < updates.len(),
    ensures
        ini::update_for(updates, updates[k].0) == Some(k),
{
    ini::lemma_update_for(updates, updates[k].0);
    let key = updates[k].0;
    assert(text::same_ignoring_case(key, updates[k].0));
    if let Some(j) = ini::update_for(updates, key) {
        if j < k {
            assert forall|i: int| 0 <= i < key.len() implies text::ascii_lower(
                #[trigger] updates[j].0[i],
            ) == text::ascii_lower(key[i]) by {
                assert(text::ascii_lower(key[i]) == text::ascii_lower(updates[j].0[i]));
            }
            assert(text::same_ignoring_case(updates[j].0, updates[k].0));
        }
    }
}

/// An updated line is read as the line it came from, and a second update leaves it as it is.
proof fn lemma_updated_line(
    before: Seq<Seq<char>>,
    line: Seq<char>,
    section: Seq<char>,
    updates: Seq<(Seq<char>, Seq<char>)>,
    after: Seq<Seq<char>>,
)
    requires
        valid_updates(updates),
        facts::one_line(line),
        ini::in_section(after, section) == ini::in_section(before, section),
    ensures
        ({
            let new_line = ini::updated_line(before, line, section, updates);
            &&& facts::one_line(new_line)
            &&& ini::is_header(new_line) == ini::is_header(line)
            &&& ini::is_header(line) ==> new_line == line
            &&& ini::hit(after, new_line, section, updates) == ini::hit(
                before,
                line,
                section,
                updates,
            )
            &&& ini::updated_line(after, new_line, section, updates) == new_line
        }),
{
    if let Some(k) = ini::hit(before, line, section, updates) {
        text::lemma_split_once(line, '=');
        let left = text::split_once(line, '=').unwrap().0;
        let key = ini::key_of(line);
        let w = text::indent(line);
        let value = updates[k].1;
        ini::lemma_update_for(updates, key);
        facts::lemma_trim(left);
        facts::lemma_white_prefix(line);
        assert forall|c: char| left.contains(c) implies line.contains(c) by {
            let i = choose|i: int| 0 <= i < left.len() && left[i] == c;
            assert(line[i] == c);
        }
        lemma_same_key(key, updates[k].0);
        let new_line = ini::updated_line(before, line, section, updates);
        lemma_key_line(w, key, value);
        assert(facts::one_line(new_line)) by {
            if new_line.contains('\n') {
                let i = choose|i: int| 0 <= i < new_line.len() && new_line[i] == '\n';
                if i < w.len() {
                    assert(line[i] == '\n');
                } else if i < w.len() + key.len() {
                    assert(key[i - w.len()] == '\n');
                } else if i > w.len() + key.len() {
                    assert(value[i - w.len() - key.len() - 1] == '\n');
                }
            }
        }
    }
}

/// A section goes on with one more line, unless it is a header.
pub proof fn lemma_in_section_push(ls: Seq<Seq<char>>, line: Seq<char>, section: Seq<char>)
    ensures
        ini::in_section(ls.push(line), section) == (if ini::is_header(line) {
            ini::opens(line, section)
        } else {
            ini::in_section(ls, section)
        }),
{
    assert(ls.push(line).drop_last() == ls);
}

/// Adding lines for updates at the end of a section: they are read as they were written, and
/// stand for their updates.
proof fn lemma_add_missing(
    ls: Seq<Seq<char>>,
    from: Seq<Seq<char>>,
    section: Seq<char>,
    updates: Seq<(Seq<char>, Seq<char>)>,
    n: int,
)
    requires
        valid_updates(updates),
        0 <= n <= updates.len(),
        ini::in_section(ls, section),
    ensures
        ({
            let m = ini::missing(from, section, updates, n);
            let x = ls + m;
            &&& ini::body(x, section, updates) == ini::body(ls, section, updates) + m
            &&& ini::in_section(x, section)
            &&& forall|i: int| 0 <= i < m.len() ==> facts::one_line(#[trigger] m[i])
            &&& no_stray_cr(ls, section, updates) ==> no_stray_cr(x, section, updates)
            &&& forall|k: int|
                0 <= k && (ini::seen(ls, section, updates, k) || (k < n && !ini::seen(
                    from,
                    section,
                    updates,
                    k,
                ))) ==> #[trigger] ini::seen(x, section, updates, k)
        }),
    decreases n,
{
    let m = ini::missing(from, section, updates, n);
    let x = ls + m;
    if n > 0 {
        lemma_add_missing(ls, from, section, updates, n - 1);
        let m1 = ini::missing(from, section, updates, n - 1);
        let x1 = ls + m1;
        if !ini::seen(from, section, updates, n - 1) {
            let (key, value) = updates[n - 1];
            let line = ini::update_line(updates[n - 1]);
            let e = Seq::<char>::empty();
            assert((e + key).push('=') + value =~= line);
            lemma_key_line(e, key, value);
            lemma_own_update(updates, n - 1);
            assert(x =~= x1.push(line));
            assert(x.drop_last() == x1);
            lemma_in_section_push(x1, line, section);
            assert(ini::hit(x1, line, section, updates) == Some(n - 1));
            assert(ini::updated_line(x1, line, section, updates) =~= line);
            ini::lemma_seen_push(x1, line, section, updates);
            lemma_no_stray_cr_push(x1, line, section, updates);
            assert(ini::body(x, section, updates) =~= ini::body(ls, section, updates) + m);
            assert(facts::one_line(line)) by {
                if line.contains('\n') {
                    let i = choose|i: int| 0 <= i < line.len() && line[i] == '\n';
                    if i < key.len() {
                        assert(key[i] == '\n');
                    } else if i > key.len() {
                        assert(value[i - key.len() - 1] == '\n');
                    }
                }
            }
        }
    } else {
        assert(x =~= ls);
        assert(ini::body(x, section, updates) =~= ini::body(ls, section, updates) + m);
    }
}

/// Nothing is missing where every update was seen.
proof fn lemma_nothing_missing(
    ls: Seq<Seq<char>>,
    section: Seq<char>,
    updates: Seq<(Seq<char>, Seq<char>)>,
    n: int,
)
    requires
        forall|k: int| 0 <= k < n ==> #[trigger] ini::seen(ls, section, updates, k),
    ensures
        ini::missing(ls, section, updates, n) == Seq::<Seq<char>>::empty(),
    decreases n,
{
    if n > 0 {
        lemma_nothing_missing(ls, section, updates, n - 1);
        assert(ini::seen(ls, section, updates, n - 1));
    }
}

/// Updating the updated lines again gives the same lines; and where a section has ended, every
/// update was seen.
spec fn settled(
    ls: Seq<Seq<char>>,
    section: Seq<char>,
    updates: Seq<(Seq<char>, Seq<char>)>,
) -> bool {
    let x = ini::body(ls, section, updates);
    &&& forall|i: int| 0 <= i < x.len() ==> facts::one_line(#[trigger] x[i])
    &&& ini::body(x, section, updates) == x
    &&& ini::in_section(x, section) == ini::in_section(ls, section)
    &&& ini::has_section(x, section) == ini::has_section(ls, section)
    &&& forall|k: int|
        ini::seen(ls, section, updates, k) ==> #[trigger] ini::seen(x, section, updates, k)
    &&& ini::has_section(ls, section) && !ini::in_section(ls, section) ==> forall|k: int|
        0 <= k < updates.len() ==> #[trigger] ini::seen(x, section, updates, k)
    &&& no_stray_cr(ls, section, updates) ==> no_stray_cr(x, section, updates)
}

/// What one more line adds to the question of stray carriage returns.
proof fn lemma_no_stray_cr_push(
    ls: Seq<Seq<char>>,
    line: Seq<char>,
    section: Seq<char>,
    updates: Seq<(Seq<char>, Seq<char>)>,
)
    ensures
        no_stray_cr(ls.push(line), section, updates) == (no_stray_cr(ls, section, updates) && (
        ini::hit(ls, line, section, updates) is None ==> text::strip_cr(line) == line)),
{
    let all = ls.push(line);
    let n = ls.len() as int;
    assert(all.take(n) == ls);
    assert(all[n] == line);
    assert forall|j: int| 0 <= j < n implies #[trigger] all[j] == ls[j] && all.take(j) == ls.take(
        j,
    ) by {}
    if no_stray_cr(all, section, updates) {
        assert forall|j: int|
            0 <= j < n && ini::hit(ls.take(j), #[trigger] ls[j], section, updates) is None implies
            text::strip_cr(ls[j]) == ls[j] by {
            assert(all[j] == ls[j]);
        }
    }
}

/// A line that the section goes on or begins with keeps the lines settled.
proof fn lemma_settled_line(
    ls: Seq<Seq<char>>,
    line: Seq<char>,
    section: Seq<char>,
    updates: Seq<(Seq<char>, Seq<char>)>,
)
    requires
        valid_updates(updates),
        settled(ls, section, updates),
        facts::one_line(line),
        !ini::is_header(line) || !ini::in_section(ls, section),
    ensures
        settled(ls.push(line), section, updates),
{
    let all = ls.push(line);
    assert(all.drop_last() == ls);
    let x1 = ini::body(ls, section, updates);
    let x = ini::body(all, section, updates);
    ini::lemma_seen_push(ls, line, section, updates);
    ini::lemma_has_section_push(ls, line, section);
    lemma_in_section_push(ls, line, section);
    lemma_updated_line(ls, line, section, updates, x1);
    let new_line = ini::updated_line(ls, line, section, updates);
    assert(x =~= x1.push(new_line));
    assert(x.drop_last() == x1);
    assert(ini::body(x, section, updates) =~= x);
    ini::lemma_seen_push(x1, new_line, section, updates);
    ini::lemma_has_section_push(x1, new_line, section);
    lemma_in_section_push(x1, new_line, section);
    lemma_no_stray_cr_push(ls, line, section, updates);
    lemma_no_stray_cr_push(x1, new_line, section, updates);
    assert forall|i: int| 0 <= i < x.len() implies facts::one_line(#[trigger] x[i]) by {
        if i < x1.len() {
            assert(x[i] == x1[i]);
        }
    }
}

/// A header at the end of the section keeps the lines settled.
proof fn lemma_settled_end(
    ls: Seq<Seq<char>>,
    line: Seq<char>,
    section: Seq<char>,
    updates: Seq<(Seq<char>, Seq<char>)>,
)
    requires
        valid_updates(updates),
        settled(ls, section, updates),
        facts::one_line(line),
        ini::is_header(line),
        ini::in_section(ls, section),
    ensures
        settled(ls.push(line), section, updates),
{
    let all = ls.push(line);
    assert(all.drop_last() == ls);
    let total = updates.len() as int;
    let x1 = ini::body(ls, section, updates);
    let m = ini::missing(ls, section, updates, total);
    let x2 = x1 + m;
    lemma_add_missing(x1, ls, section, updates, total);
    lemma_nothing_missing(x2, section, updates, total);
    lemma_has_section_add(x1, m, section);
    let x = ini::body(all, section, updates);
    assert(ini::hit(ls, line, section, updates) is None);
    assert(x =~= x2.push(line));
    assert(x.drop_last() == x2);
    assert(ini::hit(x2, line, section, updates) is None);
    assert(ini::body(x, section, updates) =~= x);
    ini::lemma_seen_push(ls, line, section, updates);
    ini::lemma_has_section_push(ls, line, section);
    lemma_in_section_push(ls, line, section);
    lemma_in_section_has(ls, section);
    ini::lemma_seen_push(x2, line, section, updates);
    ini::lemma_has_section_push(x2, line, section);
    lemma_in_section_push(x2, line, section);
    lemma_no_stray_cr_push(ls, line, section, updates);
    lemma_no_stray_cr_push(x2, line, section, updates);
    assert forall|k: int| ini::seen(all, section, updates, k) implies #[trigger] ini::seen(
        x,
        section,
        updates,
        k,
    ) by {
        assert(ini::seen(ls, section, updates, k));
        assert(ini::seen(x1, section, updates, k));
        lemma_seen_update(ls, section, updates, k);
        assert(ini::seen(x2, section, updates, k));
    }
    assert forall|k: int| 0 <= k < updates.len() implies #[trigger] ini::seen(
        x,
        section,
        updates,
        k,
    ) by {
        if ini::seen(ls, section, updates, k) {
            assert(ini::seen(x1, section, updates, k));
        }
        assert(ini::seen(x2, section, updates, k));
    }
    assert forall|i: int| 0 <= i < x.len() implies facts::one_line(#[trigger] x[i]) by {
        if i < x1.len() {
            assert(x[i] == x1[i]);
        } else if i < x2.len() {
            assert(x[i] == m[i - x1.len()]);
        }
    }
}

/// What is seen is one of the updates.
proof fn lemma_seen_update(
    ls: Seq<Seq<char>>,
    section: Seq<char>,
    updates: Seq<(Seq<char>, Seq<char>)>,
    k: int,
)
    requires
        ini::seen(ls, section, updates, k),
    ensures
        0 <= k < updates.len(),
{
    let j = choose|j: int|
        0 <= j < ls.len() && #[trigger] ini::hit(ls.take(j), ls[j], section, updates) == Some(k);
    ini::lemma_update_for(updates, ini::key_of(ls[j]));
}

/// The lines of every file are settled.
proof fn lemma_settled(
    ls: Seq<Seq<char>>,
    section: Seq<char>,
    updates: Seq<(Seq<char>, Seq<char>)>,
)
    requires
        valid_updates(updates),
        forall|i: int| 0 <= i < ls.len() ==> facts::one_line(#[trigger] ls[i]),
    ensures
        settled(ls, section, updates),
    decreases ls.len(),
{
    if ls.len() > 0 {
        let ls1 = ls.drop_last();
        let line = ls.last();
        assert(ls == ls1.push(line));
        lemma_settled(ls1, section, updates);
        if ini::is_header(line) && ini::in_section(ls1, section) {
            lemma_settled_end(ls1, line, section, updates);
        } else {
            lemma_settled_line(ls1, line, section, updates);
        }
    } else {
        assert(ini::body(ls, section, updates) =~= ls);
        assert(!ini::has_section(ls, section));
    }
}

/// Lines of which the first part has the section have it.
proof fn lemma_has_section_add(a: Seq<Seq<char>>, b: Seq<Seq<char>>, section: Seq<char>)
    requires
        ini::in_section(a, section),
    ensures
        ini::has_section(a, section),
        ini::has_section(a + b, section),
{
    lemma_in_section_has(a, section);
    let i = choose|i: int| 0 <= i < a.len() && ini::opens(#[trigger] a[i], section);
    assert((a + b)[i] == a[i]);
}

/// Lines that end in the section have it.
proof fn lemma_in_section_has(ls: Seq<Seq<char>>, section: Seq<char>)
    requires
        ini::in_section(ls, section),
    ensures
        ini::has_section(ls, section),
    decreases ls.len(),
{
    let line = ls.last();
    if ini::is_header(line) {
        assert(ini::opens(ls[ls.len() - 1], section));
    } else {
        lemma_in_section_has(ls.drop_last(), section);
        let i = choose|i: int|
            0 <= i < ls.drop_last().len() && ini::opens(#[trigger] ls.drop_last()[i], section);
        assert(ini::opens(ls[i], section));
    }
}

/// A header that was written is read as the header of its section.
proof fn lemma_header_line(section: Seq<char>)
    requires
        valid_section(section),
    ensures
        ini::opens(ini::header_line(section), section),
        facts::one_line(ini::header_line(section)),
        text::strip_cr(ini::header_line(section)) == ini::header_line(section),
{
    let line = ini::header_line(section);
    assert(line[0] == '[');
    assert(line.last() == ']');
    facts::lemma_trim_clean(line);
    assert(line.subrange(1, line.len() - 1) =~= section);
    facts::lemma_trim_clean(section);
    if line.contains('\n') {
        let i = choose|i: int| 0 <= i < line.len() && line[i] == '\n';
        assert(section[i - 1] == '\n');
    }
}

/// Without a line nothing was seen, and everything is missing.
pub proof fn lemma_all_missing(
    section: Seq<char>,
    updates: Seq<(Seq<char>, Seq<char>)>,
    n: int,
)
    requires
        0 <= n <= updates.len(),
    ensures
        forall|k: int|
            !#[trigger] ini::seen(Seq::<Seq<char>>::empty(), section, updates, k),
        ini::missing(Seq::<Seq<char>>::empty(), section, updates, n) == updates.map_values(
            |u: (Seq<char>, Seq<char>)| ini::update_line(u),
        ).take(n),
    decreases n,
{
    if n > 0 {
        lemma_all_missing(section, updates, n - 1);
        let all = updates.map_values(|u: (Seq<char>, Seq<char>)| ini::update_line(u));
        assert(all.take(n) =~= all.take(n - 1).push(all[n - 1]));
    }
}

/// In these lines every update is seen and nothing more is missing, and updating them again gives
/// the same lines.
spec fn complete(
    x: Seq<Seq<char>>,
    section: Seq<char>,
    updates: Seq<(Seq<char>, Seq<char>)>,
) -> bool {
    &&& x.len() > 0
    &&& forall|i: int| 0 <= i < x.len() ==> facts::one_line(#[trigger] x[i])
    &&& ini::body(x, section, updates) == x
    &&& ini::has_section(x, section)
    &&& forall|k: int| 0 <= k < updates.len() ==> #[trigger] ini::seen(x, section, updates, k)
}

/// The updated lines are complete where the file ends in the section.
proof fn lemma_complete_inside(
    ls: Seq<Seq<char>>,
    section: Seq<char>,
    updates: Seq<(Seq<char>, Seq<char>)>,
)
    requires
        valid_updates(updates),
        settled(ls, section, updates),
        ini::in_section(ls, section),
    ensures
        complete(ini::updated_lines(ls, section, updates), section, updates),
        no_stray_cr(ls, section, updates) ==> no_stray_cr(
            ini::updated_lines(ls, section, updates),
            section,
            updates,
        ),
{
    let b = ini::body(ls, section, updates);
    let x = ini::updated_lines(ls, section, updates);
    let total = updates.len() as int;
    let m = ini::missing(ls, section, updates, total);
    lemma_add_missing(b, ls, section, updates, total);
    lemma_has_section_add(b, m, section);
    assert(x == b + m);
    assert forall|k: int| 0 <= k < updates.len() implies #[trigger] ini::seen(
        x,
        section,
        updates,
        k,
    ) by {
        if ini::seen(ls, section, updates, k) {
            assert(ini::seen(b, section, updates, k));
        }
    }
    assert forall|i: int| 0 <= i < x.len() implies facts::one_line(#[trigger] x[i]) by {
        if i < b.len() {
            assert(x[i] == b[i]);
        } else {
            assert(x[i] == m[i - b.len()]);
        }
    }
}

/// The lines with the header of a new section behind them, after an empty line where `gap` asks for
/// one.
spec fn with_header(b: Seq<Seq<char>>, gap: bool, section: Seq<char>) -> Seq<Seq<char>> {
    if gap {
        b.push(Seq::empty()).push(ini::header_line(section))
    } else {
        b.push(ini::header_line(section))
    }
}

/// An empty line outside the section is left as it is.
proof fn lemma_push_empty(
    b: Seq<Seq<char>>,
    section: Seq<char>,
    updates: Seq<(Seq<char>, Seq<char>)>,
)
    requires
        ini::body(b, section, updates) == b,
        !ini::in_section(b, section),
    ensures
        ini::body(b.push(Seq::empty()), section, updates) == b.push(Seq::empty()),
        !ini::in_section(b.push(Seq::empty()), section),
        no_stray_cr(b, section, updates) ==> no_stray_cr(b.push(Seq::empty()), section, updates),
{
    let e = Seq::<char>::empty();
    facts::lemma_trim_clean(e);
    assert(b.push(e).drop_last() =~= b);
    lemma_in_section_push(b, e, section);
    assert(ini::body(b.push(e), section, updates) =~= b.push(e));
    lemma_no_stray_cr_push(b, e, section, updates);
}

/// The header of a new section is left as it is, and the section goes on behind it.
proof fn lemma_push_header(
    z: Seq<Seq<char>>,
    section: Seq<char>,
    updates: Seq<(Seq<char>, Seq<char>)>,
)
    requires
        valid_section(section),
        ini::body(z, section, updates) == z,
        !ini::in_section(z, section),
    ensures
        ({
            let zh = z.push(ini::header_line(section));
            &&& ini::body(zh, section, updates) == zh
            &&& ini::in_section(zh, section)
            &&& no_stray_cr(z, section, updates) ==> no_stray_cr(zh, section, updates)
        }),
{
    let h = ini::header_line(section);
    lemma_header_line(section);
    assert(z.push(h).drop_last() =~= z);
    lemma_in_section_push(z, h, section);
    assert(ini::body(z.push(h), section, updates) =~= z.push(h));
    lemma_no_stray_cr_push(z, h, section, updates);
}

/// The lines with the header of a new section: each is one line, an update leaves them as they are,
/// and the section goes on behind them.
proof fn lemma_with_header(
    b: Seq<Seq<char>>,
    gap: bool,
    section: Seq<char>,
    updates: Seq<(Seq<char>, Seq<char>)>,
)
    requires
        valid_section(section),
        ini::body(b, section, updates) == b,
        !ini::in_section(b, section),
        forall|i: int| 0 <= i < b.len() ==> facts::one_line(#[trigger] b[i]),
    ensures
        ({
            let zh = with_header(b, gap, section);
            &&& ini::body(zh, section, updates) == zh
            &&& ini::in_section(zh, section)
            &&& no_stray_cr(b, section, updates) ==> no_stray_cr(zh, section, updates)
            &&& forall|i: int| 0 <= i < zh.len() ==> facts::one_line(#[trigger] zh[i])
        }),
{
    let zh = with_header(b, gap, section);
    lemma_header_line(section);
    if gap {
        lemma_push_empty(b, section, updates);
        lemma_push_header(b.push(Seq::empty()), section, updates);
    } else {
        lemma_push_header(b, section, updates);
    }
    assert forall|i: int| 0 <= i < zh.len() implies facts::one_line(#[trigger] zh[i]) by {
        if i < b.len() {
            assert(zh[i] == b[i]);
        }
    }
}

/// Where the file lacks the section, the updated lines end in its header and all updates.
proof fn lemma_absent_shape(
    ls: Seq<Seq<char>>,
    section: Seq<char>,
    updates: Seq<(Seq<char>, Seq<char>)>,
)
    requires
        !ini::in_section(ls, section),
        !ini::has_section(ls, section),
    ensures
        ini::updated_lines(ls, section, updates) == with_header(
            ini::body(ls, section, updates),
            ls.len() > 0,
            section,
        ) + ini::missing(Seq::empty(), section, updates, updates.len() as int),
{
    let total = updates.len() as int;
    lemma_all_missing(section, updates, total);
    let added = updates.map_values(|u: (Seq<char>, Seq<char>)| ini::update_line(u));
    assert(added.take(total) =~= added);
    assert(ini::updated_lines(ls, section, updates) =~= with_header(
        ini::body(ls, section, updates),
        ls.len() > 0,
        section,
    ) + added);
}

/// The updated lines are complete where the file lacks the section.
proof fn lemma_complete_absent(
    ls: Seq<Seq<char>>,
    section: Seq<char>,
    updates: Seq<(Seq<char>, Seq<char>)>,
)
    requires
        valid_updates(updates),
        valid_section(section),
        settled(ls, section, updates),
        !ini::in_section(ls, section),
        !ini::has_section(ls, section),
    ensures
        complete(ini::updated_lines(ls, section, updates), section, updates),
        no_stray_cr(ls, section, updates) ==> no_stray_cr(
            ini::updated_lines(ls, section, updates),
            section,
            updates,
        ),
{
    let b = ini::body(ls, section, updates);
    let x = ini::updated_lines(ls, section, updates);
    let total = updates.len() as int;
    let zh = with_header(b, ls.len() > 0, section);
    let none = Seq::<Seq<char>>::empty();
    let m = ini::missing(none, section, updates, total);
    lemma_with_header(b, ls.len() > 0, section, updates);
    lemma_all_missing(section, updates, total);
    lemma_add_missing(zh, none, section, updates, total);
    lemma_has_section_add(zh, m, section);
    lemma_absent_shape(ls, section, updates);
    assert forall|i: int| 0 <= i < x.len() implies facts::one_line(#[trigger] x[i]) by {
        if i < zh.len() {
            assert(x[i] == zh[i]);
        } else {
            assert(x[i] == m[i - zh.len()]);
        }
    }
}

/// The updated lines are complete.
proof fn lemma_updated_again(
    ls: Seq<Seq<char>>,
    section: Seq<char>,
    updates: Seq<(Seq<char>, Seq<char>)>,
)
    requires
        valid_updates(updates),
        valid_section(section),
        forall|i: int| 0 <= i < ls.len() ==> facts::one_line(#[trigger] ls[i]),
    ensures
        complete(ini::updated_lines(ls, section, updates), section, updates),
        no_stray_cr(ls, section, updates) ==> no_stray_cr(
            ini::updated_lines(ls, section, updates),
            section,
            updates,
        ),
{
    lemma_settled(ls, section, updates);
    if ini::in_section(ls, section) {
        lemma_complete_inside(ls, section, updates);
    } else if !ini::has_section(ls, section) {
        lemma_complete_absent(ls, section, updates);
    } else {
        ini::lemma_body_len(ls, section, updates);
        assert(ini::updated_lines(ls, section, updates) =~= ini::body(ls, section, updates));
    }
}

/// What is read from lines without their carriage returns.
pub proof fn lemma_stripped(
    ls: Seq<Seq<char>>,
    section: Seq<char>,
    updates: Seq<(Seq<char>, Seq<char>)>,
)
    ensures
        ini::in_section(text::stripped(ls), section) == ini::in_section(ls, section),
        ini::has_section(ls, section) ==> ini::has_section(text::stripped(ls), section),
        forall|j: int|
            0 <= j < ls.len() ==> #[trigger] ini::hit(
                text::stripped(ls).take(j),
                text::stripped(ls)[j],
                section,
                updates,
            ) == ini::hit(ls.take(j), ls[j], section, updates),
        forall|k: int|
            ini::seen(ls, section, updates, k) ==> #[trigger] ini::seen(
                text::stripped(ls),
                section,
                updates,
                k,
            ),
    decreases ls.len(),
{
    let s = text::stripped(ls);
    if ls.len() > 0 {
        lemma_stripped(ls.drop_last(), section, updates);
        assert(text::stripped(ls.drop_last()) =~= s.drop_last());
        lemma_strip_line(ls.last());
    }
    assert forall|j: int| 0 <= j < ls.len() implies #[trigger] ini::hit(
        s.take(j),
        s[j],
        section,
        updates,
    ) == ini::hit(ls.take(j), ls[j], section, updates) by {
        lemma_strip_line(ls[j]);
        if j < ls.len() - 1 {
            let ls1 = ls.drop_last();
            assert(ls1.take(j) == ls.take(j));
            assert(text::stripped(ls1).take(j) == s.take(j));
            assert(text::stripped(ls1)[j] == s[j]);
            assert(ini::hit(text::stripped(ls1).take(j), text::stripped(ls1)[j], section, updates)
                == ini::hit(ls1.take(j), ls1[j], section, updates));
        } else {
            assert(ls.take(j) == ls.drop_last());
            assert(s.take(j) == s.drop_last());
        }
    }
    if ini::has_section(ls, section) {
        let i = choose|i: int| 0 <= i < ls.len() && ini::opens(#[trigger] ls[i], section);
        lemma_strip_line(ls[i]);
        assert(ini::opens(s[i], section));
    }
    assert forall|k: int| ini::seen(ls, section, updates, k) implies #[trigger] ini::seen(
        s,
        section,
        updates,
        k,
    ) by {
        let j = choose|j: int|
            0 <= j < ls.len() && #[trigger] ini::hit(ls.take(j), ls[j], section, updates) == Some(
                k,
            );
        assert(ini::hit(s.take(j), s[j], section, updates) == Some(k));
    }
}

/// Where nothing is missing, lines are updated one by one.
proof fn lemma_body_one_by_one(
    ls: Seq<Seq<char>>,
    section: Seq<char>,
    updates: Seq<(Seq<char>, Seq<char>)>,
)
    requires
        ini::body(ls, section, updates).len() == ls.len(),
    ensures
        forall|j: int|
            0 <= j < ls.len() ==> #[trigger] ini::body(ls, section, updates)[j]
                == ini::updated_line(ls.take(j), ls[j], section, updates),
        forall|j: int|
            0 <= j < ls.len() && ini::is_header(#[trigger] ls[j]) && ini::in_section(
                ls.take(j),
                section,
            ) ==> ini::missing(ls.take(j), section, updates, updates.len() as int).len() == 0,
    decreases ls.len(),
{
    if ls.len() > 0 {
        let ls1 = ls.drop_last();
        let n = ls1.len() as int;
        ini::lemma_body_len(ls1, section, updates);
        lemma_body_one_by_one(ls1, section, updates);
        assert(ls.take(n) == ls1);
        assert forall|j: int| 0 <= j < ls.len() implies #[trigger] ini::body(
            ls,
            section,
            updates,
        )[j] == ini::updated_line(ls.take(j), ls[j], section, updates) by {
            if j < n {
                assert(ls1.take(j) == ls.take(j));
                assert(ini::body(ls, section, updates)[j] == ini::body(ls1, section, updates)[j]);
            }
        }
        assert forall|j: int|
            0 <= j < ls.len() && ini::is_header(#[trigger] ls[j]) && ini::in_section(
                ls.take(j),
                section,
            ) implies ini::missing(ls.take(j), section, updates, updates.len() as int).len()
            == 0 by {
            if j < n {
                assert(ls1.take(j) == ls.take(j));
                assert(ls1[j] == ls[j]);
            }
        }
    }
}

/// Where the line `j` of the old file stands in the new one.
pub open spec fn place(
    ls: Seq<Seq<char>>,
    section: Seq<char>,
    updates: Seq<(Seq<char>, Seq<char>)>,
    j: int,
) -> int {
    ini::body(ls.take(j + 1), section, updates).len() - 1
}

/// The updated lines of the first part of a file are the first part of the updated lines.
proof fn lemma_body_prefix(
    ls: Seq<Seq<char>>,
    section: Seq<char>,
    updates: Seq<(Seq<char>, Seq<char>)>,
    n: int,
)
    requires
        0 <= n <= ls.len(),
    ensures
        ini::body(ls.take(n), section, updates).is_prefix_of(ini::body(ls, section, updates)),
    decreases ls.len(),
{
    if n < ls.len() {
        lemma_body_prefix(ls.drop_last(), section, updates, n);
        assert(ls.drop_last().take(n) == ls.take(n));
    } else {
        assert(ls.take(n) == ls);
    }
}

/// Every line of the old file stands in the new one, in the old order; and it is the old line,
/// unless it stands for an update.
pub proof fn law_update_keeps_lines(
    ls: Seq<Seq<char>>,
    section: Seq<char>,
    updates: Seq<(Seq<char>, Seq<char>)>,
    j: int,
)
    requires
        0 <= j < ls.len(),
    ensures
        ({
            let r = ini::updated_lines(ls, section, updates);
            let p = place(ls, section, updates, j);
            &&& 0 <= p < r.len()
            &&& r[p] == ini::updated_line(ls.take(j), ls[j], section, updates)
            &&& ini::hit(ls.take(j), ls[j], section, updates) is None ==> r[p] == ls[j]
            &&& j > 0 ==> place(ls, section, updates, j - 1) < p
        }),
{
    let now = ls.take(j + 1);
    lemma_body_prefix(ls, section, updates, j + 1);
    assert(now.drop_last() == ls.take(j));
    assert(now.last() == ls[j]);
    let b = ini::body(now, section, updates);
    let all = ini::body(ls, section, updates);
    assert(b.last() == ini::updated_line(ls.take(j), ls[j], section, updates));
    assert(all[b.len() - 1] == all.subrange(0, b.len() as int)[b.len() - 1]);
}

/// The lines of a section that set a key.
pub open spec fn settings(ls: Seq<Seq<char>>, section: Seq<char>) -> Seq<Seq<char>>
    decreases ls.len(),
{
    if ls.len() == 0 {
        Seq::empty()
    } else {
        let rest = settings(ls.drop_last(), section);
        if ini::in_section(ls.drop_last(), section) && ini::sets_key(ls.last()) {
            rest.push(ls.last())
        } else {
            rest
        }
    }
}

/// These lines set what the updates say: each of the updates is made by one of them, and each of
/// them that sets the key of an update sets its value, without the white space at its ends.
pub open spec fn settled_by(
    lines: Seq<Seq<char>>,
    updates: Seq<(Seq<char>, Seq<char>)>,
) -> bool {
    &&& forall|k: int| 0 <= k < updates.len() ==> #[trigger] makes_update(lines, updates, k)
    &&& forall|m: int|
        0 <= m < lines.len() ==> (ini::update_for(
            updates,
            ini::key_of(#[trigger] lines[m]),
        ) matches Some(k) ==> value_of(lines[m]) == text::trim(updates[k].1))
}

/// One of the lines sets the key of the update `k`.
pub open spec fn makes_update(
    lines: Seq<Seq<char>>,
    updates: Seq<(Seq<char>, Seq<char>)>,
    k: int,
) -> bool {
    exists|m: int|
        0 <= m < lines.len() && ini::update_for(updates, ini::key_of(#[trigger] lines[m])) == Some(
            k,
        )
}

/// The line `j` stands in the section and sets a key.
pub open spec fn is_setting(ls: Seq<Seq<char>>, section: Seq<char>, j: int) -> bool {
    &&& 0 <= j < ls.len()
    &&& ini::in_section(ls.take(j), section)
    &&& ini::sets_key(ls[j])
}

/// The same line is a setting with or without the line behind all others.
proof fn lemma_is_setting_drop(ls: Seq<Seq<char>>, section: Seq<char>, j: int)
    requires
        0 <= j < ls.len() - 1,
    ensures
        is_setting(ls.drop_last(), section, j) == is_setting(ls, section, j),
        ls.drop_last()[j] == ls[j],
{
    assert(ls.drop_last().take(j) =~= ls.take(j));
}

/// Where a setting stands among the lines.
proof fn lemma_setting_from(ls: Seq<Seq<char>>, section: Seq<char>, m: int) -> (j: int)
    requires
        0 <= m < settings(ls, section).len(),
    ensures
        is_setting(ls, section, j),
        ls[j] == settings(ls, section)[m],
    decreases ls.len(),
{
    let ls1 = ls.drop_last();
    let n = ls1.len() as int;
    if m < settings(ls1, section).len() {
        let j = lemma_setting_from(ls1, section, m);
        lemma_is_setting_drop(ls, section, j);
        j
    } else {
        assert(ls.take(n) =~= ls1);
        n
    }
}

/// Where a line that sets a key stands among the settings.
proof fn lemma_setting_at(ls: Seq<Seq<char>>, section: Seq<char>, j: int) -> (m: int)
    requires
        is_setting(ls, section, j),
    ensures
        0 <= m < settings(ls, section).len(),
        settings(ls, section)[m] == ls[j],
    decreases ls.len(),
{
    let ls1 = ls.drop_last();
    let n = ls1.len() as int;
    if j < n {
        lemma_is_setting_drop(ls, section, j);
        lemma_setting_at(ls1, section, j)
    } else {
        assert(ls.take(n) =~= ls1);
        settings(ls1, section).len() as int
    }
}

/// What is read from an updated file: it has the section, and the section sets what the updates
/// say.
pub proof fn law_update_read_back(
    content: Seq<char>,
    section: Seq<char>,
    updates: Seq<(Seq<char>, Seq<char>)>,
)
    requires
        valid_updates(updates),
        valid_section(section),
    ensures
        ({
            let r = text::lines(ini::updated_file(content, section, updates));
            &&& ini::has_section(r, section)
            &&& settled_by(settings(r, section), updates)
        }),
{
    let ls = text::lines(content);
    facts::lemma_lines_one_line(content);
    lemma_updated_again(ls, section, updates);
    let x = ini::updated_lines(ls, section, updates);
    facts::lemma_lines_of_file(x);
    let r = text::stripped(x);
    assert(text::lines(text::file_text(x)) == r);
    lemma_stripped(x, section, updates);
    lemma_body_one_by_one(x, section, updates);
    let found = settings(r, section);
    assert forall|k: int| 0 <= k < updates.len() implies #[trigger] makes_update(
        found,
        updates,
        k,
    ) by {
        assert(ini::seen(x, section, updates, k));
        assert(ini::seen(r, section, updates, k));
        let j = choose|j: int|
            0 <= j < r.len() && #[trigger] ini::hit(r.take(j), r[j], section, updates) == Some(k);
        let m = lemma_setting_at(r, section, j);
        assert(ini::update_for(updates, ini::key_of(found[m])) == Some(k));
    }
    assert forall|m: int| 0 <= m < found.len() implies (ini::update_for(
        updates,
        ini::key_of(#[trigger] found[m]),
    ) matches Some(k) ==> value_of(found[m]) == text::trim(updates[k].1)) by {
        if let Some(k) = ini::update_for(updates, ini::key_of(found[m])) {
            let j = lemma_setting_from(r, section, m);
            assert(ini::hit(r.take(j), r[j], section, updates) == Some(k));
            assert(ini::hit(x.take(j), x[j], section, updates) == Some(k));
            lemma_strip_line(x[j]);
            assert(ini::body(x, section, updates)[j] == x[j]);
            lemma_hit_value(x.take(j), x[j], section, updates);
        }
    }
}

/// The settings in lines without their carriage returns.
pub proof fn lemma_settings_stripped(ls: Seq<Seq<char>>, section: Seq<char>)
    ensures
        settings(text::stripped(ls), section) == text::stripped(settings(ls, section)),
        ini::in_section(text::stripped(ls), section) == ini::in_section(ls, section),
    decreases ls.len(),
{
    if ls.len() > 0 {
        lemma_settings_stripped(ls.drop_last(), section);
        lemma_strip_line(ls.last());
        assert(text::stripped(ls).drop_last() =~= text::stripped(ls.drop_last()));
    }
    assert(settings(text::stripped(ls), section) =~= text::stripped(settings(ls, section)));
}

/// Settings set a key.
proof fn lemma_settings_set(ls: Seq<Seq<char>>, section: Seq<char>)
    ensures
        forall|m: int|
            0 <= m < settings(ls, section).len() ==> ini::sets_key(
                #[trigger] settings(ls, section)[m],
            ),
    decreases ls.len(),
{
    if ls.len() > 0 {
        lemma_settings_set(ls.drop_last(), section);
        let rest = settings(ls.drop_last(), section);
        let all = settings(ls, section);
        assert forall|m: int| 0 <= m < all.len() implies ini::sets_key(#[trigger] all[m]) by {
            if m < rest.len() {
                assert(rest[m] == all[m]);
            }
        }
    }
}

/// A carriage return at the end of a line changes no setting.
pub proof fn lemma_settled_by_stripped(
    ls: Seq<Seq<char>>,
    section: Seq<char>,
    updates: Seq<(Seq<char>, Seq<char>)>,
)
    requires
        settled_by(settings(ls, section), updates),
    ensures
        settled_by(text::stripped(settings(ls, section)), updates),
{
    let a = settings(ls, section);
    let b = text::stripped(a);
    lemma_settings_set(ls, section);
    assert forall|m: int| 0 <= m < a.len() implies ini::key_of(#[trigger] b[m]) == ini::key_of(a[m])
        && value_of(b[m]) == value_of(a[m]) by {
        assert(ini::sets_key(a[m]));
        lemma_strip_line(a[m]);
    }
    assert forall|k: int| 0 <= k < updates.len() implies #[trigger] makes_update(b, updates, k) by {
        assert(makes_update(a, updates, k));
        let m = choose|m: int|
            0 <= m < a.len() && ini::update_for(updates, ini::key_of(#[trigger] a[m])) == Some(k);
        assert(ini::key_of(b[m]) == ini::key_of(a[m]));
    }
    assert forall|m: int| 0 <= m < b.len() implies (ini::update_for(
        updates,
        ini::key_of(#[trigger] b[m]),
    ) matches Some(k) ==> value_of(b[m]) == text::trim(updates[k].1)) by {
        assert(ini::key_of(b[m]) == ini::key_of(a[m]));
    }
}

/// The value of a line that an update has been made to.
proof fn lemma_hit_value(
    before: Seq<Seq<char>>,
    line: Seq<char>,
    section: Seq<char>,
    updates: Seq<(Seq<char>, Seq<char>)>,
)
    requires
        ini::hit(before, line, section, updates) is Some,
        ini::updated_line(before, line, section, updates) == line,
    ensures
        value_of(line) == text::trim(
            updates[ini::hit(before, line, section, updates).unwrap()].1,
        ),
{
    let k = ini::hit(before, line, section, updates).unwrap();
    let w = text::indent(line);
    let key = ini::key_of(line);
    let value = updates[k].1;
    let left = w + key;
    let n = left.len() as int;
    text::lemma_split_once(line, '=');
    let first = text::split_once(line, '=').unwrap().0;
    facts::lemma_trim(first);
    facts::lemma_white_prefix(line);
    assert(line == left.push('=') + value);
    assert(line[n] == '=');
    assert(line.take(n) == left);
    assert(line.skip(n + 1) == value);
    assert(!left.contains('=')) by {
        if left.contains('=') {
            let i = choose|i: int| 0 <= i < left.len() && left[i] == '=';
            if i < w.len() {
                assert(text::is_white_space(w[i]));
            } else {
                assert(key[i - w.len()] == '=');
            }
        }
    }
    text::lemma_first_at(line, '=', n);
}

/// Where nothing is missing, every update was seen.
proof fn lemma_all_seen(
    ls: Seq<Seq<char>>,
    section: Seq<char>,
    updates: Seq<(Seq<char>, Seq<char>)>,
    n: int,
)
    requires
        ini::missing(ls, section, updates, n).len() == 0,
    ensures
        forall|k: int| 0 <= k < n ==> #[trigger] ini::seen(ls, section, updates, k),
    decreases n,
{
    if n > 0 {
        lemma_all_seen(ls, section, updates, n - 1);
    }
}

/// Updating lines that lost only carriage returns of their values gives them back.
proof fn lemma_stripped_body(
    x: Seq<Seq<char>>,
    section: Seq<char>,
    updates: Seq<(Seq<char>, Seq<char>)>,
    n: int,
)
    requires
        ini::body(x, section, updates) == x,
        no_stray_cr(x, section, updates),
        0 <= n <= x.len(),
    ensures
        ini::body(text::stripped(x).take(n), section, updates) == x.take(n),
    decreases n,
{
    let r = text::stripped(x);
    if n > 0 {
        lemma_stripped_body(x, section, updates, n - 1);
        lemma_body_one_by_one(x, section, updates);
        let x1 = x.take(n - 1);
        let r1 = r.take(n - 1);
        let rn = r.take(n);
        assert(r1 =~= text::stripped(x1));
        assert(rn.drop_last() =~= r1);
        assert(rn.last() == r[n - 1]);
        lemma_stripped(x, section, updates);
        lemma_stripped(x1, section, updates);
        lemma_strip_line(x[n - 1]);
        assert(ini::hit(r.take(n - 1), r[n - 1], section, updates) == ini::hit(
            x1,
            x[n - 1],
            section,
            updates,
        ));
        assert(ini::body(x, section, updates)[n - 1] == x[n - 1]);
        assert(ini::updated_line(r1, r[n - 1], section, updates) == x[n - 1]);
        if ini::is_header(x[n - 1]) && ini::in_section(x1, section) {
            lemma_all_seen(x1, section, updates, updates.len() as int);
            assert forall|k: int| 0 <= k < updates.len() implies #[trigger] ini::seen(
                r1,
                section,
                updates,
                k,
            ) by {
                assert(ini::seen(x1, section, updates, k));
            }
            lemma_nothing_missing(r1, section, updates, updates.len() as int);
        }
        assert(ini::body(rn, section, updates) =~= x.take(n));
    } else {
        assert(r.take(0) =~= Seq::<Seq<char>>::empty());
        assert(x.take(0) =~= Seq::<Seq<char>>::empty());
    }
}

/// Updating the same section with the same updates again changes nothing, unless a line that
/// stays as it is ends in a stray carriage return.
pub proof fn law_update_twice(
    content: Seq<char>,
    section: Seq<char>,
    updates: Seq<(Seq<char>, Seq<char>)>,
)
    requires
        valid_updates(updates),
        valid_section(section),
        no_stray_cr(text::lines(content), section, updates),
    ensures
        ini::updated_file(ini::updated_file(content, section, updates), section, updates)
            == ini::updated_file(content, section, updates),
{
    let ls = text::lines(content);
    facts::lemma_lines_one_line(content);
    lemma_updated_again(ls, section, updates);
    let x = ini::updated_lines(ls, section, updates);
    facts::lemma_lines_of_file(x);
    let r = text::stripped(x);
    assert(text::lines(text::file_text(x)) == r);
    lemma_stripped_body(x, section, updates, x.len() as int);
    assert(r.take(x.len() as int) == r);
    assert(x.take(x.len() as int) == x);
    lemma_stripped(x, section, updates);
    assert forall|k: int| 0 <= k < updates.len() implies #[trigger] ini::seen(
        r,
        section,
        updates,
        k,
    ) by {
        assert(ini::seen(x, section, updates, k));
    }
    lemma_nothing_missing(r, section, updates, updates.len() as int);
    assert(ini::updated_lines(r, section, updates) =~= x);
}

} // verus!
