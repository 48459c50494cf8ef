//! What holds of updates to different sections of an INI file: neither touches the other, and their
//! order makes no difference.

use crate::facts;
use crate::ini;
use crate::ini_laws;
use crate::text;
use vstd::prelude::*;

verus! {

/// Each line that the updates add is one line, and does not look like a section header.
pub open spec fn plain_updates(updates: Seq<(Seq<char>, Seq<char>)>) -> bool {
    forall|i: int|
        0 <= i < updates.len() ==> facts::one_line(ini::update_line(#[trigger] updates[i]))
            && !ini::is_header(ini::update_line(updates[i]))
}

/// No value of the updates ends in a carriage return, which would go with the end of its line.
pub open spec fn keeps_ends(updates: Seq<(Seq<char>, Seq<char>)>) -> bool {
    forall|i: int|
        0 <= i < updates.len() ==> text::strip_cr((#[trigger] updates[i]).1) == updates[i].1
}

/// No line opens both sections.
pub open spec fn apart(a: Seq<char>, b: Seq<char>) -> bool {
    forall|line: Seq<char>| #[trigger] ini::opens(line, a) ==> !ini::opens(line, b)
}

/// No line opens two sections whose names differ in more than the case of letters.
proof fn lemma_apart(a: Seq<char>, b: Seq<char>)
    requires
        !text::same_ignoring_case(a, b),
    ensures
        apart(a, b),
        apart(b, a),
{
    assert forall|line: Seq<char>| ini::opens(line, a) && ini::opens(line, b) implies false by {
        let name = ini::header_name(line);
        assert forall|i: int| 0 <= i < a.len() implies text::ascii_lower(#[trigger] a[i])
            == text::ascii_lower(b[i]) by {
            assert(text::ascii_lower(name[i]) == text::ascii_lower(a[i]));
            assert(text::ascii_lower(name[i]) == text::ascii_lower(b[i]));
        }
    }
}

/// A name that differs from that of a header only by the case of letters is as clean.
proof fn lemma_opened_is_clean(line: Seq<char>, section: Seq<char>)
    requires
        ini::opens(line, section),
    ensures
        text::trim(section) == section,
{
    let name = ini::header_name(line);
    let t = text::trim(line);
    facts::lemma_trim(t.subrange(1, t.len() - 1));
    if section.len() > 0 {
        assert(text::ascii_lower(name[0]) == text::ascii_lower(section[0]));
        let n = name.len() - 1;
        assert(text::ascii_lower(name[n]) == text::ascii_lower(section[n]));
    }
    facts::lemma_trim_clean(section);
}

/// No line opens a section and the section that a header with the other name would open.
proof fn lemma_apart_trimmed(a: Seq<char>, b: Seq<char>)
    requires
        !text::same_ignoring_case(a, text::trim(b)),
    ensures
        apart(a, b),
{
    assert forall|line: Seq<char>| ini::opens(line, a) && ini::opens(line, b) implies false by {
        lemma_opened_is_clean(line, b);
        lemma_apart(a, b);
    }
}

/// Two sections that no line opens both are not gone on with by the same line.
proof fn lemma_not_in_both(ls: Seq<Seq<char>>, a: Seq<char>, b: Seq<char>)
    requires
        apart(a, b),
    ensures
        !(ini::in_section(ls, a) && ini::in_section(ls, b)),
    decreases ls.len(),
{
    if ls.len() > 0 {
        lemma_not_in_both(ls.drop_last(), a, b);
    }
}

/// When a line made of white space, a key and a value looks like a header.
proof fn lemma_header_shape(w: Seq<char>, key: Seq<char>, value: Seq<char>)
    requires
        facts::all_white(w),
        key.len() > 0 ==> !text::is_white_space(key[0]),
    ensures
        ini::is_header((w + key).push('=') + value) == (key.len() > 0 && key[0] == '['
            && text::trim_end(value).len() > 0 && text::trim_end(value).last() == ']'),
{
    let line = (w + key).push('=') + value;
    let tail = key.push('=') + value;
    let v = text::trim_end(value);
    let x = value.skip(v.len() as int);
    let core = key.push('=') + v;
    assert(line =~= w + tail);
    assert(tail[0] == (if key.len() > 0 {
        key[0]
    } else {
        '='
    }));
    facts::lemma_indent(w, tail);
    facts::lemma_trim_end(value);
    assert(value =~= v + x);
    assert(tail =~= core + x);
    assert(core.last() == (if v.len() > 0 {
        v.last()
    } else {
        '='
    }));
    facts::lemma_trim_end_white(core, x);
    assert(text::trim(line) == core);
    assert(core[0] == tail[0]);
}

/// Updates are plain where their keys and values are of one line, no key starts with white space,
/// and none of the lines looks like a header.
pub proof fn lemma_plain_updates(updates: Seq<(Seq<char>, Seq<char>)>)
    requires
        forall|i: int|
            0 <= i < updates.len() ==> {
                let (key, value) = #[trigger] updates[i];
                &&& facts::one_line(key)
                &&& facts::one_line(value)
                &&& key.len() > 0 ==> !text::is_white_space(key[0]) && !ini_laws::looks_like_header(
                    key,
                    value,
                )
            },
    ensures
        plain_updates(updates),
{
    assert forall|i: int| 0 <= i < updates.len() implies facts::one_line(
        ini::update_line(#[trigger] updates[i]),
    ) && !ini::is_header(ini::update_line(updates[i])) by {
        let (key, value) = updates[i];
        let line = ini::update_line(updates[i]);
        let e = Seq::<char>::empty();
        lemma_header_shape(e, key, value);
        lemma_one_line_parts(e, key, value);
        assert((e + key).push('=') + value =~= line);
    }
}

/// The indent and the key of a line that sets a key.
proof fn lemma_key_parts(line: Seq<char>)
    requires
        ini::sets_key(line),
    ensures
        facts::clean(ini::key_of(line)),
        facts::all_white(text::indent(line)),
        facts::one_line(line) ==> facts::one_line(text::indent(line)) && facts::one_line(
            ini::key_of(line),
        ),
{
    text::lemma_split_once(line, '=');
    let left = text::split_once(line, '=').unwrap().0;
    let w = text::indent(line);
    facts::lemma_trim(left);
    facts::lemma_white_prefix(line);
    if w.contains('\n') {
        let i = choose|i: int| 0 <= i < w.len() && w[i] == '\n';
        assert(line[i] == '\n');
    }
    if ini::key_of(line).contains('\n') {
        let i = choose|i: int| 0 <= i < left.len() && left[i] == '\n';
        assert(line[i] == '\n');
    }
}

/// A line made of parts of one line is one line, and so are the parts of one.
proof fn lemma_one_line_parts(w: Seq<char>, key: Seq<char>, value: Seq<char>)
    ensures
        facts::one_line((w + key).push('=') + value) == (facts::one_line(w) && facts::one_line(key)
            && facts::one_line(value)),
{
    let line = (w + key).push('=') + value;
    let n = w.len() + key.len();
    if w.contains('\n') {
        let i = choose|i: int| 0 <= i < w.len() && w[i] == '\n';
        assert(line[i] == '\n');
    }
    if key.contains('\n') {
        let i = choose|i: int| 0 <= i < key.len() && key[i] == '\n';
        assert(line[w.len() + i] == '\n');
    }
    if value.contains('\n') {
        let i = choose|i: int| 0 <= i < value.len() && value[i] == '\n';
        assert(line[n + 1 + i] == '\n');
    }
    if line.contains('\n') {
        let i = choose|i: int| 0 <= i < line.len() && line[i] == '\n';
        if i < w.len() {
            assert(w[i] == '\n');
        } else if i < n {
            assert(key[i - w.len()] == '\n');
        } else if i > n {
            assert(value[i - n - 1] == '\n');
        }
    }
}

/// A line that an update is made to stays one line and no header, and a header stays as it is.
proof fn lemma_updated_line(
    before: Seq<Seq<char>>,
    line: Seq<char>,
    section: Seq<char>,
    updates: Seq<(Seq<char>, Seq<char>)>,
)
    requires
        plain_updates(updates),
    ensures
        ({
            let new_line = ini::updated_line(before, line, section, updates);
            &&& ini::is_header(new_line) == ini::is_header(line)
            &&& ini::is_header(line) ==> new_line == line
            &&& facts::one_line(line) ==> facts::one_line(new_line)
        }),
{
    if let Some(k) = ini::hit(before, line, section, updates) {
        let key = ini::key_of(line);
        let w = text::indent(line);
        ini::lemma_update_for(updates, key);
        lemma_key_parts(line);
        lemma_replaced_line(w, key, updates, k);
    }
}

/// A line with the key of an update but for the case of letters, and its value.
proof fn lemma_replaced_line(
    w: Seq<char>,
    key: Seq<char>,
    updates: Seq<(Seq<char>, Seq<char>)>,
    k: int,
)
    requires
        plain_updates(updates),
        0 <= k < updates.len(),
        text::same_ignoring_case(key, updates[k].0),
        facts::clean(key),
        facts::all_white(w),
    ensures
        ({
            let line = (w + key).push('=') + updates[k].1;
            &&& !ini::is_header(line)
            &&& facts::one_line(w) && facts::one_line(key) ==> facts::one_line(line)
        }),
{
    let (name, value) = updates[k];
    let e = Seq::<char>::empty();
    if key.len() > 0 {
        assert(text::ascii_lower(key[0]) == text::ascii_lower(name[0]));
    }
    assert((e + name).push('=') + value =~= ini::update_line(updates[k]));
    lemma_header_shape(w, key, value);
    lemma_header_shape(e, name, value);
    lemma_one_line_parts(w, key, value);
    lemma_one_line_parts(e, name, value);
}

/// What is missing are lines that the updates add.
proof fn lemma_missing_from(
    from: Seq<Seq<char>>,
    section: Seq<char>,
    updates: Seq<(Seq<char>, Seq<char>)>,
    n: int,
    i: int,
) -> (k: int)
    requires
        0 <= n <= updates.len(),
        0 <= i < ini::missing(from, section, updates, n).len(),
    ensures
        0 <= k < updates.len(),
        ini::missing(from, section, updates, n)[i] == ini::update_line(updates[k]),
    decreases n,
{
    let rest = ini::missing(from, section, updates, n - 1);
    if i < rest.len() {
        lemma_missing_from(from, section, updates, n - 1, i)
    } else {
        n - 1
    }
}

/// None of the lines is a header.
pub open spec fn no_header(ls: Seq<Seq<char>>) -> bool {
    forall|i: int| 0 <= i < ls.len() ==> !ini::is_header(#[trigger] ls[i])
}

/// What is missing holds no header, and only lines of one line each.
proof fn lemma_missing_plain(
    from: Seq<Seq<char>>,
    section: Seq<char>,
    updates: Seq<(Seq<char>, Seq<char>)>,
    n: int,
)
    requires
        plain_updates(updates),
        0 <= n <= updates.len(),
    ensures
        no_header(ini::missing(from, section, updates, n)),
        forall|i: int|
            0 <= i < ini::missing(from, section, updates, n).len() ==> facts::one_line(
                #[trigger] ini::missing(from, section, updates, n)[i],
            ),
{
    let m = ini::missing(from, section, updates, n);
    assert forall|i: int| 0 <= i < m.len() implies !ini::is_header(#[trigger] m[i])
        && facts::one_line(m[i]) by {
        let k = lemma_missing_from(from, section, updates, n, i);
        assert(ini::update_line(updates[k]) == m[i]);
    }
}

/// The same is missing where the same was seen.
proof fn lemma_missing_same(
    x: Seq<Seq<char>>,
    y: Seq<Seq<char>>,
    section: Seq<char>,
    updates: Seq<(Seq<char>, Seq<char>)>,
    n: int,
)
    requires
        forall|k: int| #[trigger]
            ini::seen(x, section, updates, k) == ini::seen(y, section, updates, k),
    ensures
        ini::missing(x, section, updates, n) == ini::missing(y, section, updates, n),
    decreases n,
{
    if n > 0 {
        lemma_missing_same(x, y, section, updates, n - 1);
        assert(ini::seen(x, section, updates, n - 1) == ini::seen(y, section, updates, n - 1));
    }
}

/// Lines without a header belong to the section of the lines before them.
proof fn lemma_in_section_add(x: Seq<Seq<char>>, y: Seq<Seq<char>>, section: Seq<char>)
    requires
        no_header(y),
    ensures
        ini::in_section(x + y, section) == ini::in_section(x, section),
        ini::has_section(x + y, section) == ini::has_section(x, section),
    decreases y.len(),
{
    if y.len() > 0 {
        let y1 = y.drop_last();
        assert forall|i: int| 0 <= i < y1.len() implies !ini::is_header(#[trigger] y1[i]) by {
            assert(y1[i] == y[i]);
        }
        lemma_in_section_add(x, y1, section);
        assert(!ini::is_header(y[y.len() - 1]));
        assert(x + y =~= (x + y1).push(y.last()));
        ini_laws::lemma_in_section_push(x + y1, y.last(), section);
        ini::lemma_has_section_push(x + y1, y.last(), section);
    } else {
        assert(x + y =~= x);
    }
}

/// Lines without a header outside the section: an update of the section leaves them as they are,
/// sees nothing in them, and finds no setting there.
proof fn lemma_add_outside(
    x: Seq<Seq<char>>,
    y: Seq<Seq<char>>,
    section: Seq<char>,
    updates: Seq<(Seq<char>, Seq<char>)>,
)
    requires
        no_header(y),
        !ini::in_section(x, section),
    ensures
        ini::body(x + y, section, updates) == ini::body(x, section, updates) + y,
        forall|k: int| #[trigger]
            ini::seen(x + y, section, updates, k) == ini::seen(x, section, updates, k),
        ini_laws::settings(x + y, section) == ini_laws::settings(x, section),
    decreases y.len(),
{
    if y.len() > 0 {
        let y1 = y.drop_last();
        let line = y.last();
        assert forall|i: int| 0 <= i < y1.len() implies !ini::is_header(#[trigger] y1[i]) by {
            assert(y1[i] == y[i]);
        }
        assert(!ini::is_header(y[y.len() - 1]));
        lemma_add_outside(x, y1, section, updates);
        lemma_in_section_add(x, y1, section);
        assert(x + y =~= (x + y1).push(line));
        assert((x + y).drop_last() =~= x + y1);
        ini::lemma_seen_push(x + y1, line, section, updates);
        assert(ini::body(x + y, section, updates) =~= ini::body(x, section, updates) + y);
    } else {
        assert(x + y =~= x);
        assert(ini::body(x, section, updates) + y =~= ini::body(x, section, updates));
    }
}

/// What the update of a section adds before a line.
spec fn added_before(
    before: Seq<Seq<char>>,
    line: Seq<char>,
    section: Seq<char>,
    updates: Seq<(Seq<char>, Seq<char>)>,
) -> Seq<Seq<char>> {
    if ini::is_header(line) && ini::in_section(before, section) {
        ini::missing(before, section, updates, updates.len() as int)
    } else {
        Seq::empty()
    }
}

/// What is added before a line holds no header.
proof fn lemma_added_plain(
    before: Seq<Seq<char>>,
    line: Seq<char>,
    section: Seq<char>,
    updates: Seq<(Seq<char>, Seq<char>)>,
)
    requires
        plain_updates(updates),
    ensures
        no_header(added_before(before, line, section, updates)),
        forall|i: int|
            0 <= i < added_before(before, line, section, updates).len() ==> facts::one_line(
                #[trigger] added_before(before, line, section, updates)[i],
            ),
{
    lemma_missing_plain(before, section, updates, updates.len() as int);
}

/// Updated lines open the sections that the old lines open.
proof fn lemma_body_in_section(
    ls: Seq<Seq<char>>,
    a: Seq<char>,
    updates: Seq<(Seq<char>, Seq<char>)>,
    section: Seq<char>,
)
    requires
        plain_updates(updates),
    ensures
        ini::in_section(ini::body(ls, a, updates), section) == ini::in_section(ls, section),
        ini::has_section(ini::body(ls, a, updates), section) == ini::has_section(ls, section),
    decreases ls.len(),
{
    if ls.len() > 0 {
        let ls1 = ls.drop_last();
        let line = ls.last();
        let x1 = ini::body(ls1, a, updates);
        let added = added_before(ls1, line, a, updates);
        let new_line = ini::updated_line(ls1, line, a, updates);
        lemma_body_in_section(ls1, a, updates, section);
        lemma_added_plain(ls1, line, a, updates);
        lemma_in_section_add(x1, added, section);
        lemma_updated_line(ls1, line, a, updates);
        assert(ls =~= ls1.push(line));
        assert(ini::body(ls, a, updates) =~= (x1 + added).push(new_line));
        ini_laws::lemma_in_section_push(ls1, line, section);
        ini_laws::lemma_in_section_push(x1 + added, new_line, section);
        ini::lemma_has_section_push(ls1, line, section);
        ini::lemma_has_section_push(x1 + added, new_line, section);
    }
}

/// The update of one section changes nothing that the update of another sees.
proof fn lemma_body_seen(
    ls: Seq<Seq<char>>,
    a: Seq<char>,
    ua: Seq<(Seq<char>, Seq<char>)>,
    b: Seq<char>,
    ub: Seq<(Seq<char>, Seq<char>)>,
)
    requires
        plain_updates(ua),
        apart(a, b),
    ensures
        forall|k: int| #[trigger]
            ini::seen(ini::body(ls, a, ua), b, ub, k) == ini::seen(ls, b, ub, k),
        ini_laws::settings(ini::body(ls, a, ua), b) == ini_laws::settings(ls, b),
    decreases ls.len(),
{
    if ls.len() > 0 {
        let ls1 = ls.drop_last();
        let line = ls.last();
        let x1 = ini::body(ls1, a, ua);
        let added = added_before(ls1, line, a, ua);
        let x2 = x1 + added;
        let new_line = ini::updated_line(ls1, line, a, ua);
        lemma_body_seen(ls1, a, ua, b, ub);
        lemma_body_in_section(ls1, a, ua, b);
        lemma_not_in_both(ls1, a, b);
        lemma_added_plain(ls1, line, a, ua);
        lemma_in_section_add(x1, added, b);
        if ini::in_section(ls1, b) {
            assert(x2 =~= x1);
        } else {
            lemma_add_outside(x1, added, b, ub);
        }
        lemma_updated_line(ls1, line, a, ua);
        assert(ls =~= ls1.push(line));
        assert(ini::body(ls, a, ua) =~= x2.push(new_line));
        ini::lemma_seen_push(ls1, line, b, ub);
        ini::lemma_seen_push(x2, new_line, b, ub);
        assert(ini::hit(x2, new_line, b, ub) == ini::hit(ls1, line, b, ub));
        assert(x2.push(new_line).drop_last() =~= x2);
    } else {
        assert(ini::body(ls, a, ua) =~= ls);
    }
}

/// One step of two updates in a row: what both add before a line, and what becomes of the line.
proof fn lemma_body_step(
    ls1: Seq<Seq<char>>,
    line: Seq<char>,
    a: Seq<char>,
    ua: Seq<(Seq<char>, Seq<char>)>,
    b: Seq<char>,
    ub: Seq<(Seq<char>, Seq<char>)>,
)
    requires
        plain_updates(ua),
        apart(a, b),
    ensures
        ini::body(ini::body(ls1.push(line), a, ua), b, ub) == (ini::body(
            ini::body(ls1, a, ua),
            b,
            ub,
        ) + added_before(ls1, line, a, ua) + added_before(ls1, line, b, ub)).push(
            if ini::in_section(ls1, b) {
                ini::updated_line(ls1, line, b, ub)
            } else {
                ini::updated_line(ls1, line, a, ua)
            },
        ),
{
    let x1 = ini::body(ls1, a, ua);
    let added = added_before(ls1, line, a, ua);
    let x2 = x1 + added;
    let new_line = ini::updated_line(ls1, line, a, ua);
    lemma_body_seen(ls1, a, ua, b, ub);
    lemma_body_in_section(ls1, a, ua, b);
    lemma_not_in_both(ls1, a, b);
    lemma_added_plain(ls1, line, a, ua);
    lemma_in_section_add(x1, added, b);
    lemma_updated_line(ls1, line, a, ua);
    assert(ls1.push(line).drop_last() =~= ls1);
    assert(ini::body(ls1.push(line), a, ua) =~= x2.push(new_line));
    assert(x2.push(new_line).drop_last() =~= x2);
    let z = ini::body(x1, b, ub);
    if ini::in_section(ls1, b) {
        assert(x2 =~= x1);
        assert(new_line == line);
        lemma_missing_same(x1, ls1, b, ub, ub.len() as int);
        assert(z + added =~= z);
    } else {
        lemma_add_outside(x1, added, b, ub);
        assert(z + added + added_before(ls1, line, b, ub) =~= z + added);
    }
    assert(added_before(x2, new_line, b, ub) == added_before(ls1, line, b, ub));
    assert(ini::body(x2.push(new_line), b, ub) =~= (ini::body(x2, b, ub) + added_before(
        x2,
        new_line,
        b,
        ub,
    )).push(ini::updated_line(x2, new_line, b, ub)));
}

/// The order of two updates makes no difference to the lines up to the last.
proof fn lemma_bodies_commute(
    ls: Seq<Seq<char>>,
    a: Seq<char>,
    ua: Seq<(Seq<char>, Seq<char>)>,
    b: Seq<char>,
    ub: Seq<(Seq<char>, Seq<char>)>,
)
    requires
        plain_updates(ua),
        plain_updates(ub),
        apart(a, b),
        apart(b, a),
    ensures
        ini::body(ini::body(ls, a, ua), b, ub) == ini::body(ini::body(ls, b, ub), a, ua),
    decreases ls.len(),
{
    if ls.len() > 0 {
        let ls1 = ls.drop_last();
        let line = ls.last();
        assert(ls =~= ls1.push(line));
        lemma_bodies_commute(ls1, a, ua, b, ub);
        lemma_body_step(ls1, line, a, ua, b, ub);
        lemma_body_step(ls1, line, b, ub, a, ua);
        lemma_not_in_both(ls1, a, b);
        let z = ini::body(ini::body(ls1, a, ua), b, ub);
        let xa = added_before(ls1, line, a, ua);
        let xb = added_before(ls1, line, b, ub);
        assert(xa.len() == 0 || xb.len() == 0);
        assert(z + xa + xb =~= z + xb + xa);
    }
}

/// What the update of a section adds at the end of a file that has the section.
spec fn added_last(
    ls: Seq<Seq<char>>,
    section: Seq<char>,
    updates: Seq<(Seq<char>, Seq<char>)>,
) -> Seq<Seq<char>> {
    if ini::in_section(ls, section) {
        ini::missing(ls, section, updates, updates.len() as int)
    } else {
        Seq::empty()
    }
}

/// The lines after two updates in a row of a file that has both sections.
proof fn lemma_lines_after_both(
    ls: Seq<Seq<char>>,
    a: Seq<char>,
    ua: Seq<(Seq<char>, Seq<char>)>,
    b: Seq<char>,
    ub: Seq<(Seq<char>, Seq<char>)>,
)
    requires
        plain_updates(ua),
        apart(a, b),
        ini::has_section(ls, a),
        ini::has_section(ls, b),
    ensures
        ini::has_section(ini::updated_lines(ls, a, ua), b),
        ini::updated_lines(ini::updated_lines(ls, a, ua), b, ub) == ini::body(
            ini::body(ls, a, ua),
            b,
            ub,
        ) + added_last(ls, a, ua) + added_last(ls, b, ub),
{
    let x = ini::body(ls, a, ua);
    let added = added_last(ls, a, ua);
    let o = x + added;
    assert(ini::updated_lines(ls, a, ua) =~= o);
    lemma_body_seen(ls, a, ua, b, ub);
    lemma_body_in_section(ls, a, ua, b);
    lemma_not_in_both(ls, a, b);
    lemma_missing_plain(ls, a, ua, ua.len() as int);
    lemma_in_section_add(x, added, b);
    let z = ini::body(x, b, ub);
    if ini::in_section(ls, b) {
        assert(o =~= x);
        lemma_missing_same(x, ls, b, ub, ub.len() as int);
        assert(z + added =~= z);
    } else {
        lemma_add_outside(x, added, b, ub);
    }
    assert(ini::updated_lines(o, b, ub) =~= z + added + added_last(ls, b, ub));
}

/// The order of two updates makes no difference to the lines of a file that has both sections.
proof fn lemma_lines_commute(
    ls: Seq<Seq<char>>,
    a: Seq<char>,
    ua: Seq<(Seq<char>, Seq<char>)>,
    b: Seq<char>,
    ub: Seq<(Seq<char>, Seq<char>)>,
)
    requires
        plain_updates(ua),
        plain_updates(ub),
        apart(a, b),
        apart(b, a),
        ini::has_section(ls, a),
        ini::has_section(ls, b),
    ensures
        ini::updated_lines(ini::updated_lines(ls, a, ua), b, ub) == ini::updated_lines(
            ini::updated_lines(ls, b, ub),
            a,
            ua,
        ),
{
    lemma_bodies_commute(ls, a, ua, b, ub);
    lemma_lines_after_both(ls, a, ua, b, ub);
    lemma_lines_after_both(ls, b, ub, a, ua);
    lemma_not_in_both(ls, a, b);
    let z = ini::body(ini::body(ls, a, ua), b, ub);
    let xa = added_last(ls, a, ua);
    let xb = added_last(ls, b, ub);
    assert(xa.len() == 0 || xb.len() == 0);
    assert(z + xa + xb =~= z + xb + xa);
}

/// Every updated line is one line.
proof fn lemma_body_one_line(
    ls: Seq<Seq<char>>,
    section: Seq<char>,
    updates: Seq<(Seq<char>, Seq<char>)>,
)
    requires
        plain_updates(updates),
        forall|i: int| 0 <= i < ls.len() ==> facts::one_line(#[trigger] ls[i]),
    ensures
        forall|i: int|
            0 <= i < ini::body(ls, section, updates).len() ==> facts::one_line(
                #[trigger] ini::body(ls, section, updates)[i],
            ),
    decreases ls.len(),
{
    if ls.len() > 0 {
        let ls1 = ls.drop_last();
        let line = ls.last();
        assert forall|i: int| 0 <= i < ls1.len() implies facts::one_line(#[trigger] ls1[i]) by {
            assert(ls1[i] == ls[i]);
        }
        assert(facts::one_line(ls[ls.len() - 1]));
        lemma_body_one_line(ls1, section, updates);
        lemma_added_plain(ls1, line, section, updates);
        lemma_updated_line(ls1, line, section, updates);
        let x1 = ini::body(ls1, section, updates);
        let added = added_before(ls1, line, section, updates);
        let new_line = ini::updated_line(ls1, line, section, updates);
        let x = ini::body(ls, section, updates);
        assert(x =~= (x1 + added).push(new_line));
        assert forall|i: int| 0 <= i < x.len() implies facts::one_line(#[trigger] x[i]) by {
            if i < x1.len() {
                assert(x[i] == x1[i]);
            } else if i < x1.len() + added.len() {
                assert(x[i] == added[i - x1.len()]);
            }
        }
    }
}

/// Every line of an updated file is one line, and there is one.
proof fn lemma_lines_one_line(
    ls: Seq<Seq<char>>,
    section: Seq<char>,
    updates: Seq<(Seq<char>, Seq<char>)>,
)
    requires
        plain_updates(updates),
        facts::one_line(section),
        forall|i: int| 0 <= i < ls.len() ==> facts::one_line(#[trigger] ls[i]),
    ensures
        ini::updated_lines(ls, section, updates).len() > 0,
        forall|i: int|
            0 <= i < ini::updated_lines(ls, section, updates).len() ==> facts::one_line(
                #[trigger] ini::updated_lines(ls, section, updates)[i],
            ),
{
    let x = ini::body(ls, section, updates);
    let o = ini::updated_lines(ls, section, updates);
    let end = ini::ending(ls, section, updates);
    lemma_body_one_line(ls, section, updates);
    ini::lemma_body_len(ls, section, updates);
    lemma_missing_plain(ls, section, updates, updates.len() as int);
    lemma_header_line(section);
    assert forall|i: int| 0 <= i < end.len() implies facts::one_line(#[trigger] end[i]) by {
        if !ini::in_section(ls, section) {
            let head = if ls.len() > 0 {
                seq![Seq::<char>::empty(), ini::header_line(section)]
            } else {
                seq![ini::header_line(section)]
            };
            if i < head.len() {
                assert(end[i] == head[i]);
            } else {
                assert(end[i] == ini::update_line(updates[i - head.len()]));
            }
        }
    }
    assert forall|i: int| 0 <= i < o.len() implies facts::one_line(#[trigger] o[i]) by {
        if i < x.len() {
            assert(o[i] == x[i]);
        } else {
            assert(o[i] == end[i - x.len()]);
        }
    }
    if ls.len() == 0 {
        assert(!ini::has_section(ls, section));
    }
}

/// The header that is written for a section is a header, with the name of the section.
proof fn lemma_header_line(section: Seq<char>)
    requires
        facts::one_line(section),
    ensures
        ini::is_header(ini::header_line(section)),
        ini::header_name(ini::header_line(section)) == text::trim(section),
        facts::one_line(ini::header_line(section)),
{
    let line = ini::header_line(section);
    assert(line[0] == '[');
    assert(line.last() == ']');
    facts::lemma_trim_clean(line);
    assert(line.subrange(1, line.len() - 1) =~= section);
    if line.contains('\n') {
        let i = choose|i: int| 0 <= i < line.len() && line[i] == '\n';
        assert(section[i - 1] == '\n');
    }
}

/// Updating one section leaves the settings of every other section as they are, but for a
/// carriage return at the end of a line.
pub proof fn law_update_keeps_other_sections(
    content: Seq<char>,
    a: Seq<char>,
    b: Seq<char>,
    updates: Seq<(Seq<char>, Seq<char>)>,
)
    requires
        plain_updates(updates),
        facts::one_line(b),
        !text::same_ignoring_case(a, text::trim(b)),
    ensures
        ini_laws::settings(text::lines(ini::updated_file(content, b, updates)), a)
            == text::stripped(ini_laws::settings(text::lines(content), a)),
{
    let ls = text::lines(content);
    facts::lemma_lines_one_line(content);
    lemma_lines_one_line(ls, b, updates);
    lemma_apart_trimmed(a, b);
    assert(apart(b, a));
    lemma_body_seen(ls, b, updates, a, updates);
    lemma_body_in_section(ls, b, updates, a);
    lemma_not_in_both(ls, a, b);
    let x = ini::body(ls, b, updates);
    let o = ini::updated_lines(ls, b, updates);
    if ini::in_section(ls, b) {
        lemma_missing_plain(ls, b, updates, updates.len() as int);
        lemma_add_outside(x, ini::missing(ls, b, updates, updates.len() as int), a, updates);
    } else if !ini::has_section(ls, b) {
        lemma_new_section(x, ls.len() > 0, a, b, updates);
        let head = if ls.len() > 0 {
            seq![Seq::<char>::empty(), ini::header_line(b)]
        } else {
            seq![ini::header_line(b)]
        };
        let added = updates.map_values(|u: (Seq<char>, Seq<char>)| ini::update_line(u));
        assert(o =~= x + head + added);
    } else {
        assert(o =~= x);
    }
    facts::lemma_lines_of_file(o);
    ini_laws::lemma_settings_stripped(o, a);
}

/// A section that is added at the end changes no setting of another.
proof fn lemma_new_section(
    x: Seq<Seq<char>>,
    gap: bool,
    a: Seq<char>,
    b: Seq<char>,
    updates: Seq<(Seq<char>, Seq<char>)>,
)
    requires
        plain_updates(updates),
        facts::one_line(b),
        !text::same_ignoring_case(a, text::trim(b)),
    ensures
        ({
            let head = if gap {
                seq![Seq::<char>::empty(), ini::header_line(b)]
            } else {
                seq![ini::header_line(b)]
            };
            let added = updates.map_values(|u: (Seq<char>, Seq<char>)| ini::update_line(u));
            ini_laws::settings(x + head + added, a) == ini_laws::settings(x, a)
        }),
{
    let e = Seq::<char>::empty();
    let h = ini::header_line(b);
    let head = if gap {
        seq![e, h]
    } else {
        seq![h]
    };
    let z = if gap {
        x.push(e)
    } else {
        x
    };
    let added = updates.map_values(|u: (Seq<char>, Seq<char>)| ini::update_line(u));
    facts::lemma_trim_clean(e);
    assert(x.push(e).drop_last() =~= x);
    assert(ini_laws::settings(z, a) == ini_laws::settings(x, a));
    lemma_header_line(b);
    assert(!ini::opens(h, a)) by {
        if ini::opens(h, a) {
            let name = text::trim(b);
            assert forall|i: int| 0 <= i < a.len() implies text::ascii_lower(#[trigger] a[i])
                == text::ascii_lower(name[i]) by {
                assert(text::ascii_lower(name[i]) == text::ascii_lower(a[i]));
            }
        }
    }
    ini_laws::lemma_in_section_push(z, h, a);
    assert(z.push(h).drop_last() =~= z);
    assert(ini_laws::settings(z.push(h), a) == ini_laws::settings(z, a));
    assert forall|i: int| 0 <= i < added.len() implies !ini::is_header(#[trigger] added[i]) by {
        assert(added[i] == ini::update_line(updates[i]));
    }
    lemma_add_outside(z.push(h), added, a, updates);
    assert(x + head + added =~= z.push(h) + added);
}

/// A line that an update adds or is made to does not end in a carriage return.
proof fn lemma_end_kept(front: Seq<char>, value: Seq<char>)
    requires
        text::strip_cr(value) == value,
    ensures
        text::strip_cr(front.push('=') + value) == front.push('=') + value,
{
    let line = front.push('=') + value;
    if value.len() > 0 {
        assert(line.last() == value.last());
        if value.last() == '\r' {
            assert(text::strip_cr(value).len() < value.len());
        }
    } else {
        assert(line.last() == '=');
    }
}

/// What is missing in lines without their carriage returns is what is missing in the lines.
proof fn lemma_missing_stripped(
    ls: Seq<Seq<char>>,
    section: Seq<char>,
    updates: Seq<(Seq<char>, Seq<char>)>,
    n: int,
)
    requires
        keeps_ends(updates),
        0 <= n <= updates.len(),
    ensures
        ini::missing(text::stripped(ls), section, updates, n) == ini::missing(
            ls,
            section,
            updates,
            n,
        ),
        text::stripped(ini::missing(ls, section, updates, n)) == ini::missing(
            ls,
            section,
            updates,
            n,
        ),
{
    let s = text::stripped(ls);
    ini_laws::lemma_stripped(ls, section, updates);
    assert forall|k: int| #[trigger]
        ini::seen(s, section, updates, k) == ini::seen(ls, section, updates, k) by {
        if ini::seen(s, section, updates, k) {
            let j = choose|j: int|
                0 <= j < s.len() && #[trigger] ini::hit(s.take(j), s[j], section, updates) == Some(
                    k,
                );
            assert(ini::hit(ls.take(j), ls[j], section, updates) == Some(k));
        }
    }
    lemma_missing_same(s, ls, section, updates, n);
    let m = ini::missing(ls, section, updates, n);
    assert forall|i: int| 0 <= i < m.len() implies text::strip_cr(#[trigger] m[i]) == m[i] by {
        let k = lemma_missing_from(ls, section, updates, n, i);
        lemma_end_kept(updates[k].0, updates[k].1);
    }
    assert(text::stripped(m) =~= m);
}

/// Updating lines without their carriage returns gives the updated lines without theirs.
proof fn lemma_body_stripped(
    ls: Seq<Seq<char>>,
    section: Seq<char>,
    updates: Seq<(Seq<char>, Seq<char>)>,
)
    requires
        keeps_ends(updates),
    ensures
        text::stripped(ini::body(ls, section, updates)) == ini::body(
            text::stripped(ls),
            section,
            updates,
        ),
    decreases ls.len(),
{
    let s = text::stripped(ls);
    if ls.len() > 0 {
        let ls1 = ls.drop_last();
        let line = ls.last();
        let s1 = text::stripped(ls1);
        assert(s.drop_last() =~= s1);
        assert(s.last() == text::strip_cr(line));
        lemma_body_stripped(ls1, section, updates);
        lemma_missing_stripped(ls1, section, updates, updates.len() as int);
        ini_laws::lemma_stripped(ls1, section, updates);
        ini_laws::lemma_strip_line(line);
        let added = added_before(ls1, line, section, updates);
        let new_line = ini::updated_line(ls1, line, section, updates);
        let x1 = ini::body(ls1, section, updates);
        assert(text::stripped(added) =~= added);
        assert(ini::updated_line(s1, s.last(), section, updates) == text::strip_cr(new_line)) by {
            if let Some(k) = ini::hit(ls1, line, section, updates) {
                ini::lemma_update_for(updates, ini::key_of(line));
                lemma_end_kept(text::indent(line) + ini::key_of(line), updates[k].1);
            }
        }
        assert(ini::body(ls, section, updates) =~= (x1 + added).push(new_line));
        assert(text::stripped((x1 + added).push(new_line)) =~= (text::stripped(x1)
            + text::stripped(added)).push(text::strip_cr(new_line)));
        assert(ini::body(s, section, updates) =~= (text::stripped(x1) + added).push(
            text::strip_cr(new_line),
        ));
    } else {
        assert(text::stripped(ini::body(ls, section, updates)) =~= ini::body(
            s,
            section,
            updates,
        ));
    }
}

/// The lines that are read from an updated file which had the section before.
proof fn lemma_read_updated(
    content: Seq<char>,
    section: Seq<char>,
    updates: Seq<(Seq<char>, Seq<char>)>,
)
    requires
        plain_updates(updates),
        keeps_ends(updates),
        ini::has_section(text::lines(content), section),
    ensures
        text::lines(ini::updated_file(content, section, updates)) == ini::updated_lines(
            text::stripped(text::lines(content)),
            section,
            updates,
        ),
{
    let ls = text::lines(content);
    let s = text::stripped(ls);
    let x = ini::body(ls, section, updates);
    let o = ini::updated_lines(ls, section, updates);
    let added = added_last(ls, section, updates);
    facts::lemma_lines_one_line(content);
    lemma_opened_one_line(ls, section);
    lemma_lines_one_line(ls, section, updates);
    facts::lemma_lines_of_file(o);
    lemma_body_stripped(ls, section, updates);
    lemma_missing_stripped(ls, section, updates, updates.len() as int);
    ini_laws::lemma_stripped(ls, section, updates);
    assert(o =~= x + added);
    assert(text::stripped(added) =~= added);
    assert(text::stripped(x + added) =~= text::stripped(x) + text::stripped(added));
    assert(ini::updated_lines(s, section, updates) =~= text::stripped(x) + added);
}

/// The name of a section that a line opens is of one line.
proof fn lemma_opened_one_line(ls: Seq<Seq<char>>, section: Seq<char>)
    requires
        ini::has_section(ls, section),
        forall|i: int| 0 <= i < ls.len() ==> facts::one_line(#[trigger] ls[i]),
    ensures
        facts::one_line(section),
{
    let i = choose|i: int| 0 <= i < ls.len() && ini::opens(#[trigger] ls[i], section);
    let line = ls[i];
    let t = text::trim(line);
    let inner = t.subrange(1, t.len() - 1);
    let name = ini::header_name(line);
    facts::lemma_trim(line);
    facts::lemma_trim(inner);
    if section.contains('\n') {
        let j = choose|j: int| 0 <= j < section.len() && section[j] == '\n';
        assert(text::ascii_lower(name[j]) == text::ascii_lower(section[j]));
        assert(name[j] == '\n');
        assert(name.contains('\n'));
        assert(inner.contains('\n'));
        let m = choose|m: int| 0 <= m < inner.len() && inner[m] == '\n';
        assert(t[m + 1] == '\n');
        assert(t.contains('\n'));
        assert(line.contains('\n'));
    }
}

/// Where a file has two different sections, the order in which they are updated makes no
/// difference.
pub proof fn law_updates_commute(
    content: Seq<char>,
    a: Seq<char>,
    ua: Seq<(Seq<char>, Seq<char>)>,
    b: Seq<char>,
    ub: Seq<(Seq<char>, Seq<char>)>,
)
    requires
        !text::same_ignoring_case(a, b),
        ini::has_section(text::lines(content), a),
        ini::has_section(text::lines(content), b),
        plain_updates(ua),
        plain_updates(ub),
        keeps_ends(ua),
        keeps_ends(ub),
    ensures
        ini::updated_file(ini::updated_file(content, a, ua), b, ub) == ini::updated_file(
            ini::updated_file(content, b, ub),
            a,
            ua,
        ),
{
    let ls = text::lines(content);
    let s = text::stripped(ls);
    lemma_apart(a, b);
    lemma_read_updated(content, a, ua);
    lemma_read_updated(content, b, ub);
    ini_laws::lemma_stripped(ls, a, ua);
    ini_laws::lemma_stripped(ls, b, ub);
    lemma_lines_commute(s, a, ua, b, ub);
}

} // verus!
