//! What holds of key/value files: what is written is read back, and nothing else changes.

use crate::facts;
use crate::kv;
use crate::kv::KvView;
use crate::text;
use vstd::prelude::*;

verus! {

/// A text that can stand as a key: it is clean and not empty, holds neither a line feed nor the
/// delimiter, and does not look like a comment.
pub open spec fn valid_key(key: Seq<char>, delimiter: char) -> bool {
    &&& key.len() > 0
    &&& facts::clean(key)
    &&& facts::one_line(key)
    &&& !key.contains(delimiter)
    &&& key[0] != '#'
    &&& key[0] != '!'
}

/// A text that can stand as a value: it holds no line feed.
pub open spec fn valid_value(value: Seq<char>) -> bool {
    facts::one_line(value)
}

/// What a line of a file can hold.
pub open spec fn well_formed(line: KvView, delimiter: char) -> bool {
    match line {
        KvView::Entry { key, value, prefix, delimiter: d } => {
            &&& valid_key(key, delimiter)
            &&& valid_value(value)
            &&& facts::all_white(prefix)
            &&& facts::one_line(prefix)
            &&& !prefix.contains(delimiter)
            &&& d == delimiter
        },
        KvView::Other(raw) => facts::one_line(raw) && kv::kv_line(raw, delimiter) == line,
    }
}

/// All lines are well formed.
pub open spec fn all_well_formed(lines: Seq<KvView>, delimiter: char) -> bool {
    forall|i: int| 0 <= i < lines.len() ==> well_formed(#[trigger] lines[i], delimiter)
}

/// All updates have a valid key and a valid value.
pub open spec fn valid_updates(updates: Seq<(Seq<char>, Seq<char>)>, delimiter: char) -> bool {
    forall|i: int|
        0 <= i < updates.len() ==> valid_key((#[trigger] updates[i]).0, delimiter) && valid_value(
            updates[i].1,
        )
}

/// A line as it comes back from a file: a value comes without the white space at its ends, and a
/// carriage return at the end of a line that is no entry goes with the end of the line.
pub open spec fn read_back(line: KvView) -> KvView {
    match line {
        KvView::Entry { key, value, prefix, delimiter } => KvView::Entry {
            key,
            value: text::trim(value),
            prefix,
            delimiter,
        },
        KvView::Other(raw) => KvView::Other(text::strip_cr(raw)),
    }
}

/// The lines as they come back from a file.
pub open spec fn all_read_back(lines: Seq<KvView>) -> Seq<KvView> {
    lines.map_values(|l: KvView| read_back(l))
}

/// The value that the last update for `key` gives it.
pub open spec fn last_value(updates: Seq<(Seq<char>, Seq<char>)>, key: Seq<char>) -> Option<
    Seq<char>,
>
    decreases updates.len(),
{
    if updates.len() == 0 {
        None
    } else if updates.last().0 == key {
        Some(updates.last().1)
    } else {
        last_value(updates.drop_last(), key)
    }
}

/// A line after all updates.
pub open spec fn line_after(line: KvView, updates: Seq<(Seq<char>, Seq<char>)>) -> KvView {
    match line {
        KvView::Entry { key, prefix, delimiter, .. } => match last_value(updates, key) {
            Some(value) => KvView::Entry { key, value, prefix, delimiter },
            None => line,
        },
        KvView::Other(_) => line,
    }
}

/// Where a line has a key, the key follows the indent of the line.
proof fn lemma_key_line(line: Seq<char>, delimiter: char)
    requires
        text::split_once(line, delimiter) is Some,
        text::trim(text::split_once(line, delimiter).unwrap().0).len() > 0,
    ensures
        ({
            let left = text::split_once(line, delimiter).unwrap().0;
            &&& text::indent(line) == text::indent(left)
            &&& text::trim_start(line).len() > 0
            &&& text::trim_start(line)[0] == text::trim(left)[0]
        }),
{
    text::lemma_split_once(line, delimiter);
    let (left, right) = text::split_once(line, delimiter).unwrap();
    facts::lemma_trim(left);
    facts::lemma_white_prefix(left);
    let tail = text::trim_start(left).push(delimiter) + right;
    assert(line == text::indent(left) + tail);
    assert(tail[0] == text::trim_start(left)[0]);
    facts::lemma_indent(text::indent(left), tail);
}

/// Whatever is read from a line is well formed.
proof fn lemma_kv_line_well_formed(line: Seq<char>, delimiter: char)
    requires
        facts::one_line(line),
    ensures
        well_formed(kv::kv_line(line, delimiter), delimiter),
        kv::kv_line(line, delimiter) matches KvView::Entry { value, .. } ==> facts::clean(value),
{
    if let KvView::Entry { key, value, prefix, .. } = kv::kv_line(line, delimiter) {
        text::lemma_split_once(line, delimiter);
        let (left, right) = text::split_once(line, delimiter).unwrap();
        lemma_key_line(line, delimiter);
        facts::lemma_trim(left);
        facts::lemma_trim(right);
        facts::lemma_white_prefix(left);
        assert forall|c: char| left.contains(c) implies line.contains(c) by {
            let i = choose|i: int| 0 <= i < left.len() && left[i] == c;
            assert(line[i] == c);
        }
        assert forall|c: char| right.contains(c) implies line.contains(c) by {
            let i = choose|i: int| 0 <= i < right.len() && right[i] == c;
            assert(line[left.len() + 1 + i] == c);
        }
        assert forall|c: char| prefix.contains(c) implies left.contains(c) by {
            let i = choose|i: int| 0 <= i < prefix.len() && prefix[i] == c;
            assert(left[i] == c);
        }
    }
}

/// A well-formed line comes back from its text.
proof fn lemma_line_read_back(line: KvView, delimiter: char)
    requires
        well_formed(line, delimiter),
        delimiter != '\n',
    ensures
        facts::one_line(kv::kv_line_text(line)),
        kv::kv_line(text::strip_cr(kv::kv_line_text(line)), delimiter) == read_back(line),
{
    let t = kv::kv_line_text(line);
    match line {
        KvView::Entry { key, value, prefix, .. } => {
            let left = prefix + key;
            let rest = seq![' '] + value;
            assert(t == left.push(delimiter) + rest);
            assert(!left.contains(delimiter)) by {
                if left.contains(delimiter) {
                    let i = choose|i: int| 0 <= i < left.len() && left[i] == delimiter;
                    if i < prefix.len() {
                        assert(prefix[i] == delimiter);
                    } else {
                        assert(key[i - prefix.len()] == delimiter);
                    }
                }
            }
            assert(!t.contains('\n')) by {
                if t.contains('\n') {
                    let i = choose|i: int| 0 <= i < t.len() && t[i] == '\n';
                    if i < prefix.len() {
                        assert(prefix[i] == '\n');
                    } else if i < left.len() {
                        assert(key[i - prefix.len()] == '\n');
                    } else if i > left.len() + 1 {
                        assert(value[i - left.len() - 2] == '\n');
                    }
                }
            }
            let right = seq![' '] + text::strip_cr(value);
            let s = text::strip_cr(t);
            if value.len() > 0 {
                assert(t.last() == value.last());
            } else {
                assert(t.last() == ' ');
            }
            assert(s == left.push(delimiter) + right);
            assert(s.take(left.len() as int) == left);
            assert(s.skip(left.len() as int + 1) == right);
            assert(text::first_at(s, delimiter, left.len() as int));
            text::lemma_first_at(s, delimiter, left.len() as int);
            let e = Seq::<char>::empty();
            assert(prefix + key + e == left);
            facts::lemma_trim_of(prefix, key, e);
            facts::lemma_strip_cr(value);
            assert(seq![' '] + text::strip_cr(value) + e == right);
            facts::lemma_trim_around(seq![' '], text::strip_cr(value), e);
            if text::strip_cr(value) != value {
                assert(e + text::strip_cr(value) + seq!['\r'] == value);
                facts::lemma_trim_around(e, text::strip_cr(value), seq!['\r']);
            }
            let tail = key.push(delimiter) + right;
            assert(s == prefix + tail);
            assert(tail[0] == key[0]);
            facts::lemma_indent(prefix, tail);
        },
        KvView::Other(raw) => {
            facts::lemma_strip_cr(raw);
            let s = text::strip_cr(raw);
            if s != raw {
                lemma_other_without_cr(s, delimiter);
            }
        },
    }
}

/// A line that is no entry is none without the carriage return at its end either.
proof fn lemma_other_without_cr(s: Seq<char>, delimiter: char)
    requires
        kv::kv_line(s.push('\r'), delimiter) is Other,
    ensures
        kv::kv_line(s, delimiter) == KvView::Other(s),
{
    let raw = s.push('\r');
    if kv::kv_line(s, delimiter) is Entry {
        text::lemma_split_once(s, delimiter);
        let (left, right) = text::split_once(s, delimiter).unwrap();
        let n = left.len() as int;
        assert(raw.take(n) == left);
        assert(text::first_at(raw, delimiter, n));
        text::lemma_first_at(raw, delimiter, n);
        lemma_key_line(s, delimiter);
        lemma_key_line(raw, delimiter);
    }
}

/// Reading a file gives well-formed lines, whose values have no white space at their ends.
pub proof fn law_parse_well_formed(content: Seq<char>, delimiter: char)
    ensures
        all_well_formed(kv::kv_lines(content, delimiter), delimiter),
        forall|i: int|
            0 <= i < kv::kv_lines(content, delimiter).len() && (#[trigger] kv::kv_lines(
                content,
                delimiter,
            )[i]) is Entry ==> facts::clean(kv::kv_lines(content, delimiter)[i]->value),
{
    facts::lemma_lines_one_line(content);
    let ls = text::lines(content);
    let r = kv::kv_lines(content, delimiter);
    assert forall|i: int| 0 <= i < r.len() implies well_formed(#[trigger] r[i], delimiter) && (
    r[i] is Entry ==> facts::clean(r[i]->value)) by {
        lemma_kv_line_well_formed(ls[i], delimiter);
    }
}

/// Setting a valid key to a valid value keeps the lines well formed.
pub proof fn law_set_well_formed(
    lines: Seq<KvView>,
    key: Seq<char>,
    value: Seq<char>,
    delimiter: char,
)
    requires
        all_well_formed(lines, delimiter),
        valid_key(key, delimiter),
        valid_value(value),
    ensures
        all_well_formed(kv::kv_set(lines, key, value, delimiter), delimiter),
{
    let r = kv::kv_set(lines, key, value, delimiter);
    assert forall|i: int| 0 <= i < r.len() implies well_formed(#[trigger] r[i], delimiter) by {
        if i < lines.len() {
            assert(well_formed(lines[i], delimiter));
        }
    }
}

/// After `key` was set to `value` there is an entry for `key`, and all entries for `key` have the
/// value; every other line stands where it stood.
pub proof fn law_set_then_get(
    lines: Seq<KvView>,
    key: Seq<char>,
    value: Seq<char>,
    delimiter: char,
)
    ensures
        ({
            let r = kv::kv_set(lines, key, value, delimiter);
            &&& kv::has_key(r, key)
            &&& forall|i: int|
                0 <= i < r.len() && kv::is_entry_for(#[trigger] r[i], key) ==> r[i]->value == value
            &&& lines.len() <= r.len() <= lines.len() + 1
            &&& forall|i: int|
                0 <= i < lines.len() && !kv::is_entry_for(lines[i], key) ==> #[trigger] r[i]
                    == lines[i]
        }),
{
    let r = kv::kv_set(lines, key, value, delimiter);
    if kv::has_key(lines, key) {
        let i = choose|i: int| 0 <= i < lines.len() && kv::is_entry_for(#[trigger] lines[i], key);
        assert(kv::is_entry_for(r[i], key));
    } else {
        assert(kv::is_entry_for(r[lines.len() as int], key));
    }
}

/// Setting the same key to the same value again changes nothing.
pub proof fn law_set_twice(lines: Seq<KvView>, key: Seq<char>, value: Seq<char>, delimiter: char)
    ensures
        kv::kv_set(kv::kv_set(lines, key, value, delimiter), key, value, delimiter) == kv::kv_set(
            lines,
            key,
            value,
            delimiter,
        ),
{
    law_set_then_get(lines, key, value, delimiter);
    let r = kv::kv_set(lines, key, value, delimiter);
    assert(kv::kv_set(r, key, value, delimiter) =~= r);
}

/// Reading the file that was written from well-formed lines gives these lines back. Only white
/// space at the ends of a value, and a carriage return at the end of a line that is no entry, are
/// lost. A file always has a line, so there has to be one.
pub proof fn law_render_then_parse(lines: Seq<KvView>, delimiter: char)
    requires
        lines.len() > 0,
        all_well_formed(lines, delimiter),
        delimiter != '\n',
    ensures
        kv::kv_lines(kv::kv_text(lines), delimiter) == all_read_back(lines),
{
    let ls = lines.map_values(|l: KvView| kv::kv_line_text(l));
    assert forall|i: int| 0 <= i < ls.len() implies facts::one_line(#[trigger] ls[i]) by {
        lemma_line_read_back(lines[i], delimiter);
    }
    facts::lemma_lines_of_file(ls);
    let r = kv::kv_lines(kv::kv_text(lines), delimiter);
    assert forall|i: int| 0 <= i < lines.len() implies #[trigger] r[i] == read_back(lines[i]) by {
        lemma_line_read_back(lines[i], delimiter);
    }
    assert(r =~= all_read_back(lines));
}

/// What many updates do to the lines: each line takes the last value for its key, and every
/// updated key has an entry.
proof fn lemma_set_all(
    lines: Seq<KvView>,
    updates: Seq<(Seq<char>, Seq<char>)>,
    delimiter: char,
)
    ensures
        ({
            let r = kv::kv_set_all(lines, updates, delimiter);
            &&& lines.len() <= r.len()
            &&& updates.len() > 0 ==> r.len() > 0
            &&& forall|i: int|
                0 <= i < lines.len() ==> #[trigger] r[i] == line_after(lines[i], updates)
            &&& forall|i: int| 0 <= i < r.len() ==> line_after(#[trigger] r[i], updates) == r[i]
            &&& forall|key: Seq<char>|
                (#[trigger] last_value(updates, key)) is Some ==> kv::has_key(r, key)
            &&& valid_updates(updates, delimiter) && all_well_formed(lines, delimiter)
                ==> all_well_formed(r, delimiter)
        }),
    decreases updates.len(),
{
    let r = kv::kv_set_all(lines, updates, delimiter);
    if updates.len() > 0 {
        let before = updates.drop_last();
        let (key, value) = updates.last();
        lemma_set_all(lines, before, delimiter);
        let q = kv::kv_set_all(lines, before, delimiter);
        law_set_then_get(q, key, value, delimiter);
        assert forall|i: int| 0 <= i < lines.len() implies #[trigger] r[i] == line_after(
            lines[i],
            updates,
        ) by {
            assert(q[i] == line_after(lines[i], before));
        }
        assert forall|i: int| 0 <= i < r.len() implies line_after(#[trigger] r[i], updates)
            == r[i] by {
            if i < q.len() {
                assert(line_after(q[i], before) == q[i]);
            }
        }
        assert forall|k: Seq<char>| (#[trigger] last_value(updates, k)) is Some implies kv::has_key(
            r,
            k,
        ) by {
            if k != key {
                assert(last_value(before, k) is Some);
                let i = choose|i: int| 0 <= i < q.len() && kv::is_entry_for(#[trigger] q[i], k);
                assert(kv::is_entry_for(r[i], k));
            }
        }
        if valid_updates(updates, delimiter) && all_well_formed(lines, delimiter) {
            assert forall|i: int| 0 <= i < before.len() implies valid_key(
                (#[trigger] before[i]).0,
                delimiter,
            ) && valid_value(before[i].1) by {
                assert(before[i] == updates[i]);
            }
            assert(updates[updates.len() - 1] == updates.last());
            law_set_well_formed(q, key, value, delimiter);
        }
    }
}

/// What is read from an updated file: each line of the old file stands where it stood, with the
/// last value that an update gives its key; every updated key has an entry, and all entries for
/// it have the last value given, without the white space at its ends.
pub proof fn law_upsert_read_back(
    content: Seq<char>,
    delimiter: char,
    updates: Seq<(Seq<char>, Seq<char>)>,
)
    requires
        delimiter != '\n',
        valid_updates(updates, delimiter),
        updates.len() > 0 || text::lines(content).len() > 0,
    ensures
        ({
            let old_lines = kv::kv_lines(content, delimiter);
            let r = kv::kv_lines(kv::kv_upsert(content, delimiter, updates), delimiter);
            &&& r == all_read_back(kv::kv_set_all(old_lines, updates, delimiter))
            &&& old_lines.len() <= r.len()
            &&& forall|i: int|
                0 <= i < old_lines.len() ==> #[trigger] r[i] == read_back(
                    line_after(old_lines[i], updates),
                )
            &&& forall|key: Seq<char>|
                (#[trigger] last_value(updates, key)) is Some ==> kv::has_key(r, key)
            &&& forall|i: int, key: Seq<char>|
                0 <= i < r.len() && #[trigger] kv::is_entry_for(r[i], key) && last_value(
                    updates,
                    key,
                ) is Some ==> r[i]->value == text::trim(last_value(updates, key).unwrap())
        }),
{
    let old_lines = kv::kv_lines(content, delimiter);
    let q = kv::kv_set_all(old_lines, updates, delimiter);
    law_parse_well_formed(content, delimiter);
    lemma_set_all(old_lines, updates, delimiter);
    law_render_then_parse(q, delimiter);
    let r = kv::kv_lines(kv::kv_upsert(content, delimiter, updates), delimiter);
    assert forall|i: int| 0 <= i < old_lines.len() implies #[trigger] r[i] == read_back(
        line_after(old_lines[i], updates),
    ) by {
        assert(q[i] == line_after(old_lines[i], updates));
    }
    assert forall|key: Seq<char>| (#[trigger] last_value(updates, key)) is Some implies kv::has_key(
        r,
        key,
    ) by {
        let i = choose|i: int| 0 <= i < q.len() && kv::is_entry_for(#[trigger] q[i], key);
        assert(kv::is_entry_for(r[i], key));
    }
    assert forall|i: int, key: Seq<char>|
        0 <= i < r.len() && #[trigger] kv::is_entry_for(r[i], key) && last_value(
            updates,
            key,
        ) is Some implies r[i]->value == text::trim(last_value(updates, key).unwrap()) by {
        assert(line_after(q[i], updates) == q[i]);
    }
}

/// Making the same updates again changes nothing, unless a line that is no entry ends in a stray
/// carriage return.
pub proof fn law_upsert_twice(
    content: Seq<char>,
    delimiter: char,
    updates: Seq<(Seq<char>, Seq<char>)>,
)
    requires
        delimiter != '\n',
        valid_updates(updates, delimiter),
        forall|i: int|
            0 <= i < kv::kv_lines(content, delimiter).len() && (#[trigger] kv::kv_lines(
                content,
                delimiter,
            )[i]) is Other ==> read_back(kv::kv_lines(content, delimiter)[i]) == kv::kv_lines(
                content,
                delimiter,
            )[i],
    ensures
        kv::kv_upsert(kv::kv_upsert(content, delimiter, updates), delimiter, updates)
            == kv::kv_upsert(content, delimiter, updates),
{
    let old_lines = kv::kv_lines(content, delimiter);
    let q = kv::kv_set_all(old_lines, updates, delimiter);
    if updates.len() == 0 && text::lines(content).len() == 0 {
        lemma_upsert_nothing(content, delimiter, updates);
    } else {
        law_parse_well_formed(content, delimiter);
        law_upsert_read_back(content, delimiter, updates);
        lemma_set_all(old_lines, updates, delimiter);
        lemma_added_are_entries(old_lines, updates, delimiter);
        let r = all_read_back(q);
        lemma_set_all(r, updates, delimiter);
        assert(updates.take(updates.len() as int) == updates);
        lemma_no_growth(r, updates, updates.len() as int, delimiter);
        let r2 = kv::kv_set_all(r, updates, delimiter);
        assert forall|i: int| 0 <= i < q.len() implies #[trigger] r2[i] == q[i] by {
            assert(r2[i] == line_after(r[i], updates));
            assert(line_after(q[i], updates) == q[i]);
            if i < old_lines.len() {
                assert(q[i] == line_after(old_lines[i], updates));
                if let KvView::Entry { key, value, .. } = old_lines[i] {
                    facts::lemma_trim_clean(value);
                }
            }
        }
        assert(r2 =~= q);
    }
}

/// Without a line and without an update, the file is one empty line, and stays so.
proof fn lemma_upsert_nothing(
    content: Seq<char>,
    delimiter: char,
    updates: Seq<(Seq<char>, Seq<char>)>,
)
    requires
        updates.len() == 0,
        text::lines(content).len() == 0,
    ensures
        kv::kv_upsert(kv::kv_upsert(content, delimiter, updates), delimiter, updates)
            == kv::kv_upsert(content, delimiter, updates),
{
    let e = Seq::<char>::empty();
    let t = kv::kv_upsert(content, delimiter, updates);
    assert(kv::kv_lines(content, delimiter).map_values(|l: KvView| kv::kv_line_text(l))
        =~= Seq::<Seq<char>>::empty());
    assert(t =~= seq!['\n']);
    assert(text::file_text(seq![e]) =~= t);
    assert(seq![e].map_values(|l: Seq<char>| text::strip_cr(l)) =~= seq![e]);
    facts::lemma_lines_of_file(seq![e]);
    assert(kv::kv_lines(t, delimiter) =~= seq![KvView::Other(e)]);
    assert(kv::kv_lines(t, delimiter).map_values(|l: KvView| kv::kv_line_text(l)) =~= seq![e]);
}

/// What updates add are entries for updated keys.
proof fn lemma_added_are_entries(
    lines: Seq<KvView>,
    updates: Seq<(Seq<char>, Seq<char>)>,
    delimiter: char,
)
    ensures
        forall|i: int|
            lines.len() <= i < kv::kv_set_all(lines, updates, delimiter).len() ==> (
            #[trigger] kv::kv_set_all(lines, updates, delimiter)[i]) is Entry && last_value(
                updates,
                kv::kv_set_all(lines, updates, delimiter)[i]->key,
            ) is Some,
    decreases updates.len(),
{
    if updates.len() > 0 {
        lemma_added_are_entries(lines, updates.drop_last(), delimiter);
        lemma_set_all(lines, updates.drop_last(), delimiter);
        let q = kv::kv_set_all(lines, updates.drop_last(), delimiter);
        let r = kv::kv_set_all(lines, updates, delimiter);
        assert forall|i: int| lines.len() <= i < r.len() implies (#[trigger] r[i]) is Entry
            && last_value(updates, r[i]->key) is Some by {
            if i < q.len() {
                assert(q[i] is Entry);
            }
        }
    }
}

/// No line is added where all keys have an entry.
proof fn lemma_no_growth(
    lines: Seq<KvView>,
    updates: Seq<(Seq<char>, Seq<char>)>,
    n: int,
    delimiter: char,
)
    requires
        0 <= n <= updates.len(),
        forall|key: Seq<char>|
            (#[trigger] last_value(updates, key)) is Some ==> kv::has_key(lines, key),
    ensures
        kv::kv_set_all(lines, updates.take(n), delimiter).len() == lines.len(),
    decreases n,
{
    if n > 0 {
        lemma_no_growth(lines, updates, n - 1, delimiter);
        let u = updates.take(n);
        assert(u.drop_last() == updates.take(n - 1));
        let q = kv::kv_set_all(lines, u.drop_last(), delimiter);
        let key = u.last().0;
        lemma_last_value_some(updates, n - 1);
        assert(kv::has_key(lines, key));
        let i = choose|i: int| 0 <= i < lines.len() && kv::is_entry_for(#[trigger] lines[i], key);
        lemma_set_all(lines, u.drop_last(), delimiter);
        assert(q[i] == line_after(lines[i], u.drop_last()));
        assert(kv::is_entry_for(q[i], key));
    }
}

/// Every update gives its key a value.
proof fn lemma_last_value_some(updates: Seq<(Seq<char>, Seq<char>)>, i: int)
    requires
        0 <= i < updates.len(),
    ensures
        last_value(updates, updates[i].0) is Some,
    decreases updates.len(),
{
    if i < updates.len() - 1 {
        lemma_last_value_some(updates.drop_last(), i);
        assert(updates.drop_last()[i] == updates[i]);
    }
}

} // verus!
