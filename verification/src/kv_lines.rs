//! What reading, setting and writing key/value lines is for, line by line.

use crate::facts;
use crate::kv;
use crate::kv::KvView;
use crate::text;
use crate::text_laws;
use vstd::prelude::*;

verus! {

/// A line is an entry where something stands before its first delimiter that does not begin with `#`
/// or `!`: that is its key, and what stands behind the delimiter is its value, both without the white
/// space at their ends. Any other line is kept as it is.
pub proof fn law_read_line(left: Seq<char>, delimiter: char, right: Seq<char>)
    requires
        !left.contains(delimiter),
    ensures
        ({
            let line = left + seq![delimiter] + right;
            let key = text::trim(left);
            kv::kv_line(line, delimiter) == (if key.len() > 0 && key[0] != '#' && key[0] != '!' {
                KvView::Entry {
                    key,
                    value: text::trim(right),
                    prefix: text::indent(left),
                    delimiter,
                }
            } else {
                KvView::Other(line)
            })
        }),
        kv::kv_line(left, delimiter) == KvView::Other(left),
{
    let line = left + seq![delimiter] + right;
    let key = text::trim(left);
    assert(line =~= left.push(delimiter) + right);
    text_laws::law_split_once(left, delimiter, right);
    facts::lemma_trim(left);
    facts::lemma_white_prefix(left);
    if key.len() > 0 {
        let t = text::trim_start(left);
        let tail = t + seq![delimiter] + right;
        assert(line =~= text::indent(left) + tail);
        assert(tail[0] == t[0]);
        assert(key[0] == t[0]);
        facts::lemma_indent(text::indent(left), tail);
    }
}

/// Each line of a text is read for itself.
pub proof fn law_read_lines(content: Seq<char>, delimiter: char, i: int)
    ensures
        kv::kv_lines(content, delimiter).len() == text::lines(content).len(),
        0 <= i < text::lines(content).len() ==> kv::kv_lines(content, delimiter)[i] == kv::kv_line(
            text::lines(content)[i],
            delimiter,
        ),
{
}

/// The contents of a list of lines are those of each in turn.
pub proof fn law_line_contents(lines: Seq<kv::KvLine>, i: int)
    ensures
        kv::kv_views(lines).len() == lines.len(),
        0 <= i < lines.len() ==> kv::kv_views(lines)[i] == lines[i]@,
{
}

/// Setting a key changes the value of every entry for it, and nothing else of any line; where there
/// is no entry for it, one is added at the end, and only then.
pub proof fn law_set(
    lines: Seq<KvView>,
    key: Seq<char>,
    value: Seq<char>,
    delimiter: char,
    i: int,
)
    ensures
        ({
            let r = kv::kv_set(lines, key, value, delimiter);
            let present = exists|j: int|
                0 <= j < lines.len() && (#[trigger] lines[j] matches KvView::Entry { key: k, .. }
                    && k == key);
            &&& r.len() == lines.len() + if present {
                0int
            } else {
                1
            }
            &&& !present ==> r[lines.len() as int] == (KvView::Entry {
                key,
                value,
                prefix: Seq::empty(),
                delimiter,
            })
            &&& 0 <= i < lines.len() ==> r[i] == (match lines[i] {
                KvView::Entry { key: k, value: v, prefix, delimiter: d } => KvView::Entry {
                    key: k,
                    value: if k == key {
                        value
                    } else {
                        v
                    },
                    prefix,
                    delimiter: d,
                },
                KvView::Other(raw) => KvView::Other(raw),
            })
        }),
{
    let present = exists|j: int|
        0 <= j < lines.len() && (#[trigger] lines[j] matches KvView::Entry { key: k, .. } && k
            == key);
    if present {
        let j = choose|j: int|
            0 <= j < lines.len() && (#[trigger] lines[j] matches KvView::Entry { key: k, .. } && k
                == key);
        assert(kv::is_entry_for(lines[j], key));
    }
    if kv::has_key(lines, key) {
        let j = choose|j: int| 0 <= j < lines.len() && kv::is_entry_for(#[trigger] lines[j], key);
        assert(lines[j] matches KvView::Entry { key: k, .. } && k == key);
    }
}

/// Updates are made in turn.
pub proof fn law_in_turn(
    lines: Seq<KvView>,
    updates: Seq<(Seq<char>, Seq<char>)>,
    key: Seq<char>,
    value: Seq<char>,
    delimiter: char,
)
    ensures
        kv::kv_set_all(lines, Seq::empty(), delimiter) == lines,
        kv::kv_set_all(lines, updates.push((key, value)), delimiter) == kv::kv_set(
            kv::kv_set_all(lines, updates, delimiter),
            key,
            value,
            delimiter,
        ),
{
    assert(updates.push((key, value)).drop_last() =~= updates);
}

/// An entry is written as its indent, its key, the delimiter, a blank and its value; any other line
/// as it was.
pub proof fn law_write_line(
    key: Seq<char>,
    value: Seq<char>,
    prefix: Seq<char>,
    delimiter: char,
    raw: Seq<char>,
)
    ensures
        kv::kv_line_text(KvView::Entry { key, value, prefix, delimiter }) == prefix + key + seq![
            delimiter,
            ' ',
        ] + value,
        kv::kv_line_text(KvView::Other(raw)) == raw,
{
    assert((prefix + key).push(delimiter).push(' ') =~= prefix + key + seq![delimiter, ' ']);
}

/// Lines are written one after the other.
pub proof fn law_write_lines(lines: Seq<KvView>)
    ensures
        kv::kv_text(lines) == text::file_text(
            Seq::new(lines.len(), |i: int| kv::kv_line_text(lines[i])),
        ),
{
    assert(lines.map_values(|l: KvView| kv::kv_line_text(l)) =~= Seq::new(
        lines.len(),
        |i: int| kv::kv_line_text(lines[i]),
    ));
}

/// A file is updated by reading its lines, making the updates and writing the lines.
pub proof fn law_update_file(
    content: Seq<char>,
    delimiter: char,
    updates: Seq<(Seq<char>, Seq<char>)>,
)
    ensures
        kv::kv_upsert(content, delimiter, updates) == kv::kv_text(
            kv::kv_set_all(kv::kv_lines(content, delimiter), updates, delimiter),
        ),
{
}

} // verus!
