//! Files of lines with a key, a delimiter and a value.

use crate::text;
use vstd::prelude::*;

verus! {

/// A line of a key/value file.
#[derive(Debug)]
pub enum KvLine {
    Entry { key: String, value: String, prefix: String, delimiter: char },
    Other(String),
}

/// The contents of a `KvLine`.
pub enum KvView {
    Entry { key: Seq<char>, value: Seq<char>, prefix: Seq<char>, delimiter: char },
    Other(Seq<char>),
}

impl View for KvLine {
    type V = KvView;

    open spec fn view(&self) -> KvView {
        match self {
            KvLine::Entry { key, value, prefix, delimiter } => KvView::Entry {
                key: key@,
                value: value@,
                prefix: prefix@,
                delimiter: *delimiter,
            },
            KvLine::Other(raw) => KvView::Other(raw@),
        }
    }
}

/// The contents of a list of lines.
pub open spec fn kv_views(lines: Seq<KvLine>) -> Seq<KvView> {
    lines.map_values(|l: KvLine| l@)
}

/// A line that says nothing: it is blank, or a comment after `#` or `!`.
pub open spec fn blank_or_comment(line: Seq<char>) -> bool {
    let t = text::trim_start(line);
    t.len() == 0 || t[0] == '#' || t[0] == '!'
}

/// What a line holds: an entry where a key stands before the first delimiter.
pub open spec fn kv_line(line: Seq<char>, delimiter: char) -> KvView {
    match text::split_once(line, delimiter) {
        Some((left, right)) => if !blank_or_comment(line) && text::trim(left).len() > 0 {
            KvView::Entry {
                key: text::trim(left),
                value: text::trim(right),
                prefix: text::indent(line),
                delimiter,
            }
        } else {
            KvView::Other(line)
        },
        None => KvView::Other(line),
    }
}

/// What the lines of a text hold.
pub open spec fn kv_lines(content: Seq<char>, delimiter: char) -> Seq<KvView> {
    text::lines(content).map_values(|line: Seq<char>| kv_line(line, delimiter))
}

/// The line is an entry for `key`.
pub open spec fn is_entry_for(line: KvView, key: Seq<char>) -> bool {
    line matches KvView::Entry { key: k, .. } && k == key
}

/// Some line is an entry for `key`.
pub open spec fn has_key(lines: Seq<KvView>, key: Seq<char>) -> bool {
    exists|i: int| 0 <= i < lines.len() && is_entry_for(#[trigger] lines[i], key)
}

/// The line with its value replaced where it is an entry for `key`.
pub open spec fn with_value(line: KvView, key: Seq<char>, value: Seq<char>) -> KvView {
    match line {
        KvView::Entry { key: k, prefix, delimiter, .. } => if k == key {
            KvView::Entry { key: k, value, prefix, delimiter }
        } else {
            line
        },
        KvView::Other(_) => line,
    }
}

/// The lines with all entries for `key` set to `value`; where there is none, one more entry
/// stands at the end.
pub open spec fn kv_set(
    lines: Seq<KvView>,
    key: Seq<char>,
    value: Seq<char>,
    delimiter: char,
) -> Seq<KvView> {
    let updated = lines.map_values(|l: KvView| with_value(l, key, value));
    if has_key(lines, key) {
        updated
    } else {
        updated.push(KvView::Entry { key, value, prefix: Seq::empty(), delimiter })
    }
}

/// A line as text.
pub open spec fn kv_line_text(line: KvView) -> Seq<char> {
    match line {
        KvView::Entry { key, value, prefix, delimiter } => (prefix + key).push(delimiter).push(' ')
            + value,
        KvView::Other(raw) => raw,
    }
}

/// The lines as the text of a file.
pub open spec fn kv_text(lines: Seq<KvView>) -> Seq<char> {
    text::file_text(lines.map_values(|l: KvView| kv_line_text(l)))
}

/// The lines after each update in turn.
pub open spec fn kv_set_all(
    lines: Seq<KvView>,
    updates: Seq<(Seq<char>, Seq<char>)>,
    delimiter: char,
) -> Seq<KvView>
    decreases updates.len(),
{
    if updates.len() == 0 {
        lines
    } else {
        kv_set(
            kv_set_all(lines, updates.drop_last(), delimiter),
            updates.last().0,
            updates.last().1,
            delimiter,
        )
    }
}

/// A key/value text after each update in turn.
pub open spec fn kv_upsert(
    content: Seq<char>,
    delimiter: char,
    updates: Seq<(Seq<char>, Seq<char>)>,
) -> Seq<char> {
    kv_text(kv_set_all(kv_lines(content, delimiter), updates, delimiter))
}

/// Reads one line.
fn parse_kv_line(line: &str, delimiter: char) -> (r: KvLine)
    ensures
        r@ == kv_line(line@, delimiter),
{
    let cs = text::to_chars(line);
    let all: &[char] = cs.as_slice();
    let start = text::trimmed_start(all);
    if start.len() == 0 || start[0] == '#' || start[0] == '!' {
        return KvLine::Other(line.to_owned());
    }
    match text::split_at_first(all, delimiter) {
        Some((left, right)) => {
            let key = text::trimmed(left);
            if key.len() == 0 {
                return KvLine::Other(line.to_owned());
            }
            KvLine::Entry {
                key: text::from_chars(key),
                value: text::from_chars(text::trimmed(right)),
                prefix: text::from_chars(text::leading_white(all)),
                delimiter,
            }
        },
        None => KvLine::Other(line.to_owned()),
    }
}

/// Reads the lines of a key/value file.
pub fn parse_kv_lines(content: &str, delimiter: char) -> (r: Vec<KvLine>)
    ensures
        kv_views(r@) == kv_lines(content@, delimiter),
{
    let ls = text::split_lines(content);
    let mut r: Vec<KvLine> = Vec::new();
    let mut i: usize = 0;
    while i < ls.len()
        invariant
            i <= ls.len(),
            text::texts(ls@) == text::lines(content@),
            kv_views(r@) == kv_lines(content@, delimiter).take(i as int),
        decreases ls.len() - i,
    {
        let ghost before = r@;
        r.push(parse_kv_line(ls[i].as_str(), delimiter));
        assert(text::texts(ls@)[i as int] == ls@[i as int]@);
        assert(kv_views(r@) == kv_views(before).push(r@.last()@));
        i += 1;
    }
    assert(text::texts(ls@).len() == ls@.len());
    r
}

/// Sets all entries for `key` to `value`, and adds one where there is none.
pub fn set_kv_value(lines: &mut Vec<KvLine>, key: &str, value: &str, delimiter: char)
    ensures
        kv_views(final(lines)@) == kv_set(kv_views(old(lines)@), key@, value@, delimiter),
{
    let mut updated: bool = false;
    let mut i: usize = 0;
    let ghost before = kv_views(lines@);
    while i < lines.len()
        invariant
            i <= lines.len(),
            before.len() == lines.len(),
            forall|j: int| 0 <= j < i ==> (#[trigger] lines@[j])@ == with_value(before[j], key@, value@),
            forall|j: int| i <= j < lines.len() ==> (#[trigger] lines@[j])@ == before[j],
            updated == exists|j: int| 0 <= j < i && is_entry_for(#[trigger] before[j], key@),
        decreases lines.len() - i,
    {
        let ghost old_lines = lines@;
        let mut hit: bool = false;
        if let KvLine::Entry { key: entry_key, .. } = &lines[i] {
            hit = text::same_text(entry_key.as_str(), key);
        }
        assert(lines@[i as int]@ == before[i as int]);
        assert(hit == is_entry_for(before[i as int], key@));
        if hit {
            if let KvLine::Entry { value: entry_value, .. } = &mut lines[i] {
                *entry_value = value.to_owned();
            }
            updated = true;
        }
        i += 1;
    }
    proof {
        assert(updated == has_key(before, key@));
    }
    if !updated {
        lines.push(
            KvLine::Entry {
                key: key.to_owned(),
                value: value.to_owned(),
                prefix: String::new(),
                delimiter,
            },
        );
    }
    assert(kv_views(lines@) == kv_set(before, key@, value@, delimiter));
}

/// Writes the lines as the text of a file.
pub fn render_kv_lines(lines: &[KvLine]) -> (r: String)
    ensures
        r@ == kv_text(kv_views(lines@)),
{
    let mut out: Vec<String> = Vec::new();
    let ghost all = kv_views(lines@).map_values(|l: KvView| kv_line_text(l));
    let mut i: usize = 0;
    while i < lines.len()
        invariant
            i <= lines.len(),
            all == kv_views(lines@).map_values(|l: KvView| kv_line_text(l)),
            text::texts(out@) == all.take(i as int),
        decreases lines.len() - i,
    {
        let mut line = String::new();
        match &lines[i] {
            KvLine::Entry { key, value, prefix, delimiter } => {
                line.append(prefix.as_str());
                line.append(key.as_str());
                line.push(*delimiter);
                line.push(' ');
                line.append(value.as_str());
            },
            KvLine::Other(raw) => {
                line.append(raw.as_str());
            },
        }
        assert(line@ == all[i as int]);
        let ghost before = out@;
        out.push(line);
        assert(text::texts(out@) == text::texts(before).push(line@));
        i += 1;
    }
    assert(all.take(i as int) == all);
    text::lines_to_file(&out)
}

/// A key/value text with each of the updates made: all entries for the key get the value, and
/// one is added where there is none.
pub fn upsert_kv_file(content: &str, delimiter: char, updates: &[(&str, String)]) -> (r: String)
    ensures
        r@ == kv_upsert(content@, delimiter, text::pairs(updates@)),
{
    let mut lines = parse_kv_lines(content, delimiter);
    let mut i: usize = 0;
    while i < updates.len()
        invariant
            i <= updates.len(),
            kv_views(lines@) == kv_set_all(
                kv_lines(content@, delimiter),
                text::pairs(updates@).take(i as int),
                delimiter,
            ),
        decreases updates.len() - i,
    {
        let ghost done = text::pairs(updates@).take(i + 1);
        assert(done.drop_last() == text::pairs(updates@).take(i as int));
        assert(done.last() == (updates@[i as int].0@, updates@[i as int].1@));
        set_kv_value(&mut lines, updates[i].0, updates[i].1.as_str(), delimiter);
        i += 1;
    }
    assert(text::pairs(updates@).take(i as int) == text::pairs(updates@));
    render_kv_lines(lines.as_slice())
}

} // verus!
