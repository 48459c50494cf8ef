//! Updating one section of an INI file.

use crate::text;
use vstd::prelude::*;

verus! {

/// The line is a section header: a name in square brackets.
pub open spec fn is_header(line: Seq<char>) -> bool {
    let t = text::trim(line);
    t.len() > 0 && t[0] == '[' && t.last() == ']'
}

/// The name between the brackets of a section header.
pub open spec fn header_name(line: Seq<char>) -> Seq<char> {
    let t = text::trim(line);
    text::trim(t.subrange(1, t.len() - 1))
}

/// The line is the header of the section.
pub open spec fn opens(line: Seq<char>, section: Seq<char>) -> bool {
    is_header(line) && text::same_ignoring_case(header_name(line), section)
}

/// What follows these lines belongs to the section: their last header is one of the section.
pub open spec fn in_section(ls: Seq<Seq<char>>, section: Seq<char>) -> bool
    decreases ls.len(),
{
    if ls.len() == 0 {
        false
    } else if is_header(ls.last()) {
        opens(ls.last(), section)
    } else {
        in_section(ls.drop_last(), section)
    }
}

/// One of these lines is a header of the section.
pub open spec fn has_section(ls: Seq<Seq<char>>, section: Seq<char>) -> bool {
    exists|i: int| 0 <= i < ls.len() && opens(#[trigger] ls[i], section)
}

/// The line sets a key: it is no header and no comment, and holds an equals sign.
pub open spec fn sets_key(line: Seq<char>) -> bool {
    let t = text::trim(line);
    &&& !is_header(line)
    &&& t.len() > 0
    &&& t[0] != '#'
    &&& t[0] != ';'
    &&& line.contains('=')
}

/// The key that a line sets.
pub open spec fn key_of(line: Seq<char>) -> Seq<char> {
    text::trim(text::split_once(line, '=').unwrap().0)
}

/// The first update for this key.
pub open spec fn update_for(updates: Seq<(Seq<char>, Seq<char>)>, key: Seq<char>) -> Option<int>
    decreases updates.len(),
{
    if updates.len() == 0 {
        None
    } else {
        match update_for(updates.drop_last(), key) {
            Some(i) => Some(i),
            None => if text::same_ignoring_case(key, updates.last().0) {
                Some(updates.len() - 1)
            } else {
                None
            },
        }
    }
}

/// The update that a line behind the lines `before` stands for.
pub open spec fn hit(
    before: Seq<Seq<char>>,
    line: Seq<char>,
    section: Seq<char>,
    updates: Seq<(Seq<char>, Seq<char>)>,
) -> Option<int> {
    if in_section(before, section) && sets_key(line) {
        update_for(updates, key_of(line))
    } else {
        None
    }
}

/// One of these lines stands for the update `k`.
pub open spec fn seen(
    ls: Seq<Seq<char>>,
    section: Seq<char>,
    updates: Seq<(Seq<char>, Seq<char>)>,
    k: int,
) -> bool {
    exists|j: int|
        0 <= j < ls.len() && #[trigger] hit(ls.take(j), ls[j], section, updates) == Some(k)
}

/// The line that an update adds.
pub open spec fn update_line(update: (Seq<char>, Seq<char>)) -> Seq<char> {
    update.0.push('=') + update.1
}

/// The lines for those of the first `n` updates that none of the lines stands for.
pub open spec fn missing(
    ls: Seq<Seq<char>>,
    section: Seq<char>,
    updates: Seq<(Seq<char>, Seq<char>)>,
    n: int,
) -> Seq<Seq<char>>
    decreases n,
{
    if n <= 0 {
        Seq::empty()
    } else {
        let rest = missing(ls, section, updates, n - 1);
        if seen(ls, section, updates, n - 1) {
            rest
        } else {
            rest.push(update_line(updates[n - 1]))
        }
    }
}

/// The line behind the lines `before`, with its value replaced where it stands for an update.
pub open spec fn updated_line(
    before: Seq<Seq<char>>,
    line: Seq<char>,
    section: Seq<char>,
    updates: Seq<(Seq<char>, Seq<char>)>,
) -> Seq<char> {
    match hit(before, line, section, updates) {
        Some(k) => (text::indent(line) + key_of(line)).push('=') + updates[k].1,
        None => line,
    }
}

/// The lines up to the last of `ls`: each line is updated, and the missing lines stand at the end
/// of the section, before the next header.
pub open spec fn body(
    ls: Seq<Seq<char>>,
    section: Seq<char>,
    updates: Seq<(Seq<char>, Seq<char>)>,
) -> Seq<Seq<char>>
    decreases ls.len(),
{
    if ls.len() == 0 {
        Seq::empty()
    } else {
        let before = ls.drop_last();
        let line = ls.last();
        let end_of_section = if is_header(line) && in_section(before, section) {
            missing(before, section, updates, updates.len() as int)
        } else {
            Seq::empty()
        };
        (body(before, section, updates) + end_of_section).push(
            updated_line(before, line, section, updates),
        )
    }
}

/// The header of a section.
pub open spec fn header_line(section: Seq<char>) -> Seq<char> {
    seq!['['] + section.push(']')
}

/// What stands behind the last line: the missing lines where the file ends in the section, and
/// the whole section, behind an empty line, where the file had none.
pub open spec fn ending(
    ls: Seq<Seq<char>>,
    section: Seq<char>,
    updates: Seq<(Seq<char>, Seq<char>)>,
) -> Seq<Seq<char>> {
    if in_section(ls, section) {
        missing(ls, section, updates, updates.len() as int)
    } else if !has_section(ls, section) {
        (if ls.len() > 0 {
            seq![Seq::<char>::empty(), header_line(section)]
        } else {
            seq![header_line(section)]
        }) + updates.map_values(|u: (Seq<char>, Seq<char>)| update_line(u))
    } else {
        Seq::empty()
    }
}

/// The lines of a file after the update.
pub open spec fn updated_lines(
    ls: Seq<Seq<char>>,
    section: Seq<char>,
    updates: Seq<(Seq<char>, Seq<char>)>,
) -> Seq<Seq<char>> {
    body(ls, section, updates) + ending(ls, section, updates)
}

/// The text of a file after the update.
pub open spec fn updated_file(
    content: Seq<char>,
    section: Seq<char>,
    updates: Seq<(Seq<char>, Seq<char>)>,
) -> Seq<char> {
    text::file_text(updated_lines(text::lines(content), section, updates))
}

/// What is seen in one more line.
pub proof fn lemma_seen_push(
    ls: Seq<Seq<char>>,
    line: Seq<char>,
    section: Seq<char>,
    updates: Seq<(Seq<char>, Seq<char>)>,
)
    ensures
        forall|k: int| #[trigger]
            seen(ls.push(line), section, updates, k) == (seen(ls, section, updates, k) || hit(
                ls,
                line,
                section,
                updates,
            ) == Some(k)),
{
    let all = ls.push(line);
    let n = ls.len() as int;
    assert(all.take(n) == ls);
    assert(all[n] == line);
    assert forall|k: int| #[trigger]
        seen(all, section, updates, k) == (seen(ls, section, updates, k) || hit(
            ls,
            line,
            section,
            updates,
        ) == Some(k)) by {
        assert forall|j: int| 0 <= j < n implies #[trigger] all.take(j) == ls.take(j) && all[j]
            == ls[j] by {}
        if seen(ls, section, updates, k) {
            let j = choose|j: int|
                0 <= j < n && #[trigger] hit(ls.take(j), ls[j], section, updates) == Some(k);
            assert(hit(all.take(j), all[j], section, updates) == Some(k));
        }
        if hit(ls, line, section, updates) == Some(k) {
            assert(hit(all.take(n), all[n], section, updates) == Some(k));
        }
        if seen(all, section, updates, k) {
            let j = choose|j: int|
                0 <= j < all.len() && #[trigger] hit(all.take(j), all[j], section, updates)
                    == Some(k);
            if j < n {
                assert(hit(ls.take(j), ls[j], section, updates) == Some(k));
            }
        }
    }
}

/// `update_for` gives one of the updates.
pub proof fn lemma_update_for(updates: Seq<(Seq<char>, Seq<char>)>, key: Seq<char>)
    ensures
        match update_for(updates, key) {
            Some(k) => {
                &&& 0 <= k < updates.len()
                &&& text::same_ignoring_case(key, updates[k].0)
                &&& forall|j: int|
                    0 <= j < k ==> !text::same_ignoring_case(key, #[trigger] updates[j].0)
            },
            None => forall|j: int|
                0 <= j < updates.len() ==> !text::same_ignoring_case(key, #[trigger] updates[j].0),
        },
    decreases updates.len(),
{
    if updates.len() > 0 {
        lemma_update_for(updates.drop_last(), key);
        assert forall|j: int| 0 <= j < updates.len() - 1 implies updates.drop_last()[j]
            == #[trigger] updates[j] by {}
    }
}

/// Appends the line `key=value`.
fn push_update(out: &mut Vec<String>, key: &str, value: &str)
    ensures
        text::texts(final(out)@) == text::texts(old(out)@).push(update_line((key@, value@))),
{
    let mut line = String::new();
    line.append(key);
    line.push('=');
    line.append(value);
    assert(line@ == update_line((key@, value@)));
    out.push(line);
    assert(text::texts(out@) =~= text::texts(old(out)@).push(line@));
}

/// Appends the lines of the updates that were not seen.
fn push_missing(
    out: &mut Vec<String>,
    flags: &Vec<bool>,
    updates: &[(&str, String)],
    Ghost(ls): Ghost<Seq<Seq<char>>>,
    Ghost(section): Ghost<Seq<char>>,
)
    requires
        flags.len() == updates.len(),
        forall|k: int|
            0 <= k < flags.len() ==> #[trigger] flags[k] == seen(
                ls,
                section,
                text::pairs(updates@),
                k,
            ),
    ensures
        text::texts(final(out)@) == text::texts(old(out)@) + missing(
            ls,
            section,
            text::pairs(updates@),
            updates.len() as int,
        ),
{
    let mut k: usize = 0;
    assert(text::texts(out@) + Seq::<Seq<char>>::empty() =~= text::texts(out@));
    while k < updates.len()
        invariant
            k <= updates.len(),
            flags.len() == updates.len(),
            forall|k: int|
                0 <= k < flags.len() ==> #[trigger] flags[k] == seen(
                    ls,
                    section,
                    text::pairs(updates@),
                    k,
                ),
            text::texts(out@) == text::texts(old(out)@) + missing(
                ls,
                section,
                text::pairs(updates@),
                k as int,
            ),
        decreases updates.len() - k,
    {
        if !flags[k] {
            push_update(out, updates[k].0, updates[k].1.as_str());
            assert(text::pairs(updates@)[k as int] == (
                updates@[k as int].0@,
                updates@[k as int].1@,
            ));
        }
        k += 1;
    }
}

/// Looks for the first update for a key.
fn find_update(key: &[char], updates: &[(&str, String)]) -> (r: Option<usize>)
    ensures
        match r {
            Some(k) => update_for(text::pairs(updates@), key@) == Some(k as int) && k
                < updates.len(),
            None => update_for(text::pairs(updates@), key@) is None,
        },
{
    let ghost all = text::pairs(updates@);
    let mut k: usize = 0;
    proof {
        lemma_update_for(all, key@);
    }
    while k < updates.len()
        invariant
            k <= updates.len(),
            all == text::pairs(updates@),
            forall|j: int| 0 <= j < k ==> !text::same_ignoring_case(key@, #[trigger] all[j].0),
        decreases updates.len() - k,
    {
        let name = text::to_chars(updates[k].0);
        if text::same_chars_ignoring_case(key, name.as_slice()) {
            proof {
                lemma_update_for(all, key@);
                assert(all[k as int].0 == updates@[k as int].0@);
            }
            return Some(k);
        }
        assert(all[k as int].0 == updates@[k as int].0@);
        k += 1;
    }
    proof {
        lemma_update_for(all, key@);
    }
    None
}

/// The text of an INI file with the keys of one section set. The case of letters makes no
/// difference to the names of sections and keys. A key that the section lacks is added at its
/// end, and the section at the end of the file where the file lacks it.
pub fn update_ini_section(content: &str, section: &str, updates: &[(&str, String)]) -> (r: String)
    ensures
        r@ == updated_file(content@, section@, text::pairs(updates@)),
{
    let ghost us = text::pairs(updates@);
    let ls = text::split_lines(content);
    let ghost all = text::texts(ls@);
    let wanted = text::to_chars(section);
    let mut out: Vec<String> = Vec::new();
    let mut inside: bool = false;
    let mut found: bool = false;
    let mut flags: Vec<bool> = Vec::new();
    let mut k: usize = 0;
    while k < updates.len()
        invariant
            k <= updates.len(),
            flags.len() == k,
            forall|j: int| 0 <= j < k ==> #[trigger] flags[j] == false,
        decreases updates.len() - k,
    {
        flags.push(false);
        k += 1;
    }
    let mut i: usize = 0;
    while i < ls.len()
        invariant
            i <= ls.len(),
            all == text::texts(ls@),
            us == text::pairs(updates@),
            wanted@ == section@,
            flags.len() == updates.len(),
            inside == in_section(all.take(i as int), section@),
            found == has_section(all.take(i as int), section@),
            forall|j: int|
                0 <= j < flags.len() ==> #[trigger] flags[j] == seen(
                    all.take(i as int),
                    section@,
                    us,
                    j,
                ),
            text::texts(out@) == body(all.take(i as int), section@, us),
        decreases ls.len() - i,
    {
        let ghost before = all.take(i as int);
        let ghost line = all[i as int];
        let ghost now = all.take(i + 1);
        let raw = text::to_chars(ls[i].as_str());
        let cs: &[char] = raw.as_slice();
        let t = text::trimmed(cs);
        proof {
            assert(now == before.push(line));
            assert(now.drop_last() == before);
            assert(cs@ == line);
            lemma_seen_push(before, line, section@, us);
            lemma_has_section_push(before, line, section@);
            text::lemma_split_once(line, '=');
        }
        i += 1;
        if t.len() > 0 && t[0] == '[' && t[t.len() - 1] == ']' {
            if inside {
                push_missing(&mut out, &flags, updates, Ghost(before), Ghost(section@));
            }
            let name = text::trimmed(vstd::slice::slice_subrange(t, 1, t.len() - 1));
            inside = text::same_chars_ignoring_case(name, wanted.as_slice());
            if inside {
                found = true;
            }
            let ghost prior = out@;
            out.push(text::from_chars(cs));
            assert(text::texts(out@) =~= text::texts(prior).push(line));
        } else {
            let ghost prior = out@;
            let mut new_line = text::from_chars(cs);
            if inside && t.len() > 0 && t[0] != '#' && t[0] != ';' {
                if let Some((left, _)) = text::split_at_first(cs, '=') {
                    let key = text::trimmed(left);
                    if let Some(k) = find_update(key, updates) {
                        new_line = String::new();
                        text::push_chars(&mut new_line, text::leading_white(cs));
                        text::push_chars(&mut new_line, key);
                        new_line.push('=');
                        new_line.append(updates[k].1.as_str());
                        flags.set(k, true);
                    }
                }
            }
            assert(new_line@ =~= updated_line(before, line, section@, us));
            out.push(new_line);
            assert(text::texts(out@) =~= text::texts(prior).push(new_line@));
        }
    }
    assert(all.take(i as int) == all);
    if inside {
        push_missing(&mut out, &flags, updates, Ghost(all), Ghost(section@));
    } else if !found {
        let ghost start = out@;
        if out.len() > 0 {
            out.push(String::new());
        }
        proof {
            lemma_body_len(all, section@, us);
        }
        let mut header = String::new();
        header.push('[');
        header.append(section);
        header.push(']');
        assert(header@ =~= header_line(section@));
        out.push(header);
        let ghost head = if all.len() > 0 {
            seq![Seq::<char>::empty(), header_line(section@)]
        } else {
            seq![header_line(section@)]
        };
        assert(text::texts(out@) =~= text::texts(start) + head);
        let ghost added = us.map_values(|u: (Seq<char>, Seq<char>)| update_line(u));
        let mut k: usize = 0;
        assert(added.take(0) =~= Seq::<Seq<char>>::empty());
        while k < updates.len()
            invariant
                k <= updates.len(),
                us == text::pairs(updates@),
                added == us.map_values(|u: (Seq<char>, Seq<char>)| update_line(u)),
                text::texts(out@) =~= text::texts(start) + head + added.take(k as int),
            decreases updates.len() - k,
        {
            push_update(&mut out, updates[k].0, updates[k].1.as_str());
            assert(added[k as int] == update_line(us[k as int]));
            k += 1;
        }
        assert(added.take(k as int) =~= added);
        assert(text::texts(start) + head + added =~= text::texts(start) + (head + added));
    }
    assert(text::texts(out@) =~= updated_lines(all, section@, us));
    text::lines_to_file(&out)
}

/// One more line has the section where the others have it or it is a header of the section.
pub proof fn lemma_has_section_push(ls: Seq<Seq<char>>, line: Seq<char>, section: Seq<char>)
    ensures
        has_section(ls.push(line), section) == (has_section(ls, section) || opens(line, section)),
{
    let all = ls.push(line);
    if has_section(ls, section) {
        let i = choose|i: int| 0 <= i < ls.len() && opens(#[trigger] ls[i], section);
        assert(opens(all[i], section));
    }
    if opens(line, section) {
        assert(opens(all[ls.len() as int], section));
    }
    if has_section(all, section) {
        let i = choose|i: int| 0 <= i < all.len() && opens(#[trigger] all[i], section);
        if i < ls.len() {
            assert(opens(ls[i], section));
        }
    }
}

/// There are no fewer lines than before.
pub proof fn lemma_body_len(
    ls: Seq<Seq<char>>,
    section: Seq<char>,
    updates: Seq<(Seq<char>, Seq<char>)>,
)
    ensures
        body(ls, section, updates).len() >= ls.len(),
        ls.len() == 0 ==> body(ls, section, updates).len() == 0,
    decreases ls.len(),
{
    if ls.len() > 0 {
        lemma_body_len(ls.drop_last(), section, updates);
    }
}

} // verus!
