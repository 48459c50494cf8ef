//! What the update of a section is for, line by line: which lines belong to the section, which of them
//! set a key, what they become, and which lines are added where.

use crate::ini;
use crate::text;
use crate::text_laws;
use vstd::prelude::*;

verus! {

/// The first of the updates whose key this is, the case of letters aside.
pub open spec fn first_match(
    updates: Seq<(Seq<char>, Seq<char>)>,
    key: Seq<char>,
    k: int,
) -> bool {
    &&& 0 <= k < updates.len()
    &&& text::same_ignoring_case(key, updates[k].0)
    &&& forall|m: int| 0 <= m < k ==> !text::same_ignoring_case(key, #[trigger] updates[m].0)
}

/// The line behind the lines `before` sets the key of the update `k`.
pub open spec fn sets_update(
    before: Seq<Seq<char>>,
    line: Seq<char>,
    section: Seq<char>,
    updates: Seq<(Seq<char>, Seq<char>)>,
    k: int,
) -> bool {
    &&& ini::in_section(before, section)
    &&& ini::sets_key(line)
    &&& first_match(updates, ini::key_of(line), k)
}

/// One of the lines sets the key of the update `k`.
pub open spec fn is_set(
    ls: Seq<Seq<char>>,
    section: Seq<char>,
    updates: Seq<(Seq<char>, Seq<char>)>,
    k: int,
) -> bool {
    exists|j: int|
        0 <= j < ls.len() && #[trigger] sets_update(ls.take(j), ls[j], section, updates, k)
}

/// The updates whose key none of the lines sets, in their order, as lines.
pub open spec fn unset_lines(
    ls: Seq<Seq<char>>,
    section: Seq<char>,
    updates: Seq<(Seq<char>, Seq<char>)>,
) -> Seq<Seq<char>> {
    Seq::new(updates.len(), |k: int| k).filter(
        |k: int| !is_set(ls, section, updates, k),
    ).map_values(|k: int| updates[k].0 + seq!['='] + updates[k].1)
}

/// A header is a name in square brackets, white space around it and around the name aside; and the
/// case of letters makes no difference to the section that it opens.
pub proof fn law_header(line: Seq<char>, section: Seq<char>)
    ensures
        ({
            let t = text::trim(line);
            &&& ini::is_header(line) <==> t.len() >= 2 && t[0] == '[' && t[t.len() - 1] == ']'
            &&& ini::is_header(line) ==> ini::header_name(line) == text::trim(
                t.subrange(1, t.len() - 1),
            )
            &&& ini::opens(line, section) <==> ini::is_header(line) && text::same_ignoring_case(
                ini::header_name(line),
                section,
            )
        }),
{
}

/// Lines are in the section where one of them opens it and none behind that one is a header.
pub proof fn law_in_section(ls: Seq<Seq<char>>, section: Seq<char>)
    ensures
        ini::in_section(ls, section) <==> exists|j: int| #[trigger] opened_at(ls, section, j),
        ini::has_section(ls, section) <==> exists|j: int|
            0 <= j < ls.len() && ini::opens(#[trigger] ls[j], section),
    decreases ls.len(),
{
    if ls.len() > 0 {
        let rest = ls.drop_last();
        let n = rest.len() as int;
        law_in_section(rest, section);
        if ini::in_section(ls, section) {
            if ini::is_header(ls.last()) {
                assert(opened_at(ls, section, n));
            } else {
                let j = choose|j: int| #[trigger] opened_at(rest, section, j);
                assert(rest[j] == ls[j]);
                assert forall|m: int| j < m < ls.len() implies !ini::is_header(
                    #[trigger] ls[m],
                ) by {
                    if m < n {
                        assert(rest[m] == ls[m]);
                    }
                }
                assert(opened_at(ls, section, j));
            }
        }
        if exists|j: int| #[trigger] opened_at(ls, section, j) {
            let j = choose|j: int| #[trigger] opened_at(ls, section, j);
            if j < n {
                assert(!ini::is_header(ls[n]));
                assert forall|m: int| j < m < rest.len() implies !ini::is_header(
                    #[trigger] rest[m],
                ) by {
                    assert(rest[m] == ls[m]);
                }
                assert(rest[j] == ls[j]);
                assert(opened_at(rest, section, j));
            }
        }
    }
}

/// The line `j` opens the section, and no header follows.
pub open spec fn opened_at(ls: Seq<Seq<char>>, section: Seq<char>, j: int) -> bool {
    &&& 0 <= j < ls.len()
    &&& ini::opens(ls[j], section)
    &&& forall|m: int| j < m < ls.len() ==> !ini::is_header(#[trigger] ls[m])
}

/// A line sets a key where it holds an equals sign and is neither a header nor a comment; the key is
/// what stands before the first one, white space at its ends aside.
pub proof fn law_sets_key(left: Seq<char>, right: Seq<char>)
    requires
        !left.contains('='),
    ensures
        ({
            let line = left + seq!['='] + right;
            let t = text::trim(line);
            &&& ini::sets_key(line) <==> !ini::is_header(line) && t.len() > 0 && t[0] != '#' && t[0]
                != ';'
            &&& ini::key_of(line) == text::trim(left)
            &&& !ini::sets_key(left)
        }),
{
    let line = left + seq!['='] + right;
    assert(line =~= left.push('=') + right);
    assert(line[left.len() as int] == '=');
    text_laws::law_split_once(left, '=', right);
}

/// What stands for an update is the first match.
proof fn lemma_hit(
    before: Seq<Seq<char>>,
    line: Seq<char>,
    section: Seq<char>,
    updates: Seq<(Seq<char>, Seq<char>)>,
    k: int,
)
    ensures
        (ini::hit(before, line, section, updates) == Some(k)) == sets_update(
            before,
            line,
            section,
            updates,
            k,
        ),
{
    ini::lemma_update_for(updates, ini::key_of(line));
}

/// What was seen is what is set.
proof fn lemma_seen(
    ls: Seq<Seq<char>>,
    section: Seq<char>,
    updates: Seq<(Seq<char>, Seq<char>)>,
    k: int,
)
    ensures
        ini::seen(ls, section, updates, k) == is_set(ls, section, updates, k),
{
    if ini::seen(ls, section, updates, k) {
        let j = choose|j: int|
            0 <= j < ls.len() && #[trigger] ini::hit(ls.take(j), ls[j], section, updates) == Some(
                k,
            );
        lemma_hit(ls.take(j), ls[j], section, updates, k);
    }
    if is_set(ls, section, updates, k) {
        let j = choose|j: int|
            0 <= j < ls.len() && #[trigger] sets_update(ls.take(j), ls[j], section, updates, k);
        lemma_hit(ls.take(j), ls[j], section, updates, k);
    }
}

/// What is missing are the unset lines.
proof fn lemma_missing(
    ls: Seq<Seq<char>>,
    section: Seq<char>,
    updates: Seq<(Seq<char>, Seq<char>)>,
    n: int,
)
    requires
        0 <= n <= updates.len(),
    ensures
        ini::missing(ls, section, updates, n) == Seq::new(n as nat, |k: int| k).filter(
            |k: int| !is_set(ls, section, updates, k),
        ).map_values(|k: int| updates[k].0 + seq!['='] + updates[k].1),
    decreases n,
{
    reveal(Seq::filter);
    let pred = |k: int| !is_set(ls, section, updates, k);
    let text_of = |k: int| updates[k].0 + seq!['='] + updates[k].1;
    let all = Seq::new(n as nat, |k: int| k);
    if n > 0 {
        lemma_missing(ls, section, updates, n - 1);
        lemma_seen(ls, section, updates, n - 1);
        let rest = Seq::new((n - 1) as nat, |k: int| k);
        assert(all.drop_last() =~= rest);
        assert(all.last() == n - 1);
        assert(ini::update_line(updates[n - 1]) =~= text_of(n - 1));
        assert(all.filter(pred).map_values(text_of) =~= if pred(n - 1) {
            rest.filter(pred).map_values(text_of).push(text_of(n - 1))
        } else {
            rest.filter(pred).map_values(text_of)
        });
    } else {
        assert(all.filter(pred).map_values(text_of) =~= Seq::<Seq<char>>::empty());
    }
}

/// A file is updated line by line from the first on. A line that sets the key of an update, within the
/// section, keeps its indent and its key and gets the value; any other line stays as it is. Before a
/// header that ends the section stand lines for the updates that no line so far has set.
pub proof fn law_next_line(
    ls: Seq<Seq<char>>,
    line: Seq<char>,
    section: Seq<char>,
    updates: Seq<(Seq<char>, Seq<char>)>,
    k: int,
)
    ensures
        ini::body(Seq::<Seq<char>>::empty(), section, updates) == Seq::<Seq<char>>::empty(),
        ({
            let added = if ini::is_header(line) && ini::in_section(ls, section) {
                unset_lines(ls, section, updates)
            } else {
                Seq::empty()
            };
            let r = ini::body(ls.push(line), section, updates);
            let before = ini::body(ls, section, updates) + added;
            &&& r.len() == before.len() + 1
            &&& r.take(before.len() as int) == before
            &&& sets_update(ls, line, section, updates, k) ==> r.last() == text::indent(line)
                + ini::key_of(line) + seq!['='] + updates[k].1
            &&& (forall|m: int| !#[trigger] sets_update(ls, line, section, updates, m)) ==> r.last()
                == line
        }),
{
    let all = ls.push(line);
    assert(all.drop_last() =~= ls);
    lemma_missing(ls, section, updates, updates.len() as int);
    lemma_hit(ls, line, section, updates, k);
    let added = if ini::is_header(line) && ini::in_section(ls, section) {
        unset_lines(ls, section, updates)
    } else {
        Seq::empty()
    };
    let before = ini::body(ls, section, updates) + added;
    let new_line = ini::updated_line(ls, line, section, updates);
    assert(ini::body(all, section, updates) =~= before.push(new_line));
    assert(before.push(new_line).take(before.len() as int) =~= before);
    if sets_update(ls, line, section, updates, k) {
        assert(new_line =~= text::indent(line) + ini::key_of(line) + seq!['='] + updates[k].1);
    }
    if forall|m: int| !#[trigger] sets_update(ls, line, section, updates, m) {
        if let Some(m) = ini::hit(ls, line, section, updates) {
            lemma_hit(ls, line, section, updates, m);
        }
    }
}

/// How an updated file ends: where it ends in the section, with lines for the updates that no line has
/// set; where it has no such section, with the section, after an empty line unless the file was empty,
/// and all updates in it.
pub proof fn law_end(
    content: Seq<char>,
    section: Seq<char>,
    updates: Seq<(Seq<char>, Seq<char>)>,
)
    ensures
        ({
            let ls = text::lines(content);
            let all = Seq::new(
                updates.len(),
                |k: int| updates[k].0 + seq!['='] + updates[k].1,
            );
            let header = seq!['['] + section + seq![']'];
            ini::updated_file(content, section, updates) == text::file_text(
                ini::body(ls, section, updates) + (if ini::in_section(ls, section) {
                    unset_lines(ls, section, updates)
                } else if ini::has_section(ls, section) {
                    Seq::empty()
                } else if ls.len() > 0 {
                    seq![Seq::<char>::empty(), header] + all
                } else {
                    seq![header] + all
                }),
            )
        }),
{
    let ls = text::lines(content);
    let all = Seq::new(updates.len(), |k: int| updates[k].0 + seq!['='] + updates[k].1);
    let header = seq!['['] + section + seq![']'];
    lemma_missing(ls, section, updates, updates.len() as int);
    assert(ini::header_line(section) =~= header);
    assert forall|k: int| 0 <= k < updates.len() implies ini::update_line(#[trigger] updates[k])
        == all[k] by {
        assert(ini::update_line(updates[k]) =~= all[k]);
    }
    assert(updates.map_values(|u: (Seq<char>, Seq<char>)| ini::update_line(u)) =~= all);
}

} // verus!
