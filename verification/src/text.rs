//! Text as sequences of characters: lines, white space, searching and joining.

use vstd::prelude::*;
use vstd::slice::slice_subrange;

verus! {

/// The characters with the Unicode property `White_Space`.
pub open spec fn is_white_space(c: char) -> bool {
    let n = c as u32;
    ||| 0x09 <= n <= 0x0d
    ||| n == 0x20
    ||| n == 0x85
    ||| n == 0xa0
    ||| n == 0x1680
    ||| 0x2000 <= n <= 0x200a
    ||| n == 0x2028
    ||| n == 0x2029
    ||| n == 0x202f
    ||| n == 0x205f
    ||| n == 0x3000
}

/// `char::is_whitespace` answers whether a character has the property `White_Space`, which the
/// Unicode Character Database gives to exactly the code points of `is_white_space`.
pub assume_specification[ char::is_whitespace ](c: char) -> (r: bool)
    ensures
        r == is_white_space(c),
;

/// `String::push` appends the given character to the end of the string.
pub assume_specification[ String::push ](s: &mut String, c: char)
    ensures
        final(s)@ == old(s)@.push(c),
;

/// How many white-space characters a text starts with.
pub open spec fn white_prefix(s: Seq<char>) -> nat
    decreases s.len(),
{
    if s.len() > 0 && is_white_space(s[0]) {
        1 + white_prefix(s.drop_first())
    } else {
        0
    }
}

/// The white space that a text starts with.
pub open spec fn indent(s: Seq<char>) -> Seq<char> {
    s.take(white_prefix(s) as int)
}

/// The text without the white space that it starts with.
pub open spec fn trim_start(s: Seq<char>) -> Seq<char> {
    s.skip(white_prefix(s) as int)
}

/// The text without the white space that it ends with.
pub open spec fn trim_end(s: Seq<char>) -> Seq<char>
    decreases s.len(),
{
    if s.len() > 0 && is_white_space(s.last()) {
        trim_end(s.drop_last())
    } else {
        s
    }
}

/// The text without the white space at its two ends.
pub open spec fn trim(s: Seq<char>) -> Seq<char> {
    trim_end(trim_start(s))
}

/// `c` stands at `i` and nowhere before.
pub open spec fn first_at(s: Seq<char>, c: char, i: int) -> bool {
    &&& 0 <= i < s.len()
    &&& s[i] == c
    &&& !s.take(i).contains(c)
}

/// The two parts of a text around the first occurrence of `c`.
pub open spec fn split_once(s: Seq<char>, c: char) -> Option<(Seq<char>, Seq<char>)> {
    if s.contains(c) {
        let i = choose|i: int| first_at(s, c, i);
        Some((s.take(i), s.skip(i + 1)))
    } else {
        None
    }
}

/// `split_once` cuts a text at the first place of the character.
pub proof fn lemma_split_once(s: Seq<char>, c: char)
    ensures
        match split_once(s, c) {
            Some((l, r)) => s == l.push(c) + r && !l.contains(c) && first_at(s, c, l.len() as int),
            None => !s.contains(c),
        },
{
    if s.contains(c) {
        s.index_of_first_ensures(c);
        let k = s.index_of_first(c).unwrap();
        assert(!s.take(k).contains(c));
        assert(first_at(s, c, k));
        let i = choose|i: int| first_at(s, c, i);
        assert(s == s.take(i).push(c) + s.skip(i + 1));
    }
}

/// There is only one first place of a character.
pub proof fn lemma_first_at(s: Seq<char>, c: char, i: int)
    requires
        first_at(s, c, i),
    ensures
        split_once(s, c) == Some((s.take(i), s.skip(i + 1))),
{
    lemma_split_once(s, c);
    let k = split_once(s, c).unwrap().0.len() as int;
    if k < i {
        assert(s.take(i)[k] == c);
    } else if i < k {
        assert(s.take(k)[i] == c);
    }
    assert(split_once(s, c).unwrap().0 =~= s.take(i));
    assert(split_once(s, c).unwrap().1 =~= s.skip(i + 1));
}

/// `p` stands in `s` at `i`.
pub open spec fn occurs_at(s: Seq<char>, p: Seq<char>, i: int) -> bool {
    &&& 0 <= i
    &&& i + p.len() <= s.len()
    &&& s.subrange(i, i + p.len()) == p
}

/// `p` stands in `s` at `i` and nowhere before.
pub open spec fn first_occurrence(s: Seq<char>, p: Seq<char>, i: int) -> bool {
    &&& occurs_at(s, p, i)
    &&& forall|j: int| 0 <= j < i ==> !occurs_at(s, p, j)
}

/// Where `p` first stands in `s`.
pub open spec fn find(s: Seq<char>, p: Seq<char>) -> Option<int> {
    if exists|i: int| occurs_at(s, p, i) {
        Some(choose|i: int| first_occurrence(s, p, i))
    } else {
        None
    }
}

/// There is only one first occurrence.
pub proof fn lemma_find(s: Seq<char>, p: Seq<char>, i: int)
    requires
        first_occurrence(s, p, i),
    ensures
        find(s, p) == Some(i),
{
    let k = choose|k: int| first_occurrence(s, p, k);
    assert(first_occurrence(s, p, k));
    assert(occurs_at(s, p, i));
    if k < i {
        assert(occurs_at(s, p, k));
    } else if i < k {
        assert(occurs_at(s, p, i));
    }
}

/// What occurs somewhere has a first occurrence.
pub proof fn lemma_find_some(s: Seq<char>, p: Seq<char>, i: int)
    requires
        occurs_at(s, p, i),
    ensures
        find(s, p) is Some,
        first_occurrence(s, p, find(s, p).unwrap()),
        find(s, p).unwrap() <= i,
    decreases i,
{
    if first_occurrence(s, p, i) {
        lemma_find(s, p, i);
    } else {
        let j = choose|j: int| 0 <= j < i && occurs_at(s, p, j);
        lemma_find_some(s, p, j);
    }
}

/// A line without the carriage return that may stand before its line feed.
pub open spec fn strip_cr(line: Seq<char>) -> Seq<char> {
    if line.len() > 0 && line.last() == '\r' {
        line.drop_last()
    } else {
        line
    }
}

/// The lines without the carriage returns that they may end in.
pub open spec fn stripped(ls: Seq<Seq<char>>) -> Seq<Seq<char>> {
    ls.map_values(|l: Seq<char>| strip_cr(l))
}

/// The lines of a text. A line ends in a line feed or in a carriage return and a line feed; the
/// last line need not end in either.
pub open spec fn lines(s: Seq<char>) -> Seq<Seq<char>>
    decreases s.len(),
{
    if s.len() == 0 {
        Seq::empty()
    } else {
        match split_once(s, '\n') {
            Some((line, rest)) => {
                proof {
                    lemma_split_once(s, '\n');
                }
                seq![strip_cr(line)] + lines(rest)
            },
            None => seq![s],
        }
    }
}

/// The lines with a line feed between each two of them.
pub open spec fn join(ls: Seq<Seq<char>>) -> Seq<char>
    decreases ls.len(),
{
    if ls.len() == 0 {
        Seq::empty()
    } else if ls.len() == 1 {
        ls[0]
    } else {
        join(ls.drop_last()).push('\n') + ls.last()
    }
}

/// The text of a file made of these lines.
pub open spec fn file_text(ls: Seq<Seq<char>>) -> Seq<char> {
    join(ls).push('\n')
}

/// A letter from `A` to `Z` as its small letter, any other character as it is.
pub open spec fn ascii_lower(c: char) -> char {
    if 'A' <= c <= 'Z' {
        ((c as u32 + 32) as u32) as char
    } else {
        c
    }
}

/// The texts agree but for the case of letters from `A` to `Z`.
pub open spec fn same_ignoring_case(a: Seq<char>, b: Seq<char>) -> bool {
    &&& a.len() == b.len()
    &&& forall|i: int| 0 <= i < a.len() ==> ascii_lower(#[trigger] a[i]) == ascii_lower(b[i])
}

/// The contents of a list of strings.
pub open spec fn texts(v: Seq<String>) -> Seq<Seq<char>> {
    v.map_values(|s: String| s@)
}

/// The contents of a list of keys and values.
pub open spec fn pairs(v: Seq<(&str, String)>) -> Seq<(Seq<char>, Seq<char>)> {
    v.map_values(|p: (&str, String)| (p.0@, p.1@))
}

/// The contents of an optional string slice.
pub open spec fn opt_str(s: Option<&str>) -> Option<Seq<char>> {
    match s {
        Some(t) => Some(t@),
        None => None,
    }
}

/// The characters of a string.
pub fn to_chars(s: &str) -> (r: Vec<char>)
    ensures
        r@ == s@,
{
    let mut r: Vec<char> = Vec::new();
    for c in it: s.chars()
        invariant
            it.seq() == s@,
            r@ == it.seq().take(it.index()),
    {
        r.push(c);
    }
    r
}

/// Appends characters to a string.
pub fn push_chars(out: &mut String, cs: &[char])
    ensures
        final(out)@ == old(out)@ + cs@,
{
    let mut i: usize = 0;
    while i < cs.len()
        invariant
            i <= cs.len(),
            out@ == old(out)@ + cs@.take(i as int),
        decreases cs.len() - i,
    {
        out.push(cs[i]);
        i += 1;
        assert(cs@.take(i as int) == cs@.take(i - 1).push(cs@[i - 1]));
    }
    assert(cs@.take(i as int) == cs@);
}

/// The string made of these characters.
pub fn from_chars(cs: &[char]) -> (r: String)
    ensures
        r@ == cs@,
{
    let mut r = String::new();
    push_chars(&mut r, cs);
    assert(r@ == cs@);
    r
}

/// Whether two lists of characters are equal.
pub fn same_chars(a: &[char], b: &[char]) -> (r: bool)
    ensures
        r == (a@ == b@),
{
    if a.len() != b.len() {
        return false;
    }
    let mut i: usize = 0;
    while i < a.len()
        invariant
            i <= a.len(),
            a.len() == b.len(),
            a@.take(i as int) == b@.take(i as int),
        decreases a.len() - i,
    {
        if a[i] != b[i] {
            return false;
        }
        i += 1;
        assert(a@.take(i as int) == a@.take(i - 1).push(a@[i - 1]));
        assert(b@.take(i as int) == b@.take(i - 1).push(b@[i - 1]));
    }
    assert(a@.take(i as int) == a@);
    assert(b@.take(i as int) == b@);
    true
}

/// Whether two strings are equal.
pub fn same_text(a: &str, b: &str) -> (r: bool)
    ensures
        r == (a@ == b@),
{
    let x = to_chars(a);
    let y = to_chars(b);
    same_chars(x.as_slice(), y.as_slice())
}

/// The number of white-space characters at the start.
pub fn count_white(cs: &[char]) -> (n: usize)
    ensures
        n == white_prefix(cs@),
        n <= cs.len(),
{
    let mut n: usize = 0;
    assert(cs@.skip(0) == cs@);
    while n < cs.len() && cs[n].is_whitespace()
        invariant
            n <= cs.len(),
            white_prefix(cs@) == n + white_prefix(cs@.skip(n as int)),
        decreases cs.len() - n,
    {
        assert(cs@.skip(n as int).drop_first() == cs@.skip(n + 1));
        n += 1;
    }
    n
}

/// Cuts the white space off the start.
pub fn trimmed_start(cs: &[char]) -> (r: &[char])
    ensures
        r@ == trim_start(cs@),
{
    let n: usize = count_white(cs);
    slice_subrange(cs, n, cs.len())
}

/// The white space at the start.
pub fn leading_white(cs: &[char]) -> (r: &[char])
    ensures
        r@ == indent(cs@),
{
    let n: usize = count_white(cs);
    slice_subrange(cs, 0, n)
}

/// Cuts the white space off the end.
pub fn trimmed_end(cs: &[char]) -> (r: &[char])
    ensures
        r@ == trim_end(cs@),
{
    let mut n: usize = cs.len();
    assert(cs@.take(n as int) == cs@);
    while n > 0 && cs[n - 1].is_whitespace()
        invariant
            n <= cs.len(),
            trim_end(cs@) == trim_end(cs@.take(n as int)),
        decreases n,
    {
        assert(cs@.take(n as int).drop_last() == cs@.take(n - 1));
        n -= 1;
    }
    slice_subrange(cs, 0, n)
}

/// Cuts the white space off both ends.
pub fn trimmed(cs: &[char]) -> (r: &[char])
    ensures
        r@ == trim(cs@),
{
    trimmed_end(trimmed_start(cs))
}

/// Whether the text starts with `p`.
pub fn starts_with(cs: &[char], p: &str) -> (r: bool)
    ensures
        r == p@.is_prefix_of(cs@),
{
    let q = to_chars(p);
    q.len() <= cs.len() && same_chars(slice_subrange(cs, 0, q.len()), q.as_slice())
}

/// Splits the text at the first `c`.
pub fn split_at_first(cs: &[char], c: char) -> (r: Option<(&[char], &[char])>)
    ensures
        match r {
            Some((a, b)) => split_once(cs@, c) == Some((a@, b@)),
            None => split_once(cs@, c) is None,
        },
{
    let mut i: usize = 0;
    while i < cs.len()
        invariant
            i <= cs.len(),
            !cs@.take(i as int).contains(c),
        decreases cs.len() - i,
    {
        if cs[i] == c {
            proof {
                lemma_first_at(cs@, c, i as int);
            }
            return Some((slice_subrange(cs, 0, i), slice_subrange(cs, i + 1, cs.len())));
        }
        i += 1;
        assert(cs@.take(i as int) == cs@.take(i - 1).push(cs@[i - 1]));
    }
    assert(cs@.take(i as int) == cs@);
    None
}

/// Looks for the first occurrence of `p`.
pub fn find_chars(cs: &[char], p: &[char]) -> (r: Option<usize>)
    ensures
        match r {
            Some(i) => find(cs@, p@) == Some(i as int) && i + p.len() <= cs.len(),
            None => find(cs@, p@) is None,
        },
{
    if p.len() > cs.len() {
        return None;
    }
    let last: usize = cs.len() - p.len();
    let mut i: usize = 0;
    loop
        invariant
            i <= last,
            last == cs.len() - p.len(),
            forall|j: int| 0 <= j < i ==> !occurs_at(cs@, p@, j),
        decreases last - i,
    {
        if same_chars(slice_subrange(cs, i, i + p.len()), p) {
            proof {
                lemma_find(cs@, p@, i as int);
            }
            return Some(i);
        }
        if i == last {
            return None;
        }
        i += 1;
    }
}

/// A letter from `A` to `Z` as its small letter.
pub fn lower(c: char) -> (r: char)
    ensures
        r == ascii_lower(c),
{
    if 'A' <= c && c <= 'Z' {
        (c as u8 + 32) as char
    } else {
        c
    }
}

/// Compares without regard to the case of letters from `A` to `Z`.
pub fn same_chars_ignoring_case(a: &[char], b: &[char]) -> (r: bool)
    ensures
        r == same_ignoring_case(a@, b@),
{
    if a.len() != b.len() {
        return false;
    }
    let mut i: usize = 0;
    while i < a.len()
        invariant
            i <= a.len(),
            a.len() == b.len(),
            forall|j: int| 0 <= j < i ==> ascii_lower(#[trigger] a@[j]) == ascii_lower(b@[j]),
        decreases a.len() - i,
    {
        if lower(a[i]) != lower(b[i]) {
            return false;
        }
        i += 1;
    }
    true
}

/// The lines of a string.
pub fn split_lines(s: &str) -> (r: Vec<String>)
    ensures
        texts(r@) == lines(s@),
{
    let all = to_chars(s);
    let mut rest: &[char] = all.as_slice();
    let mut r: Vec<String> = Vec::new();
    while rest.len() > 0
        invariant
            texts(r@) + lines(rest@) == lines(s@),
        decreases rest.len(),
    {
        proof {
            lemma_split_once(rest@, '\n');
        }
        let ghost before = r@;
        match split_at_first(rest, '\n') {
            Some((line, tail)) => {
                let n: usize = line.len();
                let body = if n > 0 && line[n - 1] == '\r' {
                    slice_subrange(line, 0, n - 1)
                } else {
                    line
                };
                assert(body@ == strip_cr(line@));
                r.push(from_chars(body));
                assert(texts(r@) == texts(before).push(strip_cr(line@)));
                rest = tail;
            },
            None => {
                r.push(from_chars(rest));
                assert(texts(r@) == texts(before).push(rest@));
                rest = slice_subrange(rest, 0, 0);
            },
        }
    }
    r
}

/// The text of a file made of these lines.
pub fn lines_to_file(ls: &Vec<String>) -> (r: String)
    ensures
        r@ == file_text(texts(ls@)),
{
    let mut r = String::new();
    let mut i: usize = 0;
    while i < ls.len()
        invariant
            i <= ls.len(),
            r@ == join(texts(ls@).take(i as int)),
        decreases ls.len() - i,
    {
        if i > 0 {
            r.push('\n');
        }
        r.append(ls[i].as_str());
        i += 1;
        assert(texts(ls@).take(i as int).drop_last() == texts(ls@).take(i - 1));
    }
    assert(texts(ls@).take(i as int) == texts(ls@));
    r.push('\n');
    r
}

} // verus!
