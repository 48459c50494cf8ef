//! What the update of `rc.xml` is for, line by line: which lines belong to a font or to the theme,
//! what they become, and which theme is found.

use crate::decimal;
use crate::openbox;
use crate::openbox_laws;
use crate::text;
use vstd::prelude::*;

verus! {

/// The line starts with a word, white space aside.
pub open spec fn starts(line: Seq<char>, word: Seq<char>) -> bool {
    let t = text::trim(line);
    word.len() <= t.len() && t.take(word.len() as int) == word
}

/// The line `i` stands in an element that opens with one word and closes with another.
pub open spec fn within(
    ls: Seq<Seq<char>>,
    i: int,
    open: Seq<char>,
    close: Seq<char>,
) -> bool {
    exists|j: int| #[trigger] opened_at(ls, i, j, open, close)
}

/// The line `j` opens an element that is still open at the line `i`.
pub open spec fn opened_at(
    ls: Seq<Seq<char>>,
    i: int,
    j: int,
    open: Seq<char>,
    close: Seq<char>,
) -> bool {
    &&& 0 <= j < i <= ls.len()
    &&& starts(ls[j], open)
    &&& forall|m: int| j < m < i ==> !starts(#[trigger] ls[m], close)
}

/// The line opens or closes an element.
pub open spec fn is_tag(line: Seq<char>) -> bool {
    ||| starts(line, "<theme>"@)
    ||| starts(line, "</theme>"@)
    ||| starts(line, "<font"@)
    ||| starts(line, "</font>"@)
}

/// The line `j` opens the font that the line `i` belongs to.
pub open spec fn font_line(ls: Seq<Seq<char>>, i: int, j: int) -> bool {
    &&& opened_at(ls, i, j, "<font"@, "</font>"@)
    &&& forall|m: int| j < m < i ==> !starts(#[trigger] ls[m], "<font"@)
}

/// `p` stands first in `s` at `i`.
pub open spec fn stands_first(s: Seq<char>, p: Seq<char>, i: int) -> bool {
    &&& 0 <= i <= s.len() - p.len()
    &&& s.subrange(i, i + p.len()) == p
    &&& forall|j: int| 0 <= j < i ==> #[trigger] s.subrange(j, j + p.len()) != p
}

/// `p` stands nowhere in `s`.
pub open spec fn stands_nowhere(s: Seq<char>, p: Seq<char>) -> bool {
    forall|j: int| 0 <= j <= s.len() - p.len() ==> #[trigger] s.subrange(j, j + p.len()) != p
}

/// Where a word stands first is where it is found.
proof fn lemma_found(s: Seq<char>, p: Seq<char>, i: int)
    requires
        stands_first(s, p, i),
    ensures
        text::find(s, p) == Some(i),
{
    assert forall|j: int| 0 <= j < i implies !text::occurs_at(s, p, j) by {
        assert(s.subrange(j, j + p.len()) != p);
    }
    text::lemma_find(s, p, i);
}

/// A word that stands nowhere is not found.
proof fn lemma_not_found(s: Seq<char>, p: Seq<char>)
    requires
        stands_nowhere(s, p),
    ensures
        text::find(s, p) is None,
{
    if exists|i: int| text::occurs_at(s, p, i) {
        let i = choose|i: int| text::occurs_at(s, p, i);
        assert(s.subrange(i, i + p.len()) == p);
    }
}

/// The value of an attribute is what stands between the first `name="` and the next quote; without
/// either there is none.
pub proof fn law_attr_value(line: Seq<char>, attr: Seq<char>, i: int, value: Seq<char>, rest: Seq<char>)
    ensures
        ({
            let word = attr + seq!['=', '"'];
            let behind = line.skip(i + word.len());
            &&& stands_nowhere(line, word) ==> openbox::attr_value(line, attr) is None
            &&& stands_first(line, word, i) && behind == value + seq!['"'] + rest
                && !value.contains('"') ==> openbox::attr_value(line, attr) == Some(value)
            &&& stands_first(line, word, i) && !behind.contains('"') ==> openbox::attr_value(
                line,
                attr,
            ) is None
        }),
{
    let word = attr + seq!['=', '"'];
    assert(openbox::attr_start(attr) =~= word);
    let behind = line.skip(i + word.len());
    if stands_nowhere(line, word) {
        lemma_not_found(line, word);
    }
    if stands_first(line, word, i) {
        lemma_found(line, word, i);
        text::lemma_split_once(behind, '"');
        if behind == value + seq!['"'] + rest && !value.contains('"') {
            let n = value.len() as int;
            assert(behind[n] == '"');
            assert(behind.take(n) =~= value);
            text::lemma_first_at(behind, '"', n);
        }
    }
}

/// The value of an element is what stands between its first opening and its first closing tag, white
/// space at the ends aside; where one of them is missing, or the closing tag comes too early, there is
/// none.
pub proof fn law_tag_value(line: Seq<char>, tag: Seq<char>, i: int, end: int)
    ensures
        ({
            let open = seq!['<'] + tag + seq!['>'];
            let close = seq!['<', '/'] + tag + seq!['>'];
            &&& stands_nowhere(line, open) ==> openbox::tag_value(line, tag) is None
            &&& stands_nowhere(line, close) ==> openbox::tag_value(line, tag) is None
            &&& stands_first(line, open, i) && stands_first(line, close, end)
                ==> openbox::tag_value(line, tag) == (if end < i + open.len() {
                None
            } else {
                Some(text::trim(line.subrange(i + open.len(), end)))
            })
        }),
{
    let open = seq!['<'] + tag + seq!['>'];
    let close = seq!['<', '/'] + tag + seq!['>'];
    assert(openbox::open_tag(tag) =~= open);
    assert(openbox::close_tag(tag) =~= close);
    if stands_nowhere(line, open) {
        lemma_not_found(line, open);
    }
    if stands_nowhere(line, close) {
        lemma_not_found(line, close);
    }
    if stands_first(line, open, i) && stands_first(line, close, end) {
        lemma_found(line, open, i);
        lemma_found(line, close, end);
    }
}

/// A line starts with a word where its text does.
proof fn lemma_starts(line: Seq<char>, word: Seq<char>)
    ensures
        starts(line, word) == word.is_prefix_of(text::trim(line)),
{
    let t = text::trim(line);
    if word.len() <= t.len() {
        assert(t.take(word.len() as int) =~= t.subrange(0, word.len() as int));
    }
}

/// The four words that elements open and close with exclude each other.
proof fn lemma_tags(line: Seq<char>)
    ensures
        starts(line, "<theme>"@) == "<theme>"@.is_prefix_of(text::trim(line)),
        starts(line, "</theme>"@) == "</theme>"@.is_prefix_of(text::trim(line)),
        starts(line, "<font"@) == "<font"@.is_prefix_of(text::trim(line)),
        starts(line, "</font>"@) == "</font>"@.is_prefix_of(text::trim(line)),
        starts(line, "<theme>"@) ==> !starts(line, "</theme>"@) && !starts(line, "<font"@)
            && !starts(line, "</font>"@),
        starts(line, "</theme>"@) ==> !starts(line, "<font"@) && !starts(line, "</font>"@),
        starts(line, "<font"@) ==> !starts(line, "</font>"@),
{
    lemma_starts(line, "<theme>"@);
    lemma_starts(line, "</theme>"@);
    lemma_starts(line, "<font"@);
    lemma_starts(line, "</font>"@);
    reveal_strlit("<theme>");
    reveal_strlit("</theme>");
    reveal_strlit("<font");
    reveal_strlit("</font>");
    let t = text::trim(line);
    if starts(line, "<theme>"@) {
        assert(t.take(7)[1] == 't');
        assert(t[1] == 't');
    }
    if starts(line, "</theme>"@) {
        assert(t.take(8)[1] == '/');
        assert(t.take(8)[2] == 't');
        assert(t[1] == '/' && t[2] == 't');
    }
    if starts(line, "<font"@) {
        assert(t.take(5)[1] == 'f');
        assert(t[1] == 'f');
    }
    if starts(line, "</font>"@) {
        assert(t.take(7)[1] == '/');
        assert(t.take(7)[2] == 'f');
        assert(t[1] == '/' && t[2] == 'f');
    }
}

/// Whether one more line stands in an element.
proof fn lemma_within_step(
    ls: Seq<Seq<char>>,
    i: int,
    open: Seq<char>,
    close: Seq<char>,
)
    requires
        0 < i <= ls.len(),
        !(starts(ls[i - 1], open) && starts(ls[i - 1], close)),
    ensures
        within(ls, i, open, close) == (if starts(ls[i - 1], open) {
            true
        } else if starts(ls[i - 1], close) {
            false
        } else {
            within(ls, i - 1, open, close)
        }),
{
    let line = ls[i - 1];
    if starts(line, open) {
        assert(opened_at(ls, i, i - 1, open, close));
    } else if starts(line, close) {
        if within(ls, i, open, close) {
            let j = choose|j: int| #[trigger] opened_at(ls, i, j, open, close);
            if j < i - 1 {
                assert(!starts(ls[i - 1], close));
            }
        }
    } else {
        if within(ls, i, open, close) {
            let j = choose|j: int| #[trigger] opened_at(ls, i, j, open, close);
            assert(opened_at(ls, i - 1, j, open, close));
        }
        if within(ls, i - 1, open, close) {
            let j = choose|j: int| #[trigger] opened_at(ls, i - 1, j, open, close);
            assert(opened_at(ls, i, j, open, close));
        }
    }
}

/// Nothing stands before the first line.
proof fn lemma_within_start(ls: Seq<Seq<char>>, open: Seq<char>, close: Seq<char>)
    ensures
        !within(ls, 0, open, close),
{
}

/// The state before a line tells what the line stands in.
proof fn lemma_state(ls: Seq<Seq<char>>, i: int)
    requires
        0 <= i <= ls.len(),
    ensures
        openbox::rc_state(ls.take(i)).in_font == within(ls, i, "<font"@, "</font>"@),
        openbox::rc_state(ls.take(i)).in_theme == within(ls, i, "<theme>"@, "</theme>"@),
    decreases i,
{
    if i > 0 {
        lemma_state(ls, i - 1);
        assert(ls.take(i).drop_last() =~= ls.take(i - 1));
        assert(ls.take(i).last() == ls[i - 1]);
        lemma_tags(ls[i - 1]);
        lemma_within_step(ls, i, "<font"@, "</font>"@);
        lemma_within_step(ls, i, "<theme>"@, "</theme>"@);
    } else {
        lemma_within_start(ls, "<font"@, "</font>"@);
        lemma_within_start(ls, "<theme>"@, "</theme>"@);
    }
}

/// The state before a line tells the place of its font.
proof fn lemma_place(ls: Seq<Seq<char>>, i: int, j: int)
    requires
        0 <= i <= ls.len(),
        font_line(ls, i, j),
    ensures
        openbox::rc_state(ls.take(i)).in_font,
        openbox::rc_state(ls.take(i)).font_place == openbox::attr_value(
            text::trim(ls[j]),
            "place"@,
        ),
    decreases i,
{
    assert(ls.take(i).drop_last() =~= ls.take(i - 1));
    assert(ls.take(i).last() == ls[i - 1]);
    lemma_tags(ls[i - 1]);
    if j < i - 1 {
        assert(font_line(ls, i - 1, j));
        lemma_place(ls, i - 1, j);
        assert(!starts(ls[i - 1], "<font"@));
        assert(!starts(ls[i - 1], "</font>"@));
    }
}

/// An updated file has a line for each old one.
pub proof fn law_rc_lines(content: Seq<char>, scale: int, font_name: Seq<char>)
    ensures
        openbox::rc_file(content, scale, font_name) == text::file_text(
            openbox::rc_lines(text::lines(content), scale, font_name),
        ),
        openbox::rc_lines(text::lines(content), scale, font_name).len() == text::lines(
            content,
        ).len(),
{
}

/// A line that names a font becomes, with the same indent, the line that gives it the new name.
pub proof fn law_font_name(
    ls: Seq<Seq<char>>,
    scale: int,
    font_name: Seq<char>,
    i: int,
)
    requires
        0 <= i < ls.len(),
        within(ls, i, "<font"@, "</font>"@),
        !is_tag(ls[i]),
        openbox::tag_value(text::trim(ls[i]), "name"@) is Some,
    ensures
        openbox::rc_lines(ls, scale, font_name)[i] == text::indent(ls[i]) + "<name>"@ + font_name
            + "</name>"@,
{
    lemma_state(ls, i);
    lemma_tags(ls[i]);
    reveal_strlit("name");
    reveal_strlit("<name>");
    reveal_strlit("</name>");
    assert(openbox::open_tag("name"@) =~= "<name>"@);
    assert(openbox::close_tag("name"@) =~= "</name>"@);
}

/// A line that gives a font its size becomes, with the same indent, the line that gives it the scaled
/// size: 10 for each unit of the scale where the font stands in the title of a window, and 11 for each
/// unit anywhere else.
pub proof fn law_font_size(
    ls: Seq<Seq<char>>,
    scale: int,
    font_name: Seq<char>,
    i: int,
    j: int,
)
    requires
        0 <= i < ls.len(),
        font_line(ls, i, j),
        !is_tag(ls[i]),
        openbox::tag_value(text::trim(ls[i]), "name"@) is None,
        openbox::tag_value(text::trim(ls[i]), "size"@) is Some,
    ensures
        ({
            let place = openbox::attr_value(text::trim(ls[j]), "place"@);
            let size = if place == Some("ActiveWindow"@) || place == Some("InactiveWindow"@) {
                10 * scale
            } else {
                11 * scale
            };
            openbox::rc_lines(ls, scale, font_name)[i] == text::indent(ls[i]) + "<size>"@
                + decimal::decimal(size) + "</size>"@
        }),
{
    lemma_place(ls, i, j);
    lemma_tags(ls[i]);
    reveal_strlit("size");
    reveal_strlit("<size>");
    reveal_strlit("</size>");
    assert(openbox::open_tag("size"@) =~= "<size>"@);
    assert(openbox::close_tag("size"@) =~= "</size>"@);
}

/// In the file that is read back, the size of a font is 10 for each unit of the scale where the font
/// stands in the title of a window, and 11 for each unit anywhere else.
pub proof fn law_font_size_read_back(
    content: Seq<char>,
    scale: int,
    font_name: Seq<char>,
    i: int,
    j: int,
)
    requires
        !font_name.contains('\n'),
        0 <= i < text::lines(content).len(),
        font_line(text::lines(content), i, j),
        !is_tag(text::lines(content)[i]),
        openbox::tag_value(text::trim(text::lines(content)[i]), "name"@) is None,
        openbox::tag_value(text::trim(text::lines(content)[i]), "size"@) is Some,
    ensures
        ({
            let place = openbox::attr_value(text::trim(text::lines(content)[j]), "place"@);
            let r = text::lines(openbox::rc_file(content, scale, font_name));
            &&& r.len() == text::lines(content).len()
            &&& openbox::tag_value(text::trim(r[i]), "size"@) == Some(
                if place == Some("ActiveWindow"@) || place == Some("InactiveWindow"@) {
                    decimal::decimal(10 * scale)
                } else {
                    decimal::decimal(11 * scale)
                },
            )
        }),
{
    let ls = text::lines(content);
    lemma_place(ls, i, j);
    lemma_tags(ls[i]);
    openbox_laws::law_rc_read_back(content, scale, font_name, i);
}

/// Every other line stays as it is: one that belongs to no font, one that opens or closes an element,
/// and one that gives neither a name nor a size.
pub proof fn law_other_lines(
    ls: Seq<Seq<char>>,
    scale: int,
    font_name: Seq<char>,
    i: int,
)
    requires
        0 <= i < ls.len(),
        !within(ls, i, "<font"@, "</font>"@) || is_tag(ls[i]) || (openbox::tag_value(
            text::trim(ls[i]),
            "name"@,
        ) is None && openbox::tag_value(text::trim(ls[i]), "size"@) is None),
    ensures
        openbox::rc_lines(ls, scale, font_name)[i] == ls[i],
{
    lemma_state(ls, i);
    lemma_tags(ls[i]);
}

/// Every line that belongs to a font has a line that opens it last.
pub proof fn law_font_line(ls: Seq<Seq<char>>, i: int) -> (j: int)
    requires
        0 <= i <= ls.len(),
        within(ls, i, "<font"@, "</font>"@),
    ensures
        font_line(ls, i, j),
    decreases i,
{
    let k = choose|k: int| #[trigger] opened_at(ls, i, k, "<font"@, "</font>"@);
    if starts(ls[i - 1], "<font"@) {
        assert(font_line(ls, i, i - 1));
        i - 1
    } else {
        assert(k < i - 1);
        assert(opened_at(ls, i - 1, k, "<font"@, "</font>"@));
        let j = law_font_line(ls, i - 1);
        assert(!starts(ls[i - 1], "</font>"@));
        assert(font_line(ls, i, j));
        j
    }
}

/// The line can give the name of the theme: it stands in the theme but in no font.
pub open spec fn may_name_theme(ls: Seq<Seq<char>>, i: int) -> bool {
    &&& within(ls, i, "<theme>"@, "</theme>"@)
    &&& !within(ls, i, "<font"@, "</font>"@)
    &&& !is_tag(ls[i])
}

/// The theme before a line.
proof fn lemma_theme(ls: Seq<Seq<char>>, i: int)
    requires
        0 <= i <= ls.len(),
    ensures
        match openbox::rc_state(ls.take(i)).theme_name {
            Some(name) => exists|j: int| #[trigger] names_theme(ls, j, name) && j < i,
            None => forall|j: int|
                0 <= j < i && #[trigger] may_name_theme(ls, j) ==> openbox::tag_value(
                    text::trim(ls[j]),
                    "name"@,
                ) is None,
        },
    decreases i,
{
    if i > 0 {
        let line = ls[i - 1];
        lemma_theme(ls, i - 1);
        lemma_state(ls, i - 1);
        lemma_tags(line);
        assert(ls.take(i).drop_last() =~= ls.take(i - 1));
        assert(ls.take(i).last() == line);
        let st = openbox::rc_state(ls.take(i - 1));
        if st.theme_name is None {
            if let Some(name) = openbox::rc_state(ls.take(i)).theme_name {
                assert(names_theme(ls, i - 1, name));
            } else {
                assert forall|j: int| 0 <= j < i && #[trigger] may_name_theme(
                    ls,
                    j,
                ) implies openbox::tag_value(text::trim(ls[j]), "name"@) is None by {
                }
            }
        } else {
            let name = st.theme_name.unwrap();
            let j = choose|j: int| #[trigger] names_theme(ls, j, name) && j < i - 1;
            assert(names_theme(ls, j, name) && j < i);
        }
    }
}

/// The line `j` gives the name of the theme, and no line before it does.
pub open spec fn names_theme(ls: Seq<Seq<char>>, j: int, name: Seq<char>) -> bool {
    &&& 0 <= j < ls.len()
    &&& may_name_theme(ls, j)
    &&& openbox::tag_value(text::trim(ls[j]), "name"@) == Some(name)
    &&& forall|m: int|
        0 <= m < j && #[trigger] may_name_theme(ls, m) ==> openbox::tag_value(
            text::trim(ls[m]),
            "name"@,
        ) is None
}

/// The theme is the first name that stands in the theme but in no font, and there is none where no
/// such name stands.
pub proof fn law_theme(content: Seq<char>)
    ensures
        match openbox::rc_theme(content) {
            Some(name) => exists|j: int| #[trigger] names_theme(text::lines(content), j, name),
            None => forall|j: int|
                0 <= j < text::lines(content).len() && #[trigger] may_name_theme(
                    text::lines(content),
                    j,
                ) ==> openbox::tag_value(text::trim(text::lines(content)[j]), "name"@) is None,
        },
{
    let ls = text::lines(content);
    lemma_theme(ls, ls.len() as int);
    assert(ls.take(ls.len() as int) =~= ls);
}

} // verus!
