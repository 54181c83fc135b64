//! Character sequences: the few text operations that the wire formats and
//! the rule texts need, each with its mathematical meaning.

use vstd::prelude::*;

verus! {

/// `String::push` appends one character.
pub assume_specification[ String::push ](text: &mut String, c: char)
    ensures
        final(text)@ == old(text)@.push(c),
;

/// The characters of a text, in order.
pub fn to_chars(text: &str) -> (chars: Vec<char>)
    ensures
        chars@ == text@,
{
    let mut chars: Vec<char> = Vec::new();
    for c in it: text.chars()
        invariant
            chars@ == it.seq().take(it.index()),
            it.seq() == text@,
    {
        chars.push(c);
    }
    chars
}

/// The text made of the given characters, in order.
pub fn to_text(chars: &[char]) -> (text: String)
    ensures
        text@ == chars@,
{
    let mut text = String::new();
    let mut i: usize = 0;
    while i < chars.len()
        invariant
            i <= chars@.len(),
            text@ == chars@.take(i as int),
        decreases chars@.len() - i,
    {
        text.push(chars[i]);
        i += 1;
    }
    text
}

/// Whether `needle` stands in `hay` at index `at`.
pub open spec fn occurs_at(hay: Seq<char>, needle: Seq<char>, at: int) -> bool {
    &&& 0 <= at
    &&& at + needle.len() <= hay.len()
    &&& hay.subrange(at, at + needle.len()) == needle
}

/// Whether `needle` stands somewhere in `hay`.
pub open spec fn contains(hay: Seq<char>, needle: Seq<char>) -> bool {
    exists|at: int| occurs_at(hay, needle, at)
}

/// Whether `hay` begins with `needle`.
pub open spec fn starts_with(hay: Seq<char>, needle: Seq<char>) -> bool {
    occurs_at(hay, needle, 0)
}

/// Whether `hay` ends with `needle`.
pub open spec fn ends_with(hay: Seq<char>, needle: Seq<char>) -> bool {
    occurs_at(hay, needle, hay.len() - needle.len())
}

/// Tells whether `needle` stands in `hay` at index `at`.
pub fn has_at(hay: &[char], needle: &[char], at: usize) -> (found: bool)
    ensures
        found == occurs_at(hay@, needle@, at as int),
{
    if at > hay.len() || needle.len() > hay.len() - at {
        return false;
    }
    let mut i: usize = 0;
    while i < needle.len()
        invariant
            at + needle@.len() <= hay@.len() <= usize::MAX,
            i <= needle@.len(),
            forall|j: int| 0 <= j < i ==> hay@[at + j] == needle@[j],
        decreases needle@.len() - i,
    {
        if hay[at + i] != needle[i] {
            assert(hay@.subrange(at as int, at + needle@.len())[i as int] != needle@[i as int]);
            return false;
        }
        i += 1;
    }
    assert(hay@.subrange(at as int, at + needle@.len()) =~= needle@);
    true
}

/// Tells whether two character sequences are the same.
pub fn same(a: &[char], b: &[char]) -> (equal: bool)
    ensures
        equal == (a@ == b@),
{
    if a.len() != b.len() {
        return false;
    }
    let found = has_at(a, b, 0);
    assert(a@.subrange(0, a@.len() as int) =~= a@);
    found
}

/// Tells whether `hay` begins with `needle`.
pub fn begins_with(hay: &[char], needle: &[char]) -> (found: bool)
    ensures
        found == starts_with(hay@, needle@),
{
    has_at(hay, needle, 0)
}

/// Tells whether `hay` ends with `needle`.
pub fn finishes_with(hay: &[char], needle: &[char]) -> (found: bool)
    ensures
        found == ends_with(hay@, needle@),
{
    if needle.len() > hay.len() {
        return false;
    }
    has_at(hay, needle, hay.len() - needle.len())
}

/// Tells whether `needle` stands somewhere in `hay`.
pub fn includes(hay: &[char], needle: &[char]) -> (found: bool)
    ensures
        found == contains(hay@, needle@),
{
    if needle.len() > hay.len() {
        return false;
    }
    let last: usize = hay.len() - needle.len();
    let mut at: usize = 0;
    loop
        invariant
            last == hay@.len() - needle@.len(),
            at <= last,
            forall|k: int| 0 <= k < at ==> !occurs_at(hay@, needle@, k),
        decreases last - at,
    {
        if has_at(hay, needle, at) {
            return true;
        }
        if at == last {
            return false;
        }
        at += 1;
    }
}

/// The characters of `text` from index `from` up to, not including, `to`.
pub fn copy_range(text: &[char], from: usize, to: usize) -> (piece: Vec<char>)
    requires
        from <= to <= text@.len(),
    ensures
        piece@ == text@.subrange(from as int, to as int),
{
    let mut piece: Vec<char> = Vec::new();
    let mut i: usize = from;
    while i < to
        invariant
            from <= i <= to <= text@.len(),
            piece@ == text@.subrange(from as int, i as int),
        decreases to - i,
    {
        piece.push(text[i]);
        i += 1;
    }
    piece
}

/// The character sequences held by a run of vectors.
pub open spec fn pieces_of(pieces: Seq<Vec<char>>) -> Seq<Seq<char>> {
    pieces.map_values(|piece: Vec<char>| piece@)
}

/// The pieces into which the occurrences of `mark` cut `text`. A text with
/// `n` occurrences has `n + 1` pieces, some of them perhaps empty; none
/// holds `mark`, and joined by `mark` they give `text` back.
pub open spec fn split(text: Seq<char>, mark: char) -> Seq<Seq<char>>
    decreases text.len(),
{
    if text.len() == 0 {
        seq![Seq::<char>::empty()]
    } else {
        let before = split(text.drop_last(), mark);
        if text.last() == mark {
            before.push(Seq::<char>::empty())
        } else {
            before.drop_last().push(before.last().push(text.last()))
        }
    }
}

/// The pieces put together again with `mark` between them.
pub open spec fn joined(pieces: Seq<Seq<char>>, mark: char) -> Seq<char>
    decreases pieces.len(),
{
    if pieces.len() == 0 {
        Seq::<char>::empty()
    } else if pieces.len() == 1 {
        pieces[0]
    } else {
        joined(pieces.drop_last(), mark).push(mark) + pieces.last()
    }
}

/// A split has at least one piece, no piece holds the mark, and joining the
/// pieces with the mark restores the text.
pub proof fn lemma_split(text: Seq<char>, mark: char)
    ensures
        split(text, mark).len() >= 1,
        forall|i: int, j: int|
            0 <= i < split(text, mark).len() && 0 <= j < split(text, mark)[i].len() ==> split(
                text,
                mark,
            )[i][j] != mark,
        joined(split(text, mark), mark) == text,
    decreases text.len(),
{
    if text.len() > 0 {
        let shorter = text.drop_last();
        lemma_split(shorter, mark);
        let before = split(shorter, mark);
        if text.last() == mark {
            let now = before.push(Seq::<char>::empty());
            assert(now.drop_last() =~= before);
            assert(joined(now, mark) =~= joined(before, mark).push(mark));
            assert(shorter.push(mark) =~= text);
        } else {
            let grown = before.last().push(text.last());
            let now = before.drop_last().push(grown);
            assert(now.drop_last() =~= before.drop_last());
            if before.len() == 1 {
                assert(joined(now, mark) =~= shorter.push(text.last()));
            } else {
                assert(joined(now, mark) =~= joined(before, mark).push(text.last()));
            }
            assert(shorter.push(text.last()) =~= text);
        }
    }
}

/// Cuts `text` at every occurrence of `mark`.
pub fn split_on(text: &[char], mark: char) -> (pieces: Vec<Vec<char>>)
    ensures
        pieces_of(pieces@) == split(text@, mark),
{
    let mut pieces: Vec<Vec<char>> = Vec::new();
    let mut current: Vec<char> = Vec::new();
    let mut i: usize = 0;
    while i < text.len()
        invariant
            i <= text@.len(),
            pieces_of(pieces@).push(current@) == split(text@.take(i as int), mark),
        decreases text@.len() - i,
    {
        let ghost before = split(text@.take(i as int), mark);
        let ghost done = pieces_of(pieces@);
        let ghost open = current@;
        assert(text@.take(i + 1).drop_last() =~= text@.take(i as int));
        if text[i] == mark {
            pieces.push(current);
            current = Vec::new();
            assert(pieces_of(pieces@) =~= before);
        } else {
            current.push(text[i]);
            assert(before.drop_last() =~= done);
            assert(before.last() == open);
        }
        i += 1;
    }
    assert(text@.take(text@.len() as int) =~= text@);
    let ghost done = pieces_of(pieces@);
    pieces.push(current);
    assert(pieces_of(pieces@) =~= done.push(current@));
    pieces
}

/// Whether a character is white space as Unicode defines it: one of the
/// twenty-five characters with the property White_Space.
pub open spec fn is_space(c: char) -> bool {
    let code = c as u32;
    ||| 0x0009 <= code <= 0x000D
    ||| code == 0x0020
    ||| code == 0x0085
    ||| code == 0x00A0
    ||| code == 0x1680
    ||| 0x2000 <= code <= 0x200A
    ||| code == 0x2028
    ||| code == 0x2029
    ||| code == 0x202F
    ||| code == 0x205F
    ||| code == 0x3000
}

/// `char::is_whitespace` tells whether a character has the Unicode
/// property White_Space, which [`is_space`] writes out.
#[verifier::external_body]
fn space(c: char) -> (answer: bool)
    ensures
        answer == is_space(c),
{
    c.is_whitespace()
}

/// `text` without the white space at its start.
pub open spec fn trim_start(text: Seq<char>) -> Seq<char>
    decreases text.len(),
{
    if text.len() > 0 && is_space(text[0]) {
        trim_start(text.drop_first())
    } else {
        text
    }
}

/// `text` without the white space at its end.
pub open spec fn trim_end(text: Seq<char>) -> Seq<char>
    decreases text.len(),
{
    if text.len() > 0 && is_space(text.last()) {
        trim_end(text.drop_last())
    } else {
        text
    }
}

/// `text` without the white space at either end.
pub open spec fn trimmed(text: Seq<char>) -> Seq<char> {
    trim_end(trim_start(text))
}

/// Removes the white space at both ends of `text`.
pub fn trim(text: &[char]) -> (core: Vec<char>)
    ensures
        core@ == trimmed(text@),
{
    let mut from: usize = 0;
    assert(text@.subrange(0, text@.len() as int) =~= text@);
    while from < text.len() && space(text[from])
        invariant
            from <= text@.len(),
            trim_start(text@) == trim_start(text@.subrange(from as int, text@.len() as int)),
        decreases text@.len() - from,
    {
        assert(text@.subrange(from as int, text@.len() as int).drop_first() =~= text@.subrange(
            from + 1,
            text@.len() as int,
        ));
        from += 1;
    }
    let ghost left = text@.subrange(from as int, text@.len() as int);
    assert(trim_start(text@) == left);
    let mut to: usize = text.len();
    while to > from && space(text[to - 1])
        invariant
            from <= to <= text@.len(),
            left == text@.subrange(from as int, text@.len() as int),
            trim_end(left) == trim_end(text@.subrange(from as int, to as int)),
        decreases to,
    {
        assert(text@.subrange(from as int, to as int).drop_last() =~= text@.subrange(
            from as int,
            to - 1,
        ));
        to -= 1;
    }
    copy_range(text, from, to)
}

} // verus!
