//! Texts as sequences of characters.

use vstd::prelude::*;

verus! {

/// `String::push` appends one character to the text.
pub assume_specification[ String::push ](text: &mut String, c: char)
    ensures
        final(text)@ == old(text)@.push(c),
;

/// The pieces into which the occurrences of `separator` cut `text`. There is
/// one piece more than there are separators; a piece is empty where two
/// separators meet or where the text starts or ends with one.
pub open spec fn split(text: Seq<char>, separator: char) -> Seq<Seq<char>>
    decreases text.len(),
{
    if text.len() == 0 {
        seq![Seq::<char>::empty()]
    } else {
        let before = split(text.drop_last(), separator);
        if text.last() == separator {
            before.push(Seq::<char>::empty())
        } else {
            before.drop_last().push(before.last().push(text.last()))
        }
    }
}

/// The number of occurrences of `c` in `text`.
pub open spec fn occurrences_of(text: Seq<char>, c: char) -> nat
    decreases text.len(),
{
    if text.len() == 0 {
        0
    } else if text.last() == c {
        occurrences_of(text.drop_last(), c) + 1
    } else {
        occurrences_of(text.drop_last(), c)
    }
}

/// The pieces joined again, with `separator` between each two.
pub open spec fn joined(pieces: Seq<Seq<char>>, separator: char) -> Seq<char>
    decreases pieces.len(),
{
    if pieces.len() == 0 {
        Seq::<char>::empty()
    } else if pieces.len() == 1 {
        pieces[0]
    } else {
        joined(pieces.drop_last(), separator).push(separator) + pieces.last()
    }
}

/// Splitting gives one piece more than there are separators, no piece holds
/// a separator, and joining the pieces gives the text back.
pub proof fn lemma_split(text: Seq<char>, separator: char)
    ensures
        split(text, separator).len() == occurrences_of(text, separator) + 1,
        forall|i: int, j: int|
            0 <= i < split(text, separator).len() && 0 <= j < split(text, separator)[i].len()
                ==> split(text, separator)[i][j] != separator,
        joined(split(text, separator), separator) == text,
    decreases text.len(),
{
    if text.len() == 0 {
        assert(joined(split(text, separator), separator) =~= text);
    } else {
        let shorter = text.drop_last();
        let before = split(shorter, separator);
        lemma_split(shorter, separator);
        let pieces = split(text, separator);
        if text.last() == separator {
            assert(pieces.drop_last() =~= before);
            assert(joined(pieces, separator) =~= text);
        } else {
            let grown = before.last().push(text.last());
            assert(pieces.last() == grown);
            if before.len() == 1 {
                assert(joined(before, separator) == before[0]);
                assert(joined(pieces, separator) =~= text);
            } else {
                assert(pieces.drop_last() =~= before.drop_last());
                let head = joined(before.drop_last(), separator).push(separator);
                assert(shorter == head + before.last());
                assert(joined(pieces, separator) == head + grown);
                assert(text =~= shorter.push(text.last()));
                assert(head + grown =~= (head + before.last()).push(text.last()));
            }
        }
    }
}

/// The characters of `text`, in order.
pub fn chars_of(text: &str) -> (chars: Vec<char>)
    ensures
        chars@ == text@,
{
    let mut chars: Vec<char> = Vec::new();
    for c in it: text.chars()
        invariant
            chars@ == it.seq().take(it.index()),
            it.seq() == text@,
    {
        chars.push(c);
    }
    chars
}

/// The text made of `chars`, in order.
pub fn string_of(chars: &[char]) -> (text: String)
    ensures
        text@ == chars@,
{
    let mut text = String::new();
    let mut i: usize = 0;
    while i < chars.len()
        invariant
            i <= chars.len(),
            text@ == chars@.take(i as int),
        decreases chars.len() - i,
    {
        text.push(chars[i]);
        i += 1;
    }
    text
}

/// The texts that the vectors of `pieces` hold.
pub open spec fn texts_of(pieces: Seq<Vec<char>>) -> Seq<Seq<char>> {
    Seq::new(pieces.len(), |i: int| pieces[i]@)
}

/// Cuts `chars` at every occurrence of `separator`.
pub fn split_chars(chars: &[char], separator: char) -> (pieces: Vec<Vec<char>>)
    ensures
        texts_of(pieces@) == split(chars@, separator),
{
    let mut pieces: Vec<Vec<char>> = Vec::new();
    let mut current: Vec<char> = Vec::new();
    let mut i: usize = 0;
    while i < chars.len()
        invariant
            i <= chars.len(),
            texts_of(pieces@).push(current@) == split(chars@.take(i as int), separator),
        decreases chars.len() - i,
    {
        let c = chars[i];
        proof {
            let longer = chars@.take(i + 1);
            assert(longer.drop_last() =~= chars@.take(i as int));
            assert(longer.last() == c);
        }
        if c == separator {
            let ghost done = texts_of(pieces@).push(current@);
            pieces.push(current);
            current = Vec::new();
            assert(texts_of(pieces@) =~= done);
        } else {
            let ghost before = texts_of(pieces@).push(current@);
            current.push(c);
            assert(texts_of(pieces@).push(current@) =~= before.drop_last().push(
                before.last().push(c),
            ));
        }
        i += 1;
    }
    assert(chars@.take(i as int) =~= chars@);
    let ghost done = texts_of(pieces@).push(current@);
    pieces.push(current);
    assert(texts_of(pieces@) =~= done);
    pieces
}

/// Whether `text` ends with the characters of `ending`.
pub fn ends_with(text: &[char], ending: &str) -> (found: bool)
    ensures
        found == ending@.is_suffix_of(text@),
{
    let last = chars_of(ending);
    if last.len() > text.len() {
        return false;
    }
    let offset = text.len() - last.len();
    let mut i: usize = 0;
    while i < last.len()
        invariant
            i <= last.len(),
            offset + last.len() == text.len(),
            last@ == ending@,
            forall|j: int| 0 <= j < i ==> text@[offset + j] == last@[j],
        decreases last.len() - i,
    {
        if text[offset + i] != last[i] {
            assert(text@.subrange(offset as int, text.len() as int)[i as int] != last@[i as int]);
            return false;
        }
        i += 1;
    }
    assert(last@ =~= text@.subrange(offset as int, text.len() as int));
    true
}

} // verus!
