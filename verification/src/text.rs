//! Taking text apart and putting it together.

use vstd::prelude::*;

verus! {

/// The characters of `text`.
pub(crate) fn chars_of(text: &str) -> (chars: Vec<char>)
    ensures
        chars@ == text@,
{
    let mut chars: Vec<char> = Vec::new();
    for c in it: text.chars()
        invariant
            it.seq() == text@,
            chars@ == it.seq().take(it.index() as int),
    {
        chars.push(c);
    }
    chars
}

/// Whether two pieces of text are the same.
pub(crate) fn same_text(a: &str, b: &str) -> (same: bool)
    ensures
        same == (a@ == b@),
{
    let left = chars_of(a);
    let right = chars_of(b);
    if left.len() != right.len() {
        return false;
    }
    for i in 0..left.len()
        invariant
            left@ == a@,
            right@ == b@,
            left.len() == right.len(),
            forall|j: int| 0 <= j < i ==> left@[j] == right@[j],
    {
        if left[i] != right[i] {
            return false;
        }
    }
    assert(left@ =~= right@);
    true
}

/// Whether `text` begins with `prefix`.
pub(crate) fn has_prefix(text: &str, prefix: &str) -> (yes: bool)
    ensures
        yes == prefix@.is_prefix_of(text@),
{
    let whole = chars_of(text);
    let start = chars_of(prefix);
    if whole.len() < start.len() {
        return false;
    }
    for i in 0..start.len()
        invariant
            whole@ == text@,
            start@ == prefix@,
            start.len() <= whole.len(),
            forall|j: int| 0 <= j < i ==> start@[j] == whole@[j],
    {
        if start[i] != whole[i] {
            assert(text@.subrange(0, prefix@.len() as int)[i as int] != prefix@[i as int]);
            return false;
        }
    }
    assert(prefix@ =~= text@.subrange(0, prefix@.len() as int));
    true
}

/// The views of pieces of text.
pub open spec fn texts(pieces: Seq<String>) -> Seq<Seq<char>> {
    pieces.map_values(|piece: String| piece@)
}

/// The pieces of `text` between the occurrences of `separator`: one more than there are of these.
pub open spec fn split(text: Seq<char>, separator: char) -> Seq<Seq<char>>
    decreases text.len(),
{
    if text.len() == 0 {
        seq![seq![]]
    } else {
        let pieces = split(text.drop_last(), separator);
        if text.last() == separator {
            pieces.push(seq![])
        } else {
            pieces.drop_last().push(pieces.last().push(text.last()))
        }
    }
}

/// The pieces, one after the other, with `separator` between each two of them.
pub open spec fn join(pieces: Seq<Seq<char>>, separator: char) -> Seq<char>
    decreases pieces.len(),
{
    if pieces.len() == 0 {
        seq![]
    } else if pieces.len() == 1 {
        pieces[0]
    } else {
        join(pieces.drop_last(), separator).push(separator) + pieces.last()
    }
}

/// Splits `text` at each `separator`.
pub(crate) fn split_text(text: &str, separator: char) -> (pieces: Vec<String>)
    ensures
        texts(pieces@) == split(text@, separator),
{
    let chars = chars_of(text);
    let mut pieces: Vec<String> = Vec::new();
    let mut start: usize = 0;
    assert(text@.subrange(0, 0) =~= seq![]);
    assert(texts(pieces@).push(text@.subrange(0, 0)) =~= seq![seq![]]);
    for i in 0..chars.len()
        invariant
            chars@ == text@,
            start <= i <= chars.len(),
            texts(pieces@).push(text@.subrange(start as int, i as int)) == split(
                text@.take(i as int),
                separator,
            ),
    {
        assert(text@.take(i + 1).drop_last() =~= text@.take(i as int));
        let ghost before = texts(pieces@);
        let ghost piece = text@.subrange(start as int, i as int);
        assert(before.push(piece).drop_last() =~= before);
        if chars[i] == separator {
            pieces.push(text.substring_char(start, i).to_owned());
            start = i + 1;
            assert(texts(pieces@) =~= before.push(piece));
            assert(text@.subrange(start as int, i + 1) =~= seq![]);
        } else {
            assert(text@.subrange(start as int, i + 1) =~= piece.push(text@[i as int]));
        }
    }
    let ghost before = texts(pieces@);
    pieces.push(text.substring_char(start, chars.len()).to_owned());
    assert(texts(pieces@) =~= before.push(text@.subrange(start as int, text@.len() as int)));
    assert(text@.take(text@.len() as int) =~= text@);
    pieces
}

/// Joins `pieces`, with `separator` between each two of them.
pub(crate) fn join_texts(pieces: &Vec<String>, separator: &str) -> (text: String)
    requires
        separator@.len() == 1,
    ensures
        text@ == join(texts(pieces@), separator@[0]),
{
    let mut text = String::new();
    for i in 0..pieces.len()
        invariant
            separator@.len() == 1,
            text@ == join(texts(pieces@).take(i as int), separator@[0]),
    {
        let ghost all = texts(pieces@);
        assert(all.take(i + 1).drop_last() =~= all.take(i as int));
        assert(all.take(i + 1).last() == pieces@[i as int]@);
        if i > 0 {
            let ghost before = text@;
            text.append(separator);
            assert(text@ =~= before.push(separator@[0]));
        }
        let ghost before = text@;
        text.append(pieces[i].as_str());
        if i == 0 {
            assert(text@ =~= pieces@[0]@);
        }
    }
    assert(texts(pieces@).take(pieces@.len() as int) =~= texts(pieces@));
    text
}

proof fn lemma_split_is_never_empty(text: Seq<char>, separator: char)
    ensures
        split(text, separator).len() > 0,
    decreases text.len(),
{
    if text.len() > 0 {
        lemma_split_is_never_empty(text.drop_last(), separator);
    }
}

/// No piece of a text that was split contains the separator.
pub proof fn pieces_lack_the_separator(text: Seq<char>, separator: char)
    ensures
        forall|i: int|
            0 <= i < split(text, separator).len() ==> !(#[trigger] split(
                text,
                separator,
            )[i]).contains(separator),
    decreases text.len(),
{
    if text.len() > 0 {
        let before = split(text.drop_last(), separator);
        lemma_split_is_never_empty(text.drop_last(), separator);
        pieces_lack_the_separator(text.drop_last(), separator);
        assert(!before.last().contains(separator));
        if text.last() != separator {
            let last = before.last().push(text.last());
            assert(!last.contains(separator)) by {
                if last.contains(separator) {
                    let i = choose|i: int| 0 <= i < last.len() && last[i] == separator;
                    assert(before.last()[i] == separator);
                }
            }
        }
    }
}

/// Joining the pieces of a text that was split gives the text back.
pub proof fn join_inverts_split(text: Seq<char>, separator: char)
    ensures
        join(split(text, separator), separator) == text,
    decreases text.len(),
{
    let pieces = split(text, separator);
    if text.len() > 0 {
        let before = split(text.drop_last(), separator);
        lemma_split_is_never_empty(text.drop_last(), separator);
        join_inverts_split(text.drop_last(), separator);
        if text.last() == separator {
            assert(pieces.drop_last() =~= before);
            assert(join(pieces, separator) =~= text.drop_last().push(separator));
        } else {
            assert(pieces.drop_last() =~= before.drop_last());
            assert(text =~= text.drop_last().push(text.last()));
            assert(join(pieces, separator) =~= text);
        }
    }
}

proof fn lemma_split_of_concatenation(head: Seq<char>, tail: Seq<char>, separator: char)
    requires
        !tail.contains(separator),
    ensures
        split(head + tail, separator) == split(head, separator).drop_last().push(
            split(head, separator).last() + tail,
        ),
    decreases tail.len(),
{
    lemma_split_is_never_empty(head, separator);
    let pieces = split(head, separator);
    if tail.len() == 0 {
        assert(head + tail =~= head);
        assert(pieces.last() + tail =~= pieces.last());
        assert(pieces.drop_last().push(pieces.last()) =~= pieces);
    } else {
        let init = tail.drop_last();
        assert(!init.contains(separator)) by {
            if init.contains(separator) {
                let i = choose|i: int| 0 <= i < init.len() && init[i] == separator;
                assert(tail[i] == separator);
            }
        }
        assert(tail.contains(tail.last()));
        lemma_split_of_concatenation(head, init, separator);
        assert((head + tail).drop_last() =~= head + init);
        assert((pieces.last() + init).push(tail.last()) =~= pieces.last() + tail);
        let shorter = split(head + init, separator);
        assert(shorter.drop_last() =~= pieces.drop_last());
    }
}

/// Splitting what was joined gives the pieces back, if there are any, and if none of them
/// contains the separator.
pub proof fn split_inverts_join(pieces: Seq<Seq<char>>, separator: char)
    requires
        pieces.len() > 0,
        forall|i: int| 0 <= i < pieces.len() ==> !(#[trigger] pieces[i]).contains(separator),
    ensures
        split(join(pieces, separator), separator) == pieces,
    decreases pieces.len(),
{
    if pieces.len() == 1 {
        let none: Seq<char> = seq![];
        lemma_split_of_concatenation(none, pieces[0], separator);
        assert(none + pieces[0] =~= pieces[0]);
        assert(split(pieces[0], separator) =~= pieces);
    } else {
        let init = pieces.drop_last();
        split_inverts_join(init, separator);
        let head = join(init, separator).push(separator);
        assert(head.drop_last() =~= join(init, separator));
        lemma_split_of_concatenation(head, pieces.last(), separator);
        let none: Seq<char> = seq![];
        assert(split(head, separator) =~= init.push(none));
        assert(none + pieces.last() =~= pieces.last());
        assert(init.push(none).drop_last() =~= init);
        assert(init.push(pieces.last()) =~= pieces);
    }
}

/// Each piece of text is seen as its characters, in its place.
pub proof fn texts_are_seen_in_place(pieces: Seq<String>)
    ensures
        texts(pieces).len() == pieces.len(),
        forall|i: int| 0 <= i < pieces.len() ==> #[trigger] texts(pieces)[i] == pieces[i]@,
{
}

/// Joining nothing gives no text, joining one piece gives that piece, and joining some pieces and
/// then some more puts one separator between what the former and the latter give.
pub proof fn joining_puts_a_separator_between(
    piece: Seq<char>,
    head: Seq<Seq<char>>,
    tail: Seq<Seq<char>>,
    separator: char,
)
    requires
        head.len() > 0,
        tail.len() > 0,
    ensures
        join(seq![], separator) == Seq::<char>::empty(),
        join(seq![piece], separator) == piece,
        join(head + tail, separator) == join(head, separator) + seq![separator] + join(
            tail,
            separator,
        ),
    decreases tail.len(),
{
    let all = head + tail;
    assert(all.drop_last() =~= head + tail.drop_last());
    assert(all.last() == tail.last());
    if tail.len() == 1 {
        assert(all.drop_last() =~= head);
        assert(join(all, separator) =~= join(head, separator) + seq![separator] + join(
            tail,
            separator,
        ));
    } else {
        joining_puts_a_separator_between(piece, head, tail.drop_last(), separator);
        assert(join(all, separator) =~= join(head, separator) + seq![separator] + join(
            tail,
            separator,
        ));
    }
}

} // verus!
