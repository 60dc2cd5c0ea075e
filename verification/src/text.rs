//! Texts as sequences of characters, and splitting them.

use vstd::prelude::*;

verus! {

/// `str`'s `==` holds exactly of texts with the same characters.
pub assume_specification[ <str as PartialEq>::eq ](a: &str, b: &str) -> (r: bool)
    ensures
        r == (a@ == b@),
;

/// The characters of each text of a list.
pub open spec fn texts(list: Seq<String>) -> Seq<Seq<char>> {
    list.map_values(|text: String| text@)
}

/// The pieces into which `sep` cuts `s`: what stands between two neighbouring
/// separators, before the first and after the last. A text without a
/// separator is one piece, and so is the empty text.
pub open spec fn pieces(s: Seq<char>, sep: char) -> Seq<Seq<char>>
    decreases s.len(),
{
    if s.len() == 0 {
        seq![Seq::<char>::empty()]
    } else {
        let before = pieces(s.drop_last(), sep);
        if s.last() == sep {
            before.push(Seq::<char>::empty())
        } else {
            before.drop_last().push(before.last().push(s.last()))
        }
    }
}

/// How often a character stands in a text.
pub open spec fn count(s: Seq<char>, sep: char) -> nat
    decreases s.len(),
{
    if s.len() == 0 {
        0
    } else {
        count(s.drop_last(), sep) + if s.last() == sep {
            1nat
        } else {
            0nat
        }
    }
}

/// The parts written one behind the other, with `sep` between two of them.
pub open spec fn glued(parts: Seq<Seq<char>>, sep: char) -> Seq<char>
    decreases parts.len(),
{
    if parts.len() == 0 {
        Seq::empty()
    } else if parts.len() == 1 {
        parts[0]
    } else {
        glued(parts.drop_last(), sep) + seq![sep] + parts.last()
    }
}

/// There is one piece more than there are separators, no piece holds a
/// separator, and the pieces with the separator between them are the text
/// again.
pub proof fn lemma_pieces(s: Seq<char>, sep: char)
    ensures
        pieces(s, sep).len() == count(s, sep) + 1,
        forall|i: int, j: int|
            0 <= i < pieces(s, sep).len() && 0 <= j < pieces(s, sep)[i].len()
                ==> pieces(s, sep)[i][j] != sep,
        glued(pieces(s, sep), sep) == s,
    decreases s.len(),
{
    if s.len() > 0 {
        let shorter = s.drop_last();
        lemma_pieces(shorter, sep);
        let before = pieces(shorter, sep);
        let now = pieces(s, sep);
        if s.last() == sep {
            assert(now.drop_last() =~= before);
            assert(glued(now, sep) =~= shorter + seq![sep] + Seq::<char>::empty());
        } else {
            let grown = before.last().push(s.last());
            assert(now.last() == grown);
            if before.len() == 1 {
                assert(glued(now, sep) =~= shorter.push(s.last()));
            } else {
                assert(now.drop_last() =~= before.drop_last());
                assert(glued(now, sep) =~= (glued(before.drop_last(), sep) + seq![sep]
                    + before.last()).push(s.last()));
            }
        }
        assert(shorter.push(s.last()) =~= s);
        assert(shorter + seq![sep] + Seq::<char>::empty() =~= shorter.push(sep));
    }
}

/// Counts how often `c` stands in `text`.
pub fn count_char(text: &str, c: char) -> (n: usize)
    ensures
        n == count(text@, c),
{
    let len = text.unicode_len();
    let mut n: usize = 0;
    let mut i: usize = 0;
    while i < len
        invariant
            len == text@.len(),
            i <= len,
            n <= i,
            n == count(text@.take(i as int), c),
        decreases len - i,
    {
        assert(text@.take(i as int + 1).drop_last() =~= text@.take(i as int));
        if text.get_char(i) == c {
            n += 1;
        }
        i += 1;
    }
    assert(text@.take(len as int) =~= text@);
    n
}

/// Cuts `text` at every `sep`.
pub fn split(text: &str, sep: char) -> (out: Vec<String>)
    ensures
        texts(out@) == pieces(text@, sep),
{
    let n = text.unicode_len();
    let mut out: Vec<String> = Vec::new();
    let mut start: usize = 0;
    let mut i: usize = 0;
    proof {
        assert(text@.subrange(0, 0) =~= Seq::<char>::empty());
        assert(text@.take(0).len() == 0);
        assert(texts(out@).push(text@.subrange(0, 0)) =~= pieces(text@.take(0), sep));
    }
    while i < n
        invariant
            n == text@.len(),
            start <= i <= n,
            pieces(text@.take(i as int), sep) == texts(out@).push(
                text@.subrange(start as int, i as int),
            ),
        decreases n - i,
    {
        let c = text.get_char(i);
        proof {
            let longer = text@.take(i as int + 1);
            assert(longer.drop_last() =~= text@.take(i as int));
            assert(longer.last() == c);
        }
        if c == sep {
            let ghost before = texts(out@);
            let piece = text.substring_char(start, i).to_owned();
            out.push(piece);
            assert(texts(out@) =~= before.push(text@.subrange(start as int, i as int)));
            start = i + 1;
            assert(text@.subrange(start as int, start as int) =~= Seq::<char>::empty());
        } else {
            let ghost whole = texts(out@).push(text@.subrange(start as int, i as int));
            assert(whole.drop_last() =~= texts(out@));
            assert(text@.subrange(start as int, i as int).push(c) =~= text@.subrange(
                start as int,
                i as int + 1,
            ));
        }
        i += 1;
    }
    let ghost before = texts(out@);
    out.push(text.substring_char(start, n).to_owned());
    assert(texts(out@) =~= before.push(text@.subrange(start as int, n as int)));
    assert(text@.take(n as int) =~= text@);
    out
}

/// Whether `text` is one of the texts of `list`.
pub fn has_text(list: &Vec<String>, text: &str) -> (found: bool)
    ensures
        found == texts(list@).contains(text@),
{
    let mut i: usize = 0;
    while i < list.len()
        invariant
            i <= list.len(),
            forall|j: int| 0 <= j < i ==> texts(list@)[j] != text@,
        decreases list.len() - i,
    {
        if list[i].as_str().eq(text) {
            assert(texts(list@)[i as int] == text@);
            return true;
        }
        i += 1;
    }
    false
}

/// Adds a copy of `text` at the end of `list`.
pub fn push_text(list: &mut Vec<String>, text: &str)
    ensures
        texts(final(list)@) == texts(old(list)@).push(text@),
{
    list.push(text.to_owned());
    assert(texts(list@) =~= texts(old(list)@).push(text@));
}

/// Adds copies of the texts of `more` at the end of `list`, in their order.
pub fn append_texts(list: &mut Vec<String>, more: &Vec<String>)
    ensures
        texts(final(list)@) == texts(old(list)@) + texts(more@),
{
    let mut i: usize = 0;
    assert(texts(list@) =~= texts(old(list)@) + texts(more@.take(0)));
    while i < more.len()
        invariant
            i <= more.len(),
            texts(list@) == texts(old(list)@) + texts(more@.take(i as int)),
        decreases more.len() - i,
    {
        let ghost before = texts(list@);
        list.push(more[i].clone());
        assert(texts(list@) =~= before.push(more@[i as int]@));
        assert(texts(more@.take(i as int + 1)) =~= texts(more@.take(i as int)).push(
            more@[i as int]@,
        ));
        i += 1;
    }
    assert(more@.take(more.len() as int) =~= more@);
}

} // verus!
