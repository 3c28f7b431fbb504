//! What lines and line endings are.
use crate::document;
use crate::parts;
use crate::piece_table;
use crate::piece_table::Piece;
use crate::storage::StorageView;
use crate::text;
use crate::text::LineEnding;
use vstd::prelude::*;

verus! {

/// The line endings, in characters.
pub proof fn law_line_ending_characters()
    ensures
        LineEnding::Lf.chars() == seq!['\n'],
        LineEnding::Crlf.chars() == seq!['\r', '\n'],
        LineEnding::Cr.chars() == seq!['\r'],
{
    reveal_strlit("\n");
    reveal_strlit("\r\n");
    reveal_strlit("\r");
    assert(LineEnding::Lf.chars() =~= seq!['\n']);
    assert(LineEnding::Crlf.chars() =~= seq!['\r', '\n']);
    assert(LineEnding::Cr.chars() =~= seq!['\r']);
}

/// What it is to apply a line ending: character by character, it takes the place of
/// `\n`, and every other character stays.
pub proof fn law_applied_line_ending(a: Seq<char>, b: Seq<char>, c: char, ending: Seq<char>)
    ensures
        text::with_line_ending(Seq::empty(), ending) == Seq::<char>::empty(),
        text::with_line_ending(a + b, ending) == text::with_line_ending(a, ending)
            + text::with_line_ending(b, ending),
        text::with_line_ending(seq![c], ending) == (if c == '\n' {
            ending
        } else {
            seq![c]
        }),
{
    text::lemma_with_line_ending_concat(a, b, ending);
    reveal_with_fuel(text::with_line_ending, 2);
    assert(seq![c].drop_last() =~= Seq::<char>::empty());
    assert(text::with_line_ending(seq![c], ending) =~= (if c == '\n' {
        ending
    } else {
        seq![c]
    }));
}

/// What it is to apply a line ending to bytes: byte by byte, it takes the place of the
/// newline byte, and every other byte stays.
pub proof fn law_rewritten_newlines(a: Seq<u8>, b: Seq<u8>, byte: u8, ending: Seq<u8>)
    ensures
        text::rewrite_newlines(Seq::empty(), ending) == Seq::<u8>::empty(),
        text::rewrite_newlines(a + b, ending) == text::rewrite_newlines(a, ending)
            + text::rewrite_newlines(b, ending),
        text::rewrite_newlines(seq![byte], ending) == (if byte == 0x0a {
            ending
        } else {
            seq![byte]
        }),
{
    text::lemma_rewrite_newlines_concat(a, b, ending);
    reveal_with_fuel(text::rewrite_newlines, 2);
    assert(seq![byte].drop_last() =~= Seq::<u8>::empty());
    assert(text::rewrite_newlines(seq![byte], ending) =~= (if byte == 0x0a {
        ending
    } else {
        seq![byte]
    }));
}

/// What it is to put parts together: a single part is itself, and two lists of parts
/// follow each other.
pub proof fn law_joined_parts<T>(a: Seq<Seq<T>>, b: Seq<Seq<T>>, part: Seq<T>)
    ensures
        parts::join(Seq::<Seq<T>>::empty()) == Seq::<T>::empty(),
        parts::join(seq![part]) == part,
        parts::join(a + b) == parts::join(a) + parts::join(b),
{
    parts::lemma_join_one(part);
    parts::lemma_join_concat(a, b);
}

/// The line ending of a file is that of the first line that is ended: where `i` is the
/// place of the first `\n` or `\r`, that byte and the one behind it tell. Where there is
/// none, it is `\n`.
pub proof fn law_line_ending_of_a_file(path: Seq<u8>, storage: StorageView, i: int)
    requires
        0 <= i <= storage.bytes.len(),
        forall|k: int| 0 <= k < i ==> storage.bytes[k] != 0x0a && storage.bytes[k] != 0x0d,
        i < storage.bytes.len() ==> storage.bytes[i] == 0x0a || storage.bytes[i] == 0x0d,
    ensures
        ({
            let bytes = storage.bytes;
            document::fresh(path, storage).line_ending == (if i == bytes.len() || bytes[i]
                == 0x0a {
                LineEnding::Lf
            } else if i + 1 < bytes.len() && bytes[i + 1] == 0x0a {
                LineEnding::Crlf
            } else {
                LineEnding::Cr
            })
        }),
{
    lemma_line_ending_from(storage.bytes, 0, i);
}

/// The line ending shows at the first byte that ends a line.
proof fn lemma_line_ending_from(bytes: Seq<u8>, from: int, i: int)
    requires
        0 <= from <= i <= bytes.len(),
        forall|k: int| from <= k < i ==> bytes[k] != 0x0a && bytes[k] != 0x0d,
    ensures
        text::line_ending_at(bytes, from) == text::line_ending_at(bytes, i),
    decreases i - from,
{
    if from < i {
        lemma_line_ending_from(bytes, from + 1, i);
    }
}

/// The line breaks of two runs of bytes add up, but that a `\r` at the end of the first
/// and a `\n` at the start of the second are one. A single byte is a line break where it
/// is `\n` or `\r`, and no bytes hold none.
pub proof fn law_line_breaks(a: Seq<u8>, b: Seq<u8>, byte: u8)
    ensures
        text::line_breaks_in(Seq::empty()) == 0,
        text::line_breaks_in(seq![byte]) == (if byte == 0x0a || byte == 0x0d {
            1int
        } else {
            0int
        }),
        text::line_breaks_in(a + b) == text::line_breaks_in(a) + text::line_breaks_in(b) - (if
            a.len() > 0 && b.len() > 0 && a.last() == 0x0d && b[0] == 0x0a {
            1int
        } else {
            0int
        }),
{
    reveal_with_fuel(text::line_breaks_before, 2);
    lemma_line_breaks_of_the_first(a, b, a.len() as int);
    lemma_line_breaks_of_the_second(a, b, b.len() as int);
    assert((a + b).len() == a.len() + b.len());
}

/// The line breaks among the first bytes of two runs, up to `n`.
proof fn lemma_line_breaks_of_the_first(a: Seq<u8>, b: Seq<u8>, n: int)
    requires
        0 <= n <= a.len(),
    ensures
        text::line_breaks_before(a + b, n) == text::line_breaks_before(a, n) - (if n == a.len()
            && n > 0 && b.len() > 0 && a.last() == 0x0d && b[0] == 0x0a {
            1int
        } else {
            0int
        }),
    decreases n,
{
    if n > 0 {
        lemma_line_breaks_of_the_first(a, b, n - 1);
        assert((a + b)[n - 1] == a[n - 1]);
        if n < a.len() {
            assert((a + b)[n] == a[n]);
        } else if b.len() > 0 {
            assert((a + b)[n] == b[0]);
        }
    }
}

/// The line breaks among the bytes of two runs, up to the first `n` of the second.
proof fn lemma_line_breaks_of_the_second(a: Seq<u8>, b: Seq<u8>, n: int)
    requires
        0 <= n <= b.len(),
    ensures
        text::line_breaks_before(a + b, a.len() + n) == text::line_breaks_before(
            a + b,
            a.len() as int,
        ) + text::line_breaks_before(b, n),
    decreases n,
{
    if n > 0 {
        lemma_line_breaks_of_the_second(a, b, n - 1);
        assert((a + b)[a.len() + n - 1] == b[n - 1]);
        if n < b.len() {
            assert((a + b)[a.len() + n] == b[n]);
        }
    }
}

/// How many lines pieces are known to have: one where there are none, and for each
/// piece its line breaks more, as far as a `usize` counts.
pub proof fn law_known_lines(pieces: Seq<Piece>, piece: Piece)
    ensures
        piece_table::known_lines(Seq::empty()) == 1,
        piece_table::known_lines(pieces.push(piece)) == (if piece_table::known_lines(pieces)
            + piece.line_breaks <= usize::MAX {
            piece_table::known_lines(pieces) + piece.line_breaks
        } else {
            usize::MAX as int
        }),
{
    assert(pieces.push(piece).drop_last() =~= pieces);
}

} // verus!
