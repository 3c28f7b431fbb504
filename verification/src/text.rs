//! Text with line endings, as characters and as UTF-8.
use vstd::prelude::*;
use vstd::utf8::*;

verus! {

/// How the lines of a document end in its file.
#[derive(Clone, Copy, Debug, PartialEq, Eq, Structural)]
pub enum LineEnding {
    /// `\n`
    Lf,
    /// `\r\n`
    Crlf,
    /// `\r`
    Cr,
}

impl LineEnding {
    /// The characters of the line ending.
    pub open spec fn chars(self) -> Seq<char> {
        match self {
            LineEnding::Lf => "\n"@,
            LineEnding::Crlf => "\r\n"@,
            LineEnding::Cr => "\r"@,
        }
    }

    /// The line ending in UTF-8.
    pub open spec fn bytes(self) -> Seq<u8> {
        encode_utf8(self.chars())
    }

    /// Returns the line ending as text.
    pub fn as_str(self) -> (text: &'static str)
        ensures
            text@ == self.chars(),
    {
        match self {
            LineEnding::Lf => "\n",
            LineEnding::Crlf => "\r\n",
            LineEnding::Cr => "\r",
        }
    }
}

/// `text` with every `\n` replaced by `ending`.
pub open spec fn with_line_ending(text: Seq<char>, ending: Seq<char>) -> Seq<char>
    decreases text.len(),
{
    if text.len() == 0 {
        Seq::empty()
    } else {
        with_line_ending(text.drop_last(), ending) + (if text.last() == '\n' {
            ending
        } else {
            seq![text.last()]
        })
    }
}

/// `bytes` with every newline byte replaced by `ending`.
pub open spec fn rewrite_newlines(bytes: Seq<u8>, ending: Seq<u8>) -> Seq<u8>
    decreases bytes.len(),
{
    if bytes.len() == 0 {
        Seq::empty()
    } else {
        rewrite_newlines(bytes.drop_last(), ending) + (if bytes.last() == 0x0a {
            ending
        } else {
            seq![bytes.last()]
        })
    }
}

/// Line endings are replaced in two texts as in the text that they make up.
pub proof fn lemma_with_line_ending_concat(a: Seq<char>, b: Seq<char>, ending: Seq<char>)
    ensures
        with_line_ending(a + b, ending)
            == with_line_ending(a, ending) + with_line_ending(b, ending),
    decreases b.len(),
{
    if b.len() == 0 {
        assert(a + b =~= a);
        assert(with_line_ending(a + b, ending) =~= with_line_ending(a, ending) + with_line_ending(
            b,
            ending,
        ));
    } else {
        assert((a + b).drop_last() =~= a + b.drop_last());
        lemma_with_line_ending_concat(a, b.drop_last(), ending);
        assert(with_line_ending(a + b, ending) =~= with_line_ending(a, ending) + with_line_ending(
            b,
            ending,
        ));
    }
}

/// Newline bytes are replaced in two byte strings as in the one that they make up.
pub proof fn lemma_rewrite_newlines_concat(a: Seq<u8>, b: Seq<u8>, ending: Seq<u8>)
    ensures
        rewrite_newlines(a + b, ending)
            == rewrite_newlines(a, ending) + rewrite_newlines(b, ending),
    decreases b.len(),
{
    if b.len() == 0 {
        assert(a + b =~= a);
        assert(rewrite_newlines(a + b, ending) =~= rewrite_newlines(a, ending) + rewrite_newlines(
            b,
            ending,
        ));
    } else {
        assert((a + b).drop_last() =~= a + b.drop_last());
        lemma_rewrite_newlines_concat(a, b.drop_last(), ending);
        assert(rewrite_newlines(a + b, ending) =~= rewrite_newlines(a, ending) + rewrite_newlines(
            b,
            ending,
        ));
    }
}

/// Bytes without a newline stay as they are.
pub proof fn lemma_rewrite_newlines_none(bytes: Seq<u8>, ending: Seq<u8>)
    requires
        forall|i: int| 0 <= i < bytes.len() ==> bytes[i] != 0x0a,
    ensures
        rewrite_newlines(bytes, ending) == bytes,
    decreases bytes.len(),
{
    if bytes.len() > 0 {
        lemma_rewrite_newlines_none(bytes.drop_last(), ending);
        assert(bytes =~= bytes.drop_last() + seq![bytes.last()]);
    } else {
        assert(bytes =~= Seq::empty());
    }
}

/// A newline byte becomes the line ending.
pub proof fn lemma_rewrite_newlines_one(ending: Seq<u8>)
    ensures
        rewrite_newlines(seq![0x0au8], ending) == ending,
{
    reveal_with_fuel(rewrite_newlines, 2);
    assert(seq![0x0au8].drop_last() =~= Seq::<u8>::empty());
    assert(rewrite_newlines(seq![0x0au8], ending) =~= ending);
}

/// With `\n` as the line ending nothing changes.
pub proof fn lemma_with_line_ending_lf(text: Seq<char>)
    ensures
        with_line_ending(text, LineEnding::Lf.chars()) == text,
    decreases text.len(),
{
    reveal_strlit("\n");
    if text.len() > 0 {
        lemma_with_line_ending_lf(text.drop_last());
        assert("\n"@ =~= seq!['\n']);
        assert(text =~= text.drop_last() + seq![text.last()]);
    } else {
        assert(text =~= Seq::empty());
    }
}

/// UTF-8 of two texts, one behind the other, is that of the text they make up.
pub proof fn lemma_encode_utf8_concat(a: Seq<char>, b: Seq<char>)
    ensures
        encode_utf8(a + b) == encode_utf8(a) + encode_utf8(b),
    decreases a.len(),
{
    if a.len() == 0 {
        assert(a + b =~= b);
        assert(encode_utf8(a) + encode_utf8(b) =~= encode_utf8(b));
    } else {
        assert((a + b).drop_first() =~= a.drop_first() + b);
        lemma_encode_utf8_concat(a.drop_first(), b);
        assert(encode_utf8(a + b) =~= encode_utf8(a) + encode_utf8(b));
    }
}

/// UTF-8 of a single character.
pub proof fn lemma_encode_utf8_one(c: char)
    ensures
        encode_utf8(seq![c]) == encode_scalar(c as u32),
{
    reveal_with_fuel(encode_utf8, 2);
    assert(seq![c].drop_first() =~= Seq::<char>::empty());
    assert(encode_utf8(seq![c]) =~= encode_scalar(c as u32));
}

/// Only `\n` has a newline byte in its UTF-8.
proof fn lemma_encode_scalar_newline(c: char)
    ensures
        c == '\n' ==> encode_scalar(c as u32) == seq![0x0au8],
        c != '\n' ==> forall|i: int|
            #![trigger encode_scalar(c as u32)[i]]
            0 <= i < encode_scalar(c as u32).len() ==> encode_scalar(c as u32)[i] != 0x0a,
{
    char_is_scalar(c);
    let s = c as u32;
    if has_width_1_encoding(s) {
        assert(leading_byte_width_1(s) == 0x0a <==> s == 0x0a) by (bit_vector)
            requires
                has_width_1_encoding(s),
        ;
        if c == '\n' {
            assert(encode_scalar(s) =~= seq![0x0au8]);
        }
    } else {
        assert(leading_byte_width_2(s) >= 0x80) by (bit_vector)
            requires
                s <= 0x10ffff,
        ;
        assert(leading_byte_width_3(s) >= 0x80) by (bit_vector)
            requires
                s <= 0x10ffff,
        ;
        assert(leading_byte_width_4(s) >= 0x80) by (bit_vector)
            requires
                s <= 0x10ffff,
        ;
        assert(last_continuation_byte(s) >= 0x80) by (bit_vector);
        assert(second_last_continuation_byte(s) >= 0x80) by (bit_vector);
        assert(third_last_continuation_byte(s) >= 0x80) by (bit_vector);
    }
}

/// To replace line endings and then encode is to encode and then replace.
pub proof fn lemma_line_endings_in_utf8(text: Seq<char>, ending: Seq<char>)
    ensures
        rewrite_newlines(encode_utf8(text), encode_utf8(ending)) == encode_utf8(
            with_line_ending(text, ending),
        ),
    decreases text.len(),
{
    if text.len() > 0 {
        let init = text.drop_last();
        let last = text.last();
        let e = encode_utf8(ending);
        lemma_line_endings_in_utf8(init, ending);
        assert(text =~= init + seq![last]);
        lemma_encode_utf8_concat(init, seq![last]);
        lemma_encode_utf8_one(last);
        lemma_rewrite_newlines_concat(encode_utf8(init), encode_scalar(last as u32), e);
        lemma_encode_scalar_newline(last);
        if last == '\n' {
            lemma_rewrite_newlines_one(e);
            lemma_encode_utf8_concat(with_line_ending(init, ending), ending);
        } else {
            lemma_rewrite_newlines_none(encode_scalar(last as u32), e);
            lemma_encode_utf8_concat(with_line_ending(init, ending), seq![last]);
        }
    }
}

/// Texts with the same UTF-8 are the same text.
pub proof fn lemma_encode_utf8_injective(a: Seq<char>, b: Seq<char>)
    requires
        encode_utf8(a) == encode_utf8(b),
    ensures
        a == b,
{
    encode_utf8_decode_utf8(a);
    encode_utf8_decode_utf8(b);
}

/// Where the first newline byte at or behind `from` stands: the length of the
/// bytes where there is none.
pub open spec fn next_newline(bytes: Seq<u8>, from: int) -> int
    decreases bytes.len() - from,
{
    if from >= bytes.len() || bytes[from] == 0x0a {
        from
    } else {
        next_newline(bytes, from + 1)
    }
}

/// What the place of the next newline byte is: in range, on a newline unless at
/// the end, and with no newline before it.
pub proof fn lemma_next_newline(bytes: Seq<u8>, from: int)
    requires
        0 <= from <= bytes.len(),
    ensures
        from <= next_newline(bytes, from) <= bytes.len(),
        next_newline(bytes, from) < bytes.len() ==> bytes[next_newline(bytes, from)] == 0x0a,
        forall|i: int| from <= i < next_newline(bytes, from) ==> bytes[i] != 0x0a,
    decreases bytes.len() - from,
{
    if from < bytes.len() && bytes[from] != 0x0a {
        lemma_next_newline(bytes, from + 1);
    }
}

/// Returns where the first newline byte at or behind `from` stands.
pub fn find_newline(bytes: &[u8], from: usize) -> (at: usize)
    requires
        from <= bytes@.len(),
    ensures
        at == next_newline(bytes@, from as int),
        from <= at <= bytes@.len(),
        at < bytes@.len() ==> bytes@[at as int] == 0x0a,
        forall|i: int| from <= i < at ==> bytes@[i] != 0x0a,
{
    let mut at: usize = from;
    while at < bytes.len() && bytes[at] != 0x0a
        invariant
            from <= at <= bytes@.len(),
            next_newline(bytes@, from as int) == next_newline(bytes@, at as int),
        decreases bytes@.len() - at,
    {
        at = at + 1;
    }
    proof {
        lemma_next_newline(bytes@, from as int);
    }
    at
}

/// Text without a newline byte in its UTF-8 stays as it is.
pub proof fn lemma_no_newline(text: Seq<char>, ending: Seq<char>)
    requires
        forall|i: int| 0 <= i < encode_utf8(text).len() ==> encode_utf8(text)[i] != 0x0a,
    ensures
        with_line_ending(text, ending) == text,
{
    lemma_rewrite_newlines_none(encode_utf8(text), encode_utf8(ending));
    lemma_line_endings_in_utf8(text, ending);
    lemma_encode_utf8_injective(with_line_ending(text, ending), text);
}

/// Text that is split before its first newline byte: the first part holds no
/// `\n`, and the second begins with one, which ends at a character boundary.
pub proof fn lemma_first_newline(
    line: Seq<char>,
    tail: Seq<char>,
    text: Seq<char>,
    at: int,
    ending: Seq<char>,
)
    requires
        0 <= at < encode_utf8(text).len(),
        encode_utf8(text)[at] == 0x0a,
        forall|i: int| 0 <= i < at ==> encode_utf8(text)[i] != 0x0a,
        encode_utf8(line) == encode_utf8(text).subrange(0, at),
        encode_utf8(tail) == encode_utf8(text).subrange(at, encode_utf8(text).len() as int),
    ensures
        text == line + tail,
        with_line_ending(line, ending) == line,
        tail.len() > 0,
        tail[0] == '\n',
        is_char_boundary(encode_utf8(tail), 1),
{
    lemma_encode_utf8_concat(line, tail);
    assert(encode_utf8(text) =~= encode_utf8(line) + encode_utf8(tail));
    lemma_encode_utf8_injective(text, line + tail);
    lemma_no_newline(line, ending);
    let bytes = encode_utf8(tail);
    assert(bytes[0] == 0x0a);
    encode_utf8_valid_utf8(tail);
    encode_utf8_first_scalar(tail);
    assert(is_leading_byte_width_1(0x0au8) && codepoint_width_1(0x0au8) == 0x0a) by (bit_vector);
    assert(decode_first_scalar(bytes) == 0x0au32);
    char_u32_cast(tail[0], 0x0au32);
    char_u32_cast('\n', 0x0au32);
    assert(length_of_first_scalar(bytes) == 1);
    reveal_with_fuel(is_char_boundary, 2);
}

/// What is left of a text behind the `\n` that it begins with.
pub proof fn lemma_after_newline(tail: Seq<char>, next: Seq<char>, ending: Seq<char>)
    requires
        tail.len() > 0,
        tail[0] == '\n',
        encode_utf8(next) == encode_utf8(tail).subrange(1, encode_utf8(tail).len() as int),
    ensures
        with_line_ending(tail, ending) == ending + with_line_ending(next, ending),
        encode_utf8(next).len() < encode_utf8(tail).len(),
{
    let newline = seq!['\n'];
    assert(tail =~= newline + tail.drop_first());
    lemma_encode_utf8_concat(newline, tail.drop_first());
    lemma_encode_utf8_one('\n');
    lemma_encode_scalar_newline('\n');
    assert(encode_utf8(next) =~= encode_utf8(tail.drop_first()));
    lemma_encode_utf8_injective(next, tail.drop_first());
    lemma_with_line_ending_concat(newline, next, ending);
    reveal_with_fuel(with_line_ending, 2);
    assert(newline.drop_last() =~= Seq::<char>::empty());
    assert(with_line_ending(newline, ending) =~= ending);
}

/// What `String::from_utf8_lossy` makes of these bytes.
pub uninterp spec fn lossy_text(bytes: Seq<u8>) -> Seq<char>;

/// Returns the text of `bytes`, read as UTF-8, with a replacement character for
/// what is not UTF-8.
///
/// Calls `String::from_utf8_lossy`. The contract claims that the result depends
/// on the bytes alone and that UTF-8 is decoded as it stands; where the
/// replacement characters go in other bytes is left to `lossy_text`.
#[verifier::external_body]
pub(crate) fn text_from_utf8_lossy(bytes: &[u8]) -> (text: String)
    ensures
        text@ == lossy_text(bytes@),
        valid_utf8(bytes@) ==> text@ == decode_utf8(bytes@),
{
    String::from_utf8_lossy(bytes).into_owned()
}

/// Whether a line of `bytes` ends with the byte at `i`: a `\n`, or a `\r` that no
/// `\n` follows.
pub open spec fn ends_line(bytes: Seq<u8>, i: int) -> bool {
    ||| bytes[i] == 0x0a
    ||| bytes[i] == 0x0d && !(i + 1 < bytes.len() && bytes[i + 1] == 0x0a)
}

/// How many of the first `n` bytes end a line.
pub open spec fn line_breaks_before(bytes: Seq<u8>, n: int) -> nat
    decreases n,
{
    if n <= 0 {
        0
    } else {
        line_breaks_before(bytes, n - 1) + (if ends_line(bytes, n - 1) {
            1nat
        } else {
            0nat
        })
    }
}

/// How many lines of `bytes` are ended, where `\n`, `\r\n` and a lone `\r` each
/// end one.
pub open spec fn line_breaks_in(bytes: Seq<u8>) -> nat {
    line_breaks_before(bytes, bytes.len() as int)
}

/// No more lines are ended than there are bytes.
pub proof fn lemma_line_breaks_bound(bytes: Seq<u8>, n: int)
    requires
        0 <= n,
    ensures
        line_breaks_before(bytes, n) <= n,
    decreases n,
{
    if n > 0 {
        lemma_line_breaks_bound(bytes, n - 1);
    }
}

/// Returns how many lines of `bytes` are ended.
pub fn count_line_breaks_in_bytes(bytes: &[u8]) -> (breaks: usize)
    ensures
        breaks == line_breaks_in(bytes@),
        breaks <= bytes@.len(),
{
    let mut breaks: usize = 0;
    let mut i: usize = 0;
    while i < bytes.len()
        invariant
            i <= bytes@.len(),
            breaks <= i,
            breaks == line_breaks_before(bytes@, i as int),
        decreases bytes@.len() - i,
    {
        if bytes[i] == 0x0a || (bytes[i] == 0x0d && !(i + 1 < bytes.len() && bytes[i + 1]
            == 0x0a)) {
            breaks = breaks + 1;
        }
        i = i + 1;
    }
    breaks
}

/// The line ending that `bytes` show: that of their first ended line, and `\n`
/// where no line is ended.
pub open spec fn line_ending_at(bytes: Seq<u8>, from: int) -> LineEnding
    decreases bytes.len() - from,
{
    if from >= bytes.len() || bytes[from] == 0x0a {
        LineEnding::Lf
    } else if bytes[from] == 0x0d {
        if from + 1 < bytes.len() && bytes[from + 1] == 0x0a {
            LineEnding::Crlf
        } else {
            LineEnding::Cr
        }
    } else {
        line_ending_at(bytes, from + 1)
    }
}

/// Returns the line ending of the first ended line of `bytes`.
pub fn detect_line_ending(bytes: &[u8]) -> (ending: LineEnding)
    ensures
        ending == line_ending_at(bytes@, 0),
{
    let mut i: usize = 0;
    while i < bytes.len()
        invariant
            i <= bytes@.len(),
            line_ending_at(bytes@, 0) == line_ending_at(bytes@, i as int),
        decreases bytes@.len() - i,
    {
        if bytes[i] == 0x0a {
            return LineEnding::Lf;
        }
        if bytes[i] == 0x0d {
            if i + 1 < bytes.len() && bytes[i + 1] == 0x0a {
                return LineEnding::Crlf;
            }
            return LineEnding::Cr;
        }
        i = i + 1;
    }
    LineEnding::Lf
}

} // verus!
