//! Ropes: edit buffers that hold their text in chunks.
use crate::parts;
use crate::shared::share;
use crate::text;
use crate::text::{find_newline, LineEnding};
use std::sync::Arc;
use vstd::prelude::*;
use vstd::string::StringExecFns;
use vstd::utf8::*;

verus! {

/// The text of a document in chunks, with every line ended by `\n`.
#[derive(Debug)]
pub struct Rope {
    pub chunks: Arc<Vec<String>>,
}

impl View for Rope {
    type V = Seq<Seq<char>>;

    open spec fn view(&self) -> Seq<Seq<char>> {
        self.chunks@.map_values(|chunk: String| chunk@)
    }
}

impl Clone for Rope {
    fn clone(&self) -> (copy: Self)
        ensures
            copy == *self,
    {
        Rope { chunks: share(&self.chunks) }
    }
}

/// The bytes of the file that a rope with these chunks is saved as: the text in
/// UTF-8, with `ending` for every `\n`.
pub open spec fn rope_bytes(chunks: Seq<Seq<char>>, ending: LineEnding) -> Seq<u8> {
    encode_utf8(text::with_line_ending(parts::join(chunks), ending.chars()))
}

/// A chunk behind the others adds its own bytes, newlines rewritten.
pub proof fn lemma_rope_bytes_push(chunks: Seq<Seq<char>>, chunk: Seq<char>, ending: LineEnding)
    ensures
        rope_bytes(chunks.push(chunk), ending) == rope_bytes(chunks, ending)
            + text::rewrite_newlines(encode_utf8(chunk), ending.bytes()),
{
    parts::lemma_join_push(chunks, chunk);
    text::lemma_with_line_ending_concat(parts::join(chunks), chunk, ending.chars());
    text::lemma_encode_utf8_concat(
        text::with_line_ending(parts::join(chunks), ending.chars()),
        text::with_line_ending(chunk, ending.chars()),
    );
    text::lemma_line_endings_in_utf8(chunk, ending.chars());
}

/// The first chunks make up no more bytes than all of them do.
proof fn lemma_rope_bytes_take(chunks: Seq<Seq<char>>, n: int, ending: LineEnding)
    requires
        0 <= n <= chunks.len(),
    ensures
        rope_bytes(chunks.take(n), ending).len() <= rope_bytes(chunks, ending).len(),
    decreases chunks.len() - n,
{
    if n == chunks.len() {
        assert(chunks.take(n) =~= chunks);
    } else {
        assert(chunks.take(n + 1) =~= chunks.take(n).push(chunks[n]));
        lemma_rope_bytes_push(chunks.take(n), chunks[n], ending);
        lemma_rope_bytes_take(chunks, n + 1, ending);
    }
}

/// The first bytes are rewritten to no more than all of them are.
proof fn lemma_rewrite_newlines_take(bytes: Seq<u8>, n: int, ending: Seq<u8>)
    requires
        0 <= n <= bytes.len(),
    ensures
        text::rewrite_newlines(bytes.take(n), ending).len()
            <= text::rewrite_newlines(bytes, ending).len(),
{
    assert(bytes =~= bytes.take(n) + bytes.skip(n));
    text::lemma_rewrite_newlines_concat(bytes.take(n), bytes.skip(n), ending);
}

impl Rope {
    /// The rope with these chunks.
    pub fn new(chunks: Vec<String>) -> (rope: Self)
        ensures
            rope@ == chunks@.map_values(|chunk: String| chunk@),
    {
        Rope { chunks: Arc::new(chunks) }
    }

    /// Returns how many bytes the rope is saved as with `ending`, where a `usize`
    /// counts that many.
    pub fn len_bytes_with_line_endings(&self, ending: LineEnding) -> (len: Option<usize>)
        ensures
            match len {
                Some(len) => len == rope_bytes(self@, ending).len(),
                None => rope_bytes(self@, ending).len() > usize::MAX,
            },
    {
        let newline: usize = ending.as_str().as_bytes().len();
        let ghost chunks = self@;
        let mut len: usize = 0;
        let mut k: usize = 0;
        proof {
            assert(chunks.take(0) =~= Seq::empty());
            assert(parts::join(chunks.take(0)) =~= Seq::empty());
            assert(rope_bytes(chunks.take(0), ending) =~= Seq::empty());
        }
        while k < self.chunks.len()
            invariant
                k <= self.chunks@.len(),
                chunks == self@,
                newline == ending.bytes().len(),
                len == rope_bytes(chunks.take(k as int), ending).len(),
            decreases self.chunks@.len() - k,
        {
            let bytes = self.chunks[k].as_str().as_bytes();
            let ghost before = len;
            proof {
                assert(bytes@ == encode_utf8(chunks[k as int]));
                assert(chunks.take(k + 1) =~= chunks.take(k as int).push(chunks[k as int]));
                lemma_rope_bytes_push(chunks.take(k as int), chunks[k as int], ending);
                lemma_rope_bytes_take(chunks, k + 1, ending);
                assert(bytes@.take(0) =~= Seq::empty());
            }
            let mut i: usize = 0;
            while i < bytes.len()
                invariant
                    i <= bytes@.len(),
                    newline == ending.bytes().len(),
                    len == before + text::rewrite_newlines(
                        bytes@.take(i as int),
                        ending.bytes(),
                    ).len(),
                    before + text::rewrite_newlines(bytes@, ending.bytes()).len() <= rope_bytes(
                        self@,
                        ending,
                    ).len(),
                decreases bytes@.len() - i,
            {
                proof {
                    assert(bytes@.take(i + 1).drop_last() =~= bytes@.take(i as int));
                    lemma_rewrite_newlines_take(bytes@, i + 1, ending.bytes());
                }
                let more: usize = if bytes[i] == 0x0a {
                    newline
                } else {
                    1
                };
                match len.checked_add(more) {
                    Some(sum) => {
                        len = sum;
                    },
                    None => {
                        return None;
                    },
                }
                i = i + 1;
            }
            assert(bytes@.take(i as int) =~= bytes@);
            k = k + 1;
        }
        assert(chunks.take(k as int) =~= chunks);
        Some(len)
    }
}

/// Appends `chunk` to `out`, with `ending` for every `\n`.
fn append_with_line_ending(out: &mut String, chunk: &str, ending: &str)
    ensures
        final(out)@ == old(out)@ + text::with_line_ending(chunk@, ending@),
{
    let ghost start = out@;
    let mut rest: &str = chunk;
    loop
        invariant_except_break
            out@ + text::with_line_ending(rest@, ending@)
                == start + text::with_line_ending(chunk@, ending@),
        ensures
            out@ == start + text::with_line_ending(chunk@, ending@),
        decreases encode_utf8(rest@).len(),
    {
        let bytes = rest.as_bytes();
        let at = find_newline(bytes, 0);
        proof {
            encode_utf8_valid_utf8(rest@);
            is_char_boundary_start_end_of_seq(bytes@);
        }
        if at == bytes.len() {
            proof {
                text::lemma_no_newline(rest@, ending@);
            }
            out.append(rest);
            break;
        }
        proof {
            is_char_boundary_iff_not_is_continuation_byte(bytes@, at as int);
            assert(!is_continuation_byte(0x0au8)) by (bit_vector);
        }
        let (line, tail) = rest.split_at(at);
        proof {
            encode_utf8_valid_utf8(tail@);
            text::lemma_first_newline(line@, tail@, rest@, at as int, ending@);
        }
        let (_, next) = tail.split_at(1);
        proof {
            text::lemma_after_newline(tail@, next@, ending@);
            text::lemma_with_line_ending_concat(line@, tail@, ending@);
        }
        let ghost before = out@;
        out.append(line);
        out.append(ending);
        assert(out@ + text::with_line_ending(next@, ending@) =~= before + (line@ + (ending@
            + text::with_line_ending(next@, ending@))));
        rest = next;
    }
}

/// Returns the text of `rope` with `ending` for every `\n`.
pub fn rope_text_with_line_endings(rope: &Rope, ending: LineEnding) -> (text: String)
    ensures
        text@ == text::with_line_ending(parts::join(rope@), ending.chars()),
{
    let ghost chunks = rope@;
    let newline = ending.as_str();
    let mut out = String::new();
    let mut k: usize = 0;
    assert(chunks.take(0) =~= Seq::empty());
    while k < rope.chunks.len()
        invariant
            k <= rope.chunks@.len(),
            chunks == rope@,
            newline@ == ending.chars(),
            out@ == text::with_line_ending(parts::join(chunks.take(k as int)), ending.chars()),
        decreases rope.chunks@.len() - k,
    {
        proof {
            assert(chunks.take(k + 1) =~= chunks.take(k as int).push(chunks[k as int]));
            parts::lemma_join_push(chunks.take(k as int), chunks[k as int]);
            text::lemma_with_line_ending_concat(
                parts::join(chunks.take(k as int)),
                chunks[k as int],
                ending.chars(),
            );
        }
        append_with_line_ending(&mut out, rope.chunks[k].as_str(), newline);
        k = k + 1;
    }
    assert(chunks.take(k as int) =~= chunks);
    out
}

} // verus!
