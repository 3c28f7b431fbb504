//! What the writes of a save are: the bytes of the document in order, in pieces of
//! bounded size, with a progress that counts them.
use crate::document::Document;
use crate::parts;
use crate::piece_table;
use crate::piece_table::Piece;
use crate::rope;
use crate::stream;
use crate::stream::WriteStep;
use crate::text;
use crate::text::LineEnding;
use vstd::prelude::*;
use vstd::utf8::*;

verus! {

/// The progress behind a write is that behind the write before it, and before the
/// first none, with the bytes of the write added, but no more than the total.
pub proof fn law_progress_counts_the_bytes(
    steps: Seq<WriteStep>,
    writes: Seq<Seq<u8>>,
    total: u64,
    i: int,
)
    requires
        stream::streams(steps, writes, total),
        0 <= i < steps.len(),
    ensures
        steps.len() == writes.len(),
        steps[i].bytes@ == writes[i],
        ({
            let before = if i == 0 {
                0int
            } else {
                steps[i - 1].progress as int
            };
            let sum = before + steps[i].bytes@.len();
            steps[i].progress == (if sum <= total {
                sum
            } else {
                total as int
            })
        }),
{
    assert(writes.take(i + 1) =~= writes.take(i).push(writes[i]));
    parts::lemma_join_push(writes.take(i), writes[i]);
    if i == 0 {
        assert(writes.take(0) =~= Seq::empty());
    } else {
        assert(steps[i - 1].bytes@ == writes[i - 1]);
    }
}

/// The chunks of bytes make up the bytes, and there are none of no bytes.
pub proof fn law_chunks_make_up_the_bytes(bytes: Seq<u8>)
    ensures
        parts::join(stream::chunk_writes(bytes)) == bytes,
        bytes.len() == 0 ==> stream::chunk_writes(bytes).len() == 0,
{
    stream::lemma_chunk_writes_join(bytes, stream::chunk_count(bytes.len()) as int);
}

/// The writes of pieces are those of the first pieces and behind them those of the
/// others, and those of one piece are the chunks of its bytes.
pub proof fn law_writes_of_pieces(
    original: Seq<u8>,
    add: Seq<u8>,
    a: Seq<Piece>,
    b: Seq<Piece>,
    piece: Piece,
)
    ensures
        stream::piece_writes(original, add, a + b) == stream::piece_writes(original, add, a)
            + stream::piece_writes(original, add, b),
        stream::piece_writes(original, add, seq![piece]) == stream::chunk_writes(
            piece_table::pieces_bytes(original, add, seq![piece]),
        ),
        parts::join(stream::piece_writes(original, add, a)) == piece_table::pieces_bytes(
            original,
            add,
            a,
        ),
    decreases b.len(),
{
    reveal_with_fuel(piece_table::pieces_bytes, 2);
    reveal_with_fuel(stream::piece_writes, 2);
    stream::lemma_piece_writes_join(original, add, a);
    assert(seq![piece].drop_last() =~= Seq::<Piece>::empty());
    assert(piece_table::pieces_bytes(original, add, seq![piece]) =~= piece.bytes(original, add));
    assert(stream::piece_writes(original, add, seq![piece]) =~= stream::chunk_writes(
        piece.bytes(original, add),
    ));
    if b.len() == 0 {
        assert(a + b =~= a);
        assert(stream::piece_writes(original, add, a + b) =~= stream::piece_writes(
            original,
            add,
            a,
        ) + stream::piece_writes(original, add, b));
    } else {
        law_writes_of_pieces(original, add, a, b.drop_last(), piece);
        assert((a + b).drop_last() =~= a + b.drop_last());
        assert(stream::piece_writes(original, add, a + b) =~= stream::piece_writes(
            original,
            add,
            a,
        ) + stream::piece_writes(original, add, b));
    }
}

/// A rope with lines that end with `\n` is written chunk by chunk, each as its UTF-8.
pub proof fn law_writes_of_a_rope(chunks: Seq<Seq<char>>, k: int)
    requires
        0 <= k < chunks.len(),
    ensures
        stream::rope_writes(chunks, LineEnding::Lf).len() == chunks.len(),
        stream::rope_writes(chunks, LineEnding::Lf)[k] == encode_utf8(chunks[k]),
    decreases chunks.len(),
{
    if chunks.len() > 1 {
        let init = chunks.drop_last();
        law_writes_of_a_rope(init, if k < init.len() {
            k
        } else {
            0
        });
    } else {
        assert(chunks.drop_last() =~= Seq::empty());
        reveal_with_fuel(stream::rope_writes, 2);
    }
}

/// With any other line ending, what is written of a chunk is lines and line endings in
/// turn: a write is the line ending, or it is a run of bytes that holds no newline, is
/// not empty, and has a line ending or the end of the chunk behind it.
pub proof fn law_writes_of_lines(bytes: Seq<u8>, from: int, ending: Seq<u8>, i: int)
    requires
        0 <= from <= bytes.len(),
        0 <= i < stream::newline_writes(bytes, from, ending).len(),
    ensures
        ({
            let writes = stream::newline_writes(bytes, from, ending);
            ||| writes[i] == ending
            ||| {
                &&& writes[i].len() > 0
                &&& forall|k: int| 0 <= k < writes[i].len() ==> writes[i][k] != 0x0a
                &&& i + 1 < writes.len() ==> writes[i + 1] == ending
            }
        }),
    decreases bytes.len() - from,
{
    text::lemma_next_newline(bytes, from);
    let at = text::next_newline(bytes, from);
    let writes = stream::newline_writes(bytes, from, ending);
    let first = if from < at {
        1int
    } else {
        0int
    };
    if at < bytes.len() && i > first {
        let rest = stream::newline_writes(bytes, at + 1, ending);
        law_writes_of_lines(bytes, at + 1, ending, i - first - 1);
        assert(writes[i] == rest[i - first - 1]);
        if i + 1 < writes.len() {
            assert(writes[i + 1] == rest[i - first]);
        }
    }
}

/// A rope is written chunk by chunk, whatever its line ending.
pub proof fn law_rope_is_written_by_chunks(
    chunks: Seq<Seq<char>>,
    chunk: Seq<char>,
    ending: LineEnding,
)
    ensures
        stream::rope_writes(Seq::empty(), ending).len() == 0,
        ending != LineEnding::Lf ==> stream::rope_writes(chunks.push(chunk), ending)
            == stream::rope_writes(chunks, ending) + stream::newline_writes(
            encode_utf8(chunk),
            0,
            ending.bytes(),
        ),
        parts::join(stream::rope_writes(chunks, ending)) == rope::rope_bytes(chunks, ending),
{
    assert(chunks.push(chunk).drop_last() =~= chunks);
    stream::lemma_rope_writes_join(chunks, ending);
}

/// What the bytes of a document are: those of the pieces at which its piece table
/// stands, or else the text of its rope in UTF-8 with its line ending, or else those of
/// the file that it was opened from, or none.
pub proof fn law_bytes_of_a_document(doc: Document)
    requires
        doc@.wf(),
    ensures
        doc.piece_table matches Some(table) ==> doc@.content() == piece_table::pieces_bytes(
            table.original.data@,
            table.add@,
            table.pieces.roots@[table.pieces.current as int].pieces@,
        ),
        doc.piece_table is None ==> (doc.rope matches Some(rope) ==> doc@.content()
            == encode_utf8(
            text::with_line_ending(
                parts::join(rope.chunks@.map_values(|chunk: String| chunk@)),
                doc.line_ending.chars(),
            ),
        )),
        doc.piece_table is None && doc.rope is None ==> (doc.storage matches Some(storage)
            ==> doc@.content() == storage.data@),
        doc.piece_table is None && doc.rope is None && doc.storage is None ==> doc@.content()
            == Seq::<u8>::empty(),
{
}

/// A document is valid where its piece table is, where it has one, and a `usize` counts
/// the bytes that its rope is saved as, where it has one. Nothing else is asked of it.
pub proof fn law_valid_documents(doc: Document)
    ensures
        doc@.wf() <==> {
            &&& doc.piece_table matches Some(table) ==> table@.wf()
            &&& doc.rope matches Some(rope) ==> encode_utf8(
                text::with_line_ending(
                    parts::join(rope.chunks@.map_values(|chunk: String| chunk@)),
                    doc.line_ending.chars(),
                ),
            ).len() <= usize::MAX
        },
{
}

/// What the text of a document is: that of its rope with its line ending, or else what
/// its bytes are read as.
pub proof fn law_text_of_a_document(doc: Document)
    ensures
        doc.rope matches Some(rope) ==> doc@.text() == text::with_line_ending(
            parts::join(rope.chunks@.map_values(|chunk: String| chunk@)),
            doc.line_ending.chars(),
        ),
        doc.rope is None ==> doc@.text() == text::lossy_text(doc@.content()),
{
}

} // verus!
