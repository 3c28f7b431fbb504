//! Saving as a stream: the writes that put a document into a file, in order, each
//! with the progress to report behind it.
use crate::parts;
use crate::piece_table;
use crate::piece_table::{Piece, PieceSource, PieceTable};
use crate::rope;
use crate::rope::Rope;
use crate::storage::{FileStorage, StorageView};
use crate::text;
use crate::text::{find_newline, LineEnding};
use vstd::prelude::*;
use vstd::utf8::*;

verus! {

/// How many bytes a write has at most, where the bytes could be written at once.
pub const SAVE_STREAM_CHUNK_BYTES: usize = 1_048_576;

/// A write, and how many bytes are to be reported as written behind it.
#[derive(Debug)]
pub struct WriteStep<'a> {
    pub bytes: &'a [u8],
    pub progress: u64,
}

/// `len`, but no more than `total`.
pub open spec fn capped(len: nat, total: u64) -> nat {
    if len <= total {
        len
    } else {
        total as nat
    }
}

/// The steps are these writes, in order, and behind each the bytes written so far
/// are reported, but no more than `total`.
pub open spec fn streams(steps: Seq<WriteStep>, writes: Seq<Seq<u8>>, total: u64) -> bool {
    &&& steps.len() == writes.len()
    &&& forall|i: int|
        0 <= i < steps.len() ==> (#[trigger] steps[i]).bytes@ == writes[i] && steps[i].progress
            == capped(parts::join(writes.take(i + 1)).len(), total)
}

/// The bytes that the steps write, one step after the other.
pub open spec fn streamed(steps: Seq<WriteStep>) -> Seq<u8> {
    parts::join(Seq::new(steps.len(), |i: int| steps[i].bytes@))
}

/// Adds a write to the steps. `done` is the progress so far; the progress behind
/// the write is returned.
fn add_step<'a>(
    steps: &mut Vec<WriteStep<'a>>,
    done: u64,
    bytes: &'a [u8],
    total: u64,
    Ghost(writes): Ghost<Seq<Seq<u8>>>,
) -> (next: u64)
    requires
        streams(old(steps)@, writes, total),
        done == capped(parts::join(writes).len(), total),
    ensures
        streams(final(steps)@, writes.push(bytes@), total),
        next == capped(parts::join(writes.push(bytes@)).len(), total),
{
    let sum = done.saturating_add(bytes.len() as u64);
    let next = if sum <= total {
        sum
    } else {
        total
    };
    steps.push(WriteStep { bytes, progress: next });
    proof {
        parts::lemma_join_push(writes, bytes@);
        let after = writes.push(bytes@);
        assert(after.take(after.len() as int) =~= after);
        assert forall|i: int| 0 <= i < steps@.len() implies (#[trigger] steps@[i]).bytes@
            == after[i] && steps@[i].progress == capped(
            parts::join(after.take(i + 1)).len(),
            total,
        ) by {
            if i < writes.len() {
                assert(steps@[i] == old(steps)@[i]);
                assert(after.take(i + 1) =~= writes.take(i + 1));
            }
        }
    }
    next
}

/// How many writes `len` bytes take.
pub open spec fn chunk_count(len: nat) -> nat {
    ((len + SAVE_STREAM_CHUNK_BYTES - 1) / SAVE_STREAM_CHUNK_BYTES as int) as nat
}

/// Where the first `i` writes of `len` bytes end.
pub open spec fn chunk_end(len: nat, i: int) -> int {
    if i * SAVE_STREAM_CHUNK_BYTES <= len {
        i * SAVE_STREAM_CHUNK_BYTES
    } else {
        len as int
    }
}

/// The writes of `bytes`: full chunks, and what is left behind them.
pub open spec fn chunk_writes(bytes: Seq<u8>) -> Seq<Seq<u8>> {
    Seq::new(
        chunk_count(bytes.len()),
        |i: int| bytes.subrange(chunk_end(bytes.len(), i), chunk_end(bytes.len(), i + 1)),
    )
}

/// The writes of `len` bytes reach the end with the last one, and not before.
pub proof fn lemma_chunk_count(len: nat, i: int)
    requires
        0 <= i,
    ensures
        chunk_end(len, i) == len <==> i >= chunk_count(len),
{
    assert(SAVE_STREAM_CHUNK_BYTES == 1048576);
    let n = chunk_count(len);
    assert(n * 1048576 >= len && (n - 1) * 1048576 < len) by {
        assert(n == (len + 1048575) / 1048576);
    }
}

/// The writes of `bytes` write `bytes`.
pub proof fn lemma_chunk_writes_join(bytes: Seq<u8>, n: int)
    requires
        0 <= n <= chunk_count(bytes.len()),
    ensures
        parts::join(chunk_writes(bytes).take(n)) == bytes.subrange(0, chunk_end(bytes.len(), n)),
        n == chunk_count(bytes.len()) ==> parts::join(chunk_writes(bytes)) == bytes,
    decreases n,
{
    let writes = chunk_writes(bytes);
    if n == 0 {
        assert(writes.take(0) =~= Seq::empty());
        assert(bytes.subrange(0, 0) =~= Seq::empty());
    } else {
        lemma_chunk_writes_join(bytes, n - 1);
        assert(writes.take(n) =~= writes.take(n - 1).push(writes[n - 1]));
        parts::lemma_join_push(writes.take(n - 1), writes[n - 1]);
        assert(bytes.subrange(0, chunk_end(bytes.len(), n)) =~= bytes.subrange(
            0,
            chunk_end(bytes.len(), n - 1),
        ) + writes[n - 1]);
    }
    if n == chunk_count(bytes.len()) {
        lemma_chunk_count(bytes.len(), n);
        assert(writes.take(n) =~= writes);
        assert(bytes.subrange(0, chunk_end(bytes.len(), n)) =~= bytes);
    }
}

/// Adds the writes of the bytes of `src` from `start` up to `end` to the steps.
fn add_chunks<'a>(
    steps: &mut Vec<WriteStep<'a>>,
    done: u64,
    src: &'a [u8],
    start: usize,
    end: usize,
    total: u64,
    Ghost(writes): Ghost<Seq<Seq<u8>>>,
) -> (next: u64)
    requires
        start <= end <= src@.len(),
        streams(old(steps)@, writes, total),
        done == capped(parts::join(writes).len(), total),
    ensures
        streams(
            final(steps)@,
            writes + chunk_writes(src@.subrange(start as int, end as int)),
            total,
        ),
        next == capped(
            parts::join(writes + chunk_writes(src@.subrange(start as int, end as int))).len(),
            total,
        ),
{
    let ghost bytes = src@.subrange(start as int, end as int);
    let ghost chunks = chunk_writes(bytes);
    let ghost mut k: int = 0;
    let mut next: u64 = done;
    let mut pos: usize = start;
    proof {
        lemma_chunk_count(bytes.len(), 0);
        assert(writes + chunks.take(0) =~= writes);
    }
    while pos < end
        invariant
            start <= pos <= end <= src@.len(),
            bytes == src@.subrange(start as int, end as int),
            chunks == chunk_writes(bytes),
            0 <= k <= chunks.len(),
            pos == start + chunk_end(bytes.len(), k),
            pos == end <==> k == chunks.len(),
            streams(steps@, writes + chunks.take(k), total),
            next == capped(parts::join(writes + chunks.take(k)).len(), total),
        decreases end - pos,
    {
        let chunk_end = if end - pos <= SAVE_STREAM_CHUNK_BYTES {
            end
        } else {
            pos + SAVE_STREAM_CHUNK_BYTES
        };
        let chunk = vstd::slice::slice_subrange(src, pos, chunk_end);
        assert(chunk@ =~= chunks[k]);
        next = add_step(steps, next, chunk, total, Ghost(writes + chunks.take(k)));
        pos = chunk_end;
        proof {
            assert((writes + chunks.take(k)).push(chunk@) =~= writes + chunks.take(k + 1));
            k = k + 1;
            lemma_chunk_count(bytes.len(), k);
        }
    }
    assert(chunks.take(k) =~= chunks);
    next
}

/// Returns the writes that put `bytes` into a file.
pub fn write_bytes_chunked<'a>(bytes: &'a [u8], total: u64) -> (steps: Vec<WriteStep<'a>>)
    ensures
        streams(steps@, chunk_writes(bytes@), total),
{
    let mut steps: Vec<WriteStep<'a>> = Vec::new();
    let ghost none = Seq::<Seq<u8>>::empty();
    let len = bytes.len();
    let _ = add_chunks(&mut steps, 0, bytes, 0, len, total, Ghost(none));
    proof {
        assert(bytes@.subrange(0, len as int) =~= bytes@);
        assert(none + chunk_writes(bytes@) =~= chunk_writes(bytes@));
    }
    steps
}

/// The writes of `bytes` from `from` on, with `ending` in the place of every newline
/// byte: what stands before a newline, where anything does, the line ending, and so
/// on, and what stands behind the last newline, where anything does.
pub open spec fn newline_writes(bytes: Seq<u8>, from: int, ending: Seq<u8>) -> Seq<Seq<u8>>
    decreases bytes.len() - from,
{
    if from < 0 || from >= bytes.len() {
        Seq::empty()
    } else {
        proof {
            text::lemma_next_newline(bytes, from);
        }
        let at = text::next_newline(bytes, from);
        let line = if from < at {
            seq![bytes.subrange(from, at)]
        } else {
            Seq::empty()
        };
        if at >= bytes.len() {
            line
        } else {
            line.push(ending) + newline_writes(bytes, at + 1, ending)
        }
    }
}

/// The writes with newlines replaced write the bytes with newlines replaced.
pub proof fn lemma_newline_writes_join(bytes: Seq<u8>, from: int, ending: Seq<u8>)
    requires
        0 <= from <= bytes.len(),
    ensures
        parts::join(newline_writes(bytes, from, ending)) == text::rewrite_newlines(
            bytes.skip(from),
            ending,
        ),
    decreases bytes.len() - from,
{
    let rest = bytes.skip(from);
    if from == bytes.len() {
        assert(rest =~= Seq::empty());
    } else {
        text::lemma_next_newline(bytes, from);
        let at = text::next_newline(bytes, from);
        let run = bytes.subrange(from, at);
        let line = if from < at {
            seq![run]
        } else {
            Seq::empty()
        };
        assert(parts::join(line) == run) by {
            if from < at {
                parts::lemma_join_one(run);
            } else {
                assert(run =~= Seq::empty());
            }
        }
        text::lemma_rewrite_newlines_none(run, ending);
        if at < bytes.len() {
            let newline = seq![0x0au8];
            let behind = bytes.skip(at + 1);
            lemma_newline_writes_join(bytes, at + 1, ending);
            parts::lemma_join_push(line, ending);
            parts::lemma_join_concat(line.push(ending), newline_writes(bytes, at + 1, ending));
            assert(rest =~= run + newline + behind);
            text::lemma_rewrite_newlines_concat(run + newline, behind, ending);
            text::lemma_rewrite_newlines_concat(run, newline, ending);
            text::lemma_rewrite_newlines_one(ending);
        } else {
            assert(rest =~= run);
        }
    }
}

/// The writes of a rope with these chunks: the chunks as they are, where lines end
/// with `\n`, and else chunk by chunk with newlines replaced.
pub open spec fn rope_writes(chunks: Seq<Seq<char>>, ending: LineEnding) -> Seq<Seq<u8>>
    decreases chunks.len(),
{
    if chunks.len() == 0 {
        Seq::empty()
    } else {
        rope_writes(chunks.drop_last(), ending) + (if ending == LineEnding::Lf {
            seq![encode_utf8(chunks.last())]
        } else {
            newline_writes(encode_utf8(chunks.last()), 0, ending.bytes())
        })
    }
}

/// The writes of a rope write the bytes that it is saved as.
pub proof fn lemma_rope_writes_join(chunks: Seq<Seq<char>>, ending: LineEnding)
    ensures
        parts::join(rope_writes(chunks, ending)) == rope::rope_bytes(chunks, ending),
    decreases chunks.len(),
{
    if chunks.len() == 0 {
        assert(rope::rope_bytes(chunks, ending) =~= Seq::empty());
    } else {
        let init = chunks.drop_last();
        let last = chunks.last();
        let bytes = encode_utf8(last);
        lemma_rope_writes_join(init, ending);
        assert(chunks =~= init.push(last));
        rope::lemma_rope_bytes_push(init, last, ending);
        if ending == LineEnding::Lf {
            parts::lemma_join_concat(rope_writes(init, ending), seq![bytes]);
            parts::lemma_join_one(bytes);
            text::lemma_line_endings_in_utf8(last, ending.chars());
            text::lemma_with_line_ending_lf(last);
        } else {
            parts::lemma_join_concat(
                rope_writes(init, ending),
                newline_writes(bytes, 0, ending.bytes()),
            );
            lemma_newline_writes_join(bytes, 0, ending.bytes());
            assert(bytes.skip(0) =~= bytes);
        }
    }
}

/// Adds the writes of one chunk, with `newline` in the place of every newline byte.
fn add_lines<'a>(
    steps: &mut Vec<WriteStep<'a>>,
    done: u64,
    bytes: &'a [u8],
    newline: &'a [u8],
    total: u64,
    Ghost(writes): Ghost<Seq<Seq<u8>>>,
) -> (next: u64)
    requires
        streams(old(steps)@, writes, total),
        done == capped(parts::join(writes).len(), total),
    ensures
        streams(final(steps)@, writes + newline_writes(bytes@, 0, newline@), total),
        next == capped(parts::join(writes + newline_writes(bytes@, 0, newline@)).len(), total),
{
    let ghost all = newline_writes(bytes@, 0, newline@);
    let ghost mut so_far = Seq::<Seq<u8>>::empty();
    let mut next: u64 = done;
    let mut start: usize = 0;
    assert(writes + so_far =~= writes);
    assert(all =~= so_far + newline_writes(bytes@, 0, newline@));
    while start < bytes.len()
        invariant
            start <= bytes@.len(),
            all == newline_writes(bytes@, 0, newline@),
            all == so_far + newline_writes(bytes@, start as int, newline@),
            streams(steps@, writes + so_far, total),
            next == capped(parts::join(writes + so_far).len(), total),
        decreases bytes@.len() - start,
    {
        let at = find_newline(bytes, start);
        let ghost before = so_far;
        if start < at {
            let run = vstd::slice::slice_subrange(bytes, start, at);
            next = add_step(steps, next, run, total, Ghost(writes + so_far));
            proof {
                assert((writes + so_far).push(run@) =~= writes + so_far.push(run@));
                so_far = so_far.push(run@);
            }
        }
        if at < bytes.len() {
            next = add_step(steps, next, newline, total, Ghost(writes + so_far));
            proof {
                assert((writes + so_far).push(newline@) =~= writes + so_far.push(newline@));
                so_far = so_far.push(newline@);
                assert(before + newline_writes(bytes@, start as int, newline@) =~= so_far
                    + newline_writes(bytes@, at + 1, newline@));
            }
            start = at + 1;
        } else {
            proof {
                assert(newline_writes(bytes@, at as int, newline@) =~= Seq::empty());
                assert(before + newline_writes(bytes@, start as int, newline@) =~= so_far
                    + newline_writes(bytes@, at as int, newline@));
            }
            start = at;
        }
    }
    assert(newline_writes(bytes@, start as int, newline@) =~= Seq::empty());
    assert(all =~= so_far);
    next
}

/// Returns the writes that put `rope` into a file, with lines ended by
/// `line_ending`.
pub fn write_rope_snapshot<'a>(rope: &'a Rope, line_ending: LineEnding, total: u64) -> (steps: Vec<
    WriteStep<'a>,
>)
    ensures
        streams(steps@, rope_writes(rope@, line_ending), total),
{
    let mut steps: Vec<WriteStep<'a>> = Vec::new();
    let newline = line_ending.as_str().as_bytes();
    let ghost chunks = rope@;
    let mut done: u64 = 0;
    let mut k: usize = 0;
    assert(chunks.take(0) =~= Seq::empty());
    while k < rope.chunks.len()
        invariant
            k <= rope.chunks@.len(),
            chunks == rope@,
            newline@ == line_ending.bytes(),
            streams(steps@, rope_writes(chunks.take(k as int), line_ending), total),
            done == capped(
                parts::join(rope_writes(chunks.take(k as int), line_ending)).len(),
                total,
            ),
        decreases rope.chunks@.len() - k,
    {
        let bytes = rope.chunks[k].as_str().as_bytes();
        let ghost writes = rope_writes(chunks.take(k as int), line_ending);
        proof {
            assert(bytes@ == encode_utf8(chunks[k as int]));
            assert(chunks.take(k + 1).drop_last() =~= chunks.take(k as int));
        }
        if line_ending == LineEnding::Lf {
            done = add_step(&mut steps, done, bytes, total, Ghost(writes));
            assert(writes.push(bytes@) =~= writes + seq![bytes@]);
        } else {
            done = add_lines(&mut steps, done, bytes, newline, total, Ghost(writes));
        }
        k = k + 1;
    }
    assert(chunks.take(k as int) =~= chunks);
    steps
}

/// The writes of pieces: those of each piece, one piece after the other.
pub open spec fn piece_writes(original: Seq<u8>, add: Seq<u8>, pieces: Seq<Piece>) -> Seq<Seq<u8>>
    decreases pieces.len(),
{
    if pieces.len() == 0 {
        Seq::empty()
    } else {
        piece_writes(original, add, pieces.drop_last()) + chunk_writes(
            pieces.last().bytes(original, add),
        )
    }
}

/// The writes of pieces write the bytes of the pieces.
pub proof fn lemma_piece_writes_join(original: Seq<u8>, add: Seq<u8>, pieces: Seq<Piece>)
    ensures
        parts::join(piece_writes(original, add, pieces)) == piece_table::pieces_bytes(
            original,
            add,
            pieces,
        ),
    decreases pieces.len(),
{
    if pieces.len() > 0 {
        let bytes = pieces.last().bytes(original, add);
        lemma_piece_writes_join(original, add, pieces.drop_last());
        parts::lemma_join_concat(
            piece_writes(original, add, pieces.drop_last()),
            chunk_writes(bytes),
        );
        lemma_chunk_writes_join(bytes, chunk_count(bytes.len()) as int);
    }
}

/// The document that a piece table holds, apart from its history.
#[derive(Clone, Debug)]
pub struct PieceTableSnapshot {
    pub original: FileStorage,
    pub add: Vec<u8>,
    pub pieces: Vec<Piece>,
}

impl PieceTableSnapshot {
    /// The snapshot of the document that `piece_table` holds.
    pub fn from_piece_table(piece_table: &PieceTable) -> (snapshot: Self)
        requires
            piece_table@.wf(),
        ensures
            snapshot.original@ == piece_table@.original,
            snapshot.add@ == piece_table@.add,
            snapshot.pieces@ == piece_table@.root().pieces,
    {
        let mut add: Vec<u8> = Vec::new();
        add.extend_from_slice(piece_table.add.as_slice());
        let mut pieces: Vec<Piece> = Vec::new();
        pieces.extend_from_slice(piece_table.pieces.root().pieces.as_slice());
        assert(add@ =~= piece_table@.add);
        assert(pieces@ =~= piece_table@.root().pieces);
        PieceTableSnapshot { original: piece_table.original.clone(), add, pieces }
    }

    /// Returns the bytes among which pieces of `src` lie.
    pub fn source_bytes(&self, src: PieceSource) -> (bytes: &[u8])
        ensures
            bytes@ == (match src {
                PieceSource::Original => self.original@.bytes,
                PieceSource::Add => self.add@,
            }),
    {
        match src {
            PieceSource::Original => {
                let len = self.original.len();
                let bytes = self.original.read_range(0, len);
                assert(bytes@ =~= self.original@.bytes);
                bytes
            },
            PieceSource::Add => self.add.as_slice(),
        }
    }

    /// Returns the writes that put the document into a file.
    pub fn write_to(&self, total: u64) -> (steps: Vec<WriteStep<'_>>)
        requires
            piece_table::all_fit(self.original@.bytes, self.add@, self.pieces@),
        ensures
            streams(
                steps@,
                piece_writes(self.original@.bytes, self.add@, self.pieces@),
                total,
            ),
    {
        let mut steps: Vec<WriteStep<'_>> = Vec::new();
        let ghost original = self.original@.bytes;
        let ghost add = self.add@;
        let ghost pieces = self.pieces@;
        let mut done: u64 = 0;
        let mut i: usize = 0;
        assert(pieces.take(0) =~= Seq::empty());
        while i < self.pieces.len()
            invariant
                i <= pieces.len(),
                original == self.original@.bytes,
                add == self.add@,
                pieces == self.pieces@,
                piece_table::all_fit(original, add, pieces),
                streams(steps@, piece_writes(original, add, pieces.take(i as int)), total),
                done == capped(
                    parts::join(piece_writes(original, add, pieces.take(i as int))).len(),
                    total,
                ),
            decreases pieces.len() - i,
        {
            let piece = self.pieces[i];
            let src = self.source_bytes(piece.src);
            let src_len = src.len();
            assert(pieces[i as int].fits(original, add));
            assert(pieces.take(i + 1).drop_last() =~= pieces.take(i as int));
            let end = piece.start + piece.len;
            done = add_chunks(
                &mut steps,
                done,
                src,
                piece.start,
                end,
                total,
                Ghost(piece_writes(original, add, pieces.take(i as int))),
            );
            i = i + 1;
        }
        assert(pieces.take(i as int) =~= pieces);
        steps
    }
}

/// What a save writes.
#[verifier::ext_equal]
pub enum SnapshotView {
    Empty,
    Bytes(Seq<u8>),
    Mmap(StorageView),
    Rope { chunks: Seq<Seq<char>>, line_ending: LineEnding },
    PieceTable { original: StorageView, add: Seq<u8>, pieces: Seq<Piece> },
}

impl SnapshotView {
    /// The pieces of the snapshot lie within their sources.
    pub open spec fn wf(self) -> bool {
        self matches SnapshotView::PieceTable { original, add, pieces } ==> piece_table::all_fit(
            original.bytes,
            add,
            pieces,
        )
    }

    /// The writes that put the snapshot into a file.
    pub open spec fn writes(self) -> Seq<Seq<u8>> {
        match self {
            SnapshotView::Empty => Seq::empty(),
            SnapshotView::Bytes(bytes) => chunk_writes(bytes),
            SnapshotView::Mmap(storage) => chunk_writes(storage.bytes),
            SnapshotView::Rope { chunks, line_ending } => rope_writes(chunks, line_ending),
            SnapshotView::PieceTable { original, add, pieces } => piece_writes(
                original.bytes,
                add,
                pieces,
            ),
        }
    }

    /// The bytes of the file that the snapshot makes.
    pub open spec fn content(self) -> Seq<u8> {
        match self {
            SnapshotView::Empty => Seq::empty(),
            SnapshotView::Bytes(bytes) => bytes,
            SnapshotView::Mmap(storage) => storage.bytes,
            SnapshotView::Rope { chunks, line_ending } => rope::rope_bytes(chunks, line_ending),
            SnapshotView::PieceTable { original, add, pieces } => piece_table::pieces_bytes(
                original.bytes,
                add,
                pieces,
            ),
        }
    }
}

/// What a save writes, fixed at the moment at which the save was prepared.
#[derive(Clone, Debug)]
pub enum SaveSnapshot {
    /// Nothing.
    Empty,
    /// Bytes in the encoding that is to be written.
    Bytes(Vec<u8>),
    /// The file that the document was opened from.
    Mmap(FileStorage),
    /// The text of a rope.
    Rope { rope: Rope, line_ending: LineEnding },
    /// The pieces of a piece table.
    PieceTable(PieceTableSnapshot),
}

impl View for SaveSnapshot {
    type V = SnapshotView;

    open spec fn view(&self) -> SnapshotView {
        match *self {
            SaveSnapshot::Empty => SnapshotView::Empty,
            SaveSnapshot::Bytes(bytes) => SnapshotView::Bytes(bytes@),
            SaveSnapshot::Mmap(storage) => SnapshotView::Mmap(storage@),
            SaveSnapshot::Rope { rope, line_ending } => SnapshotView::Rope {
                chunks: rope@,
                line_ending,
            },
            SaveSnapshot::PieceTable(snapshot) => SnapshotView::PieceTable {
                original: snapshot.original@,
                add: snapshot.add@,
                pieces: snapshot.pieces@,
            },
        }
    }
}

/// Returns the writes that put `snapshot` into a file.
pub fn write_snapshot<'a>(snapshot: &'a SaveSnapshot, total: u64) -> (steps: Vec<WriteStep<'a>>)
    requires
        snapshot@.wf(),
    ensures
        streams(steps@, snapshot@.writes(), total),
{
    match snapshot {
        SaveSnapshot::Empty => Vec::new(),
        SaveSnapshot::Bytes(bytes) => write_bytes_chunked(bytes.as_slice(), total),
        SaveSnapshot::Mmap(storage) => {
            let len = storage.len();
            let bytes = storage.read_range(0, len);
            assert(bytes@ =~= storage@.bytes);
            write_bytes_chunked(bytes, total)
        },
        SaveSnapshot::Rope { rope, line_ending } => write_rope_snapshot(rope, *line_ending, total),
        SaveSnapshot::PieceTable(piece_table) => piece_table.write_to(total),
    }
}

/// The step was carried out on `before`, which made `after` of it: its bytes were
/// handed to `write`, which took them, and behind that its progress to `report`.
pub open spec fn step_done<T, W: Fn(T, &[u8]) -> (T, std::io::Result<()>), P: Fn(T, u64) -> T>(
    before: T,
    step: WriteStep,
    write: W,
    report: P,
    after: T,
) -> bool {
    exists|written: T|
        {
            &&& #[trigger] call_ensures(
                write,
                (before, step.bytes),
                (written, Ok::<(), std::io::Error>(())),
            )
            &&& call_ensures(report, (written, step.progress), after)
        }
}

/// The first `n` steps were carried out, one after the other and nothing else with
/// them: `outs` are what they started from and what each of them made of it.
pub open spec fn went_through<
    T,
    W: Fn(T, &[u8]) -> (T, std::io::Result<()>),
    P: Fn(T, u64) -> T,
>(outs: Seq<T>, steps: Seq<WriteStep>, n: int, write: W, report: P) -> bool {
    &&& outs.len() == n + 1
    &&& forall|i: int|
        0 <= i < n ==> step_done(outs[i], #[trigger] steps[i], write, report, outs[i + 1])
}

/// Carries out the steps on `out`, one after the other, up to the first that `write`
/// fails: hands the bytes of each to `write`, and behind it its progress to `report`.
///
/// What is written to goes through the calls, from each to the next, and comes out
/// as the last of them left it.
pub fn write_steps<T, W: Fn(T, &[u8]) -> (T, std::io::Result<()>), P: Fn(T, u64) -> T>(
    steps: &Vec<WriteStep<'_>>,
    out: T,
    write: W,
    report: P,
) -> (result: (T, std::io::Result<()>))
    requires
        forall|to: T, bytes: &[u8], i: int|
            0 <= i < steps@.len() && bytes@ == (#[trigger] steps@[i]).bytes@
                ==> #[trigger] call_requires(write, (to, bytes)),
        forall|to: T, progress: u64, i: int|
            0 <= i < steps@.len() && progress == (#[trigger] steps@[i]).progress
                ==> #[trigger] call_requires(report, (to, progress)),
    ensures
        exists|outs: Seq<T>, n: int|
            {
                &&& #[trigger] went_through(outs, steps@, n, write, report)
                &&& outs[0] == out
                &&& match result.1 {
                    Ok(_) => n == steps@.len() && result.0 == outs[n],
                    Err(source) => 0 <= n < steps@.len() && call_ensures(
                        write,
                        (outs[n], steps@[n].bytes),
                        (result.0, Err::<(), std::io::Error>(source)),
                    ),
                }
            },
{
    let mut sink = out;
    let mut n: usize = 0;
    let ghost mut outs: Seq<T> = seq![sink];
    while n < steps.len()
        invariant
            n <= steps@.len(),
            forall|to: T, bytes: &[u8], i: int|
                0 <= i < steps@.len() && bytes@ == (#[trigger] steps@[i]).bytes@
                    ==> #[trigger] call_requires(write, (to, bytes)),
            forall|to: T, progress: u64, i: int|
                0 <= i < steps@.len() && progress == (#[trigger] steps@[i]).progress
                    ==> #[trigger] call_requires(report, (to, progress)),
            went_through(outs, steps@, n as int, write, report),
            outs[0] == out,
            outs[n as int] == sink,
        decreases steps@.len() - n,
    {
        let step = &steps[n];
        assert(*step == steps@[n as int]);
        let (written, wrote) = write(sink, step.bytes);
        match wrote {
            Ok(taken) => {
                assert(taken == ());
            },
            Err(source) => {
                return (written, Err(source));
            },
        }
        sink = report(written, step.progress);
        proof {
            assert(step_done(outs[n as int], steps@[n as int], write, report, sink));
            outs = outs.push(sink);
        }
        n = n + 1;
    }
    (sink, Ok(()))
}

} // verus!
