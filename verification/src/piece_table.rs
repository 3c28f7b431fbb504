//! Piece tables: edit buffers that describe a document as pieces of the file it
//! was opened from and of the text that was added since.
use crate::compaction::DEFAULT_COMPACTION_SMALL_PIECE_BYTES;
use crate::storage::{FileStorage, StorageView};
use crate::text;
use crate::text::{count_line_breaks_in_bytes, text_from_utf8_lossy};
use vstd::prelude::*;
use vstd::utf8::*;

verus! {

/// Where the bytes of a piece are.
#[derive(Clone, Copy, Debug, PartialEq, Eq, Structural)]
pub enum PieceSource {
    /// In the file that the document was opened from.
    Original,
    /// In the buffer of added text.
    Add,
}

/// A run of bytes of the document.
#[derive(Clone, Copy, Debug, PartialEq, Eq, Structural)]
pub struct Piece {
    pub src: PieceSource,
    pub start: usize,
    pub len: usize,
    pub line_breaks: usize,
}

impl Piece {
    /// The bytes among which the piece lies.
    pub open spec fn source(self, original: Seq<u8>, add: Seq<u8>) -> Seq<u8> {
        match self.src {
            PieceSource::Original => original,
            PieceSource::Add => add,
        }
    }

    /// Whether the piece lies within its source.
    pub open spec fn fits(self, original: Seq<u8>, add: Seq<u8>) -> bool {
        self.start + self.len <= self.source(original, add).len()
    }

    /// The bytes of the piece.
    pub open spec fn bytes(self, original: Seq<u8>, add: Seq<u8>) -> Seq<u8> {
        self.source(original, add).subrange(self.start as int, self.start + self.len)
    }
}

/// Whether every piece lies within its source.
pub open spec fn all_fit(original: Seq<u8>, add: Seq<u8>, pieces: Seq<Piece>) -> bool {
    forall|i: int| 0 <= i < pieces.len() ==> (#[trigger] pieces[i]).fits(original, add)
}

/// The bytes of the pieces, one piece after the other.
pub open spec fn pieces_bytes(original: Seq<u8>, add: Seq<u8>, pieces: Seq<Piece>) -> Seq<u8>
    decreases pieces.len(),
{
    if pieces.len() == 0 {
        Seq::empty()
    } else {
        pieces_bytes(original, add, pieces.drop_last()) + pieces.last().bytes(original, add)
    }
}

/// How many bytes the pieces have together.
pub open spec fn pieces_len(pieces: Seq<Piece>) -> nat
    decreases pieces.len(),
{
    if pieces.len() == 0 {
        0
    } else {
        pieces_len(pieces.drop_last()) + pieces.last().len as nat
    }
}

/// How many line breaks are on record for the pieces together.
pub open spec fn pieces_line_breaks(pieces: Seq<Piece>) -> nat
    decreases pieces.len(),
{
    if pieces.len() == 0 {
        0
    } else {
        pieces_line_breaks(pieces.drop_last()) + pieces.last().line_breaks as nat
    }
}

/// How many lines the pieces are known to have: one more than the line breaks on
/// record, as far as a `usize` counts.
pub open spec fn known_lines(pieces: Seq<Piece>) -> nat {
    if pieces_line_breaks(pieces) + 1 <= usize::MAX {
        pieces_line_breaks(pieces) + 1
    } else {
        usize::MAX as nat
    }
}

/// How many of the pieces have at most `threshold` bytes.
pub open spec fn small_pieces(pieces: Seq<Piece>, threshold: nat) -> nat
    decreases pieces.len(),
{
    if pieces.len() == 0 {
        0
    } else {
        small_pieces(pieces.drop_last(), threshold) + (if pieces.last().len <= threshold {
            1nat
        } else {
            0nat
        })
    }
}

/// The pieces have as many bytes as their lengths say.
pub proof fn lemma_pieces_bytes_len(original: Seq<u8>, add: Seq<u8>, pieces: Seq<Piece>)
    requires
        all_fit(original, add, pieces),
    ensures
        pieces_bytes(original, add, pieces).len() == pieces_len(pieces),
    decreases pieces.len(),
{
    if pieces.len() > 0 {
        assert(pieces.last().fits(original, add));
        assert forall|i: int| 0 <= i < pieces.drop_last().len() implies (
        #[trigger] pieces.drop_last()[i]).fits(original, add) by {
            assert(pieces[i].fits(original, add));
        }
        lemma_pieces_bytes_len(original, add, pieces.drop_last());
    }
}

/// Pieces keep their bytes when text is put behind the added text.
pub proof fn lemma_pieces_keep_bytes(
    original: Seq<u8>,
    add: Seq<u8>,
    more: Seq<u8>,
    pieces: Seq<Piece>,
)
    requires
        all_fit(original, add, pieces),
    ensures
        all_fit(original, add + more, pieces),
        pieces_bytes(original, add + more, pieces) == pieces_bytes(original, add, pieces),
    decreases pieces.len(),
{
    assert forall|i: int| 0 <= i < pieces.len() implies (#[trigger] pieces[i]).fits(
        original,
        add + more,
    ) by {
        assert(pieces[i].fits(original, add));
    }
    if pieces.len() > 0 {
        let last = pieces.last();
        assert(last.fits(original, add));
        assert forall|i: int| 0 <= i < pieces.drop_last().len() implies (
        #[trigger] pieces.drop_last()[i]).fits(original, add) by {
            assert(pieces[i].fits(original, add));
        }
        lemma_pieces_keep_bytes(original, add, more, pieces.drop_last());
        assert(last.bytes(original, add + more) =~= last.bytes(original, add));
    }
}

/// The first pieces have no more bytes than all of them.
pub proof fn lemma_pieces_len_take(pieces: Seq<Piece>, n: int)
    requires
        0 <= n <= pieces.len(),
    ensures
        pieces_len(pieces.take(n)) <= pieces_len(pieces),
    decreases pieces.len() - n,
{
    if n == pieces.len() {
        assert(pieces.take(n) =~= pieces);
    } else {
        assert(pieces.take(n + 1).drop_last() =~= pieces.take(n));
        lemma_pieces_len_take(pieces, n + 1);
    }
}

/// One entry of the history: the pieces, and what is known about them.
#[verifier::ext_equal]
pub struct RootView {
    pub pieces: Seq<Piece>,
    pub total_len: nat,
    pub known_byte_len: nat,
    pub known_line_count: nat,
    pub full_index: bool,
}

impl RootView {
    /// The entry is of these sources and tells the truth about its pieces.
    pub open spec fn wf(self, original: Seq<u8>, add: Seq<u8>) -> bool {
        &&& all_fit(original, add, self.pieces)
        &&& self.total_len == pieces_len(self.pieces)
        &&& self.known_byte_len <= self.total_len
        &&& self.full_index ==> self.known_byte_len == self.total_len
        &&& self.known_line_count == known_lines(self.pieces)
    }
}

/// A piece table: the file, the added text, the history and where in it the
/// document stands.
#[verifier::ext_equal]
pub struct TableView {
    pub original: StorageView,
    pub add: Seq<u8>,
    pub roots: Seq<RootView>,
    pub current: int,
}

impl TableView {
    /// Every entry of the history is valid and the document stands at one.
    pub open spec fn wf(self) -> bool {
        &&& 0 <= self.current < self.roots.len()
        &&& forall|j: int|
            0 <= j < self.roots.len() ==> (#[trigger] self.roots[j]).wf(
                self.original.bytes,
                self.add,
            )
    }

    /// The entry at which the document stands.
    pub open spec fn root(self) -> RootView {
        self.roots[self.current]
    }

    /// The bytes of the document as of entry `j` of the history.
    pub open spec fn entry_bytes(self, j: int) -> Seq<u8> {
        pieces_bytes(self.original.bytes, self.add, self.roots[j].pieces)
    }

    /// The bytes of the document.
    pub open spec fn content(self) -> Seq<u8> {
        self.entry_bytes(self.current)
    }

    /// The table, standing at entry `j` of its history.
    pub open spec fn at(self, j: int) -> TableView {
        TableView { current: j, ..self }
    }
}

/// One entry of the history of a piece table.
#[derive(Debug)]
pub struct PieceRoot {
    pub pieces: Vec<Piece>,
    pub total_len: usize,
    pub known_byte_len: usize,
    pub known_line_count: usize,
    pub full_index: bool,
}

impl View for PieceRoot {
    type V = RootView;

    open spec fn view(&self) -> RootView {
        RootView {
            pieces: self.pieces@,
            total_len: self.total_len as nat,
            known_byte_len: self.known_byte_len as nat,
            known_line_count: self.known_line_count as nat,
            full_index: self.full_index,
        }
    }
}

/// The history of a piece table, oldest entry first, and the entry at which the
/// document stands.
#[derive(Debug)]
pub struct PieceTree {
    pub roots: Vec<PieceRoot>,
    pub current: usize,
}

/// A document as pieces of a file and of added text.
#[derive(Debug)]
pub struct PieceTable {
    pub original: FileStorage,
    pub add: Vec<u8>,
    pub pieces: PieceTree,
}

impl View for PieceTable {
    type V = TableView;

    open spec fn view(&self) -> TableView {
        TableView {
            original: self.original@,
            add: self.add@,
            roots: self.pieces.roots@.map_values(|root: PieceRoot| root@),
            current: self.pieces.current as int,
        }
    }
}

/// How scattered the pieces of a document are.
#[derive(Clone, Copy, Debug, PartialEq, Eq, Structural)]
pub struct FragmentationStats {
    /// Bytes of the document.
    pub total_bytes: usize,
    /// Pieces of the document.
    pub piece_count: usize,
    /// Pieces of at most `small_piece_threshold_bytes` bytes.
    pub small_piece_count: usize,
    /// Up to how many bytes a piece counts as small.
    pub small_piece_threshold_bytes: usize,
}

/// What the session store answered, as the answer of an operation that changed the
/// table before it asked.
pub open spec fn changed(stored: std::io::Result<()>) -> std::io::Result<bool> {
    match stored {
        Ok(_) => Ok(true),
        Err(source) => Err(source),
    }
}

/// `schedule` was handed `table`, and its answer is the answer `result` of an
/// operation that changed the table before it asked.
pub open spec fn scheduled<S: FnOnce(&PieceTable) -> std::io::Result<()>>(
    schedule: S,
    table: PieceTable,
    result: std::io::Result<bool>,
) -> bool {
    exists|stored: std::io::Result<()>| #[trigger]
        call_ensures(schedule, (&table,), stored) && result == changed(stored)
}

/// Returns how many lines the pieces are known to have.
fn count_known_lines(pieces: &Vec<Piece>) -> (lines: usize)
    ensures
        lines == known_lines(pieces@),
{
    let mut lines: usize = 1;
    let mut i: usize = 0;
    assert(pieces@.take(0) =~= Seq::empty());
    while i < pieces.len()
        invariant
            i <= pieces@.len(),
            lines == known_lines(pieces@.take(i as int)),
        decreases pieces@.len() - i,
    {
        assert(pieces@.take(i + 1).drop_last() =~= pieces@.take(i as int));
        lines = lines.saturating_add(pieces[i].line_breaks);
        i = i + 1;
    }
    assert(pieces@.take(i as int) =~= pieces@);
    lines
}

impl PieceRoot {
    /// The entry of a document that is the one run of `len` bytes from `start` of
    /// `src`, with `line_breaks` line breaks, and is indexed in full.
    pub fn dense(src: PieceSource, start: usize, len: usize, line_breaks: usize) -> (root: Self)
        ensures
            root@ == dense_root(src, start, len, line_breaks),
    {
        let mut pieces: Vec<Piece> = Vec::new();
        if len != 0 {
            pieces.push(Piece { src, start, len, line_breaks });
        }
        let known_line_count = count_known_lines(&pieces);
        assert(pieces@ =~= dense_root(src, start, len, line_breaks).pieces);
        PieceRoot {
            pieces,
            total_len: len,
            known_byte_len: len,
            known_line_count,
            full_index: true,
        }
    }
}

impl PieceRoot {
    /// Returns whether the entry is of sources of these lengths and tells the truth
    /// about its pieces.
    fn is_valid(
        &self,
        original_len: usize,
        add_len: usize,
        Ghost(original): Ghost<Seq<u8>>,
        Ghost(add): Ghost<Seq<u8>>,
    ) -> (valid: bool)
        requires
            original.len() == original_len,
            add.len() == add_len,
        ensures
            valid == self@.wf(original, add),
    {
        let ghost pieces = self.pieces@;
        let mut len: usize = 0;
        let mut i: usize = 0;
        assert(pieces.take(0) =~= Seq::empty());
        while i < self.pieces.len()
            invariant
                i <= pieces.len(),
                pieces == self.pieces@,
                original.len() == original_len,
                add.len() == add_len,
                len == pieces_len(pieces.take(i as int)),
                all_fit(original, add, pieces.take(i as int)),
            decreases pieces.len() - i,
        {
            let piece = self.pieces[i];
            let source_len = match piece.src {
                PieceSource::Original => original_len,
                PieceSource::Add => add_len,
            };
            proof {
                assert(pieces.take(i + 1).drop_last() =~= pieces.take(i as int));
                lemma_pieces_len_take(pieces, i + 1);
            }
            if piece.start > source_len || piece.len > source_len - piece.start {
                assert(!pieces[i as int].fits(original, add));
                return false;
            }
            match len.checked_add(piece.len) {
                Some(sum) => {
                    len = sum;
                },
                None => {
                    return false;
                },
            }
            proof {
                assert forall|k: int| 0 <= k < i + 1 implies (#[trigger] pieces.take(
                    i + 1,
                )[k]).fits(original, add) by {
                    if k < i {
                        assert(pieces.take(i as int)[k].fits(original, add));
                    }
                }
            }
            i = i + 1;
        }
        assert(pieces.take(i as int) =~= pieces);
        len == self.total_len && self.known_byte_len <= self.total_len && (!self.full_index
            || self.known_byte_len == self.total_len) && self.known_line_count
            == count_known_lines(&self.pieces)
    }
}

/// The entry of a document that is one run of bytes, which is no piece at all
/// where it is empty.
pub open spec fn dense_root(
    src: PieceSource,
    start: usize,
    len: usize,
    line_breaks: usize,
) -> RootView {
    let pieces = if len == 0 {
        Seq::empty()
    } else {
        seq![Piece { src, start, len, line_breaks }]
    };
    RootView {
        pieces,
        total_len: len as nat,
        known_byte_len: len as nat,
        known_line_count: known_lines(pieces),
        full_index: true,
    }
}

/// A run of bytes within its source is a valid entry, and its bytes are the run.
pub proof fn lemma_dense_root(
    original: Seq<u8>,
    add: Seq<u8>,
    src: PieceSource,
    start: usize,
    len: usize,
    line_breaks: usize,
)
    requires
        (Piece { src, start, len, line_breaks }).fits(original, add),
    ensures
        dense_root(src, start, len, line_breaks).wf(original, add),
        pieces_bytes(original, add, dense_root(src, start, len, line_breaks).pieces) == (Piece {
            src,
            start,
            len,
            line_breaks,
        }).bytes(original, add),
{
    let piece = Piece { src, start, len, line_breaks };
    let pieces = dense_root(src, start, len, line_breaks).pieces;
    reveal_with_fuel(pieces_bytes, 2);
    reveal_with_fuel(pieces_len, 2);
    if len == 0 {
        assert(piece.bytes(original, add) =~= Seq::empty());
    } else {
        assert(pieces.drop_last() =~= Seq::empty());
        assert(pieces_bytes(original, add, pieces) =~= piece.bytes(original, add));
    }
}

impl PieceTree {
    /// Returns the entry at which the document stands.
    pub fn root(&self) -> (root: &PieceRoot)
        requires
            self.current < self.roots@.len(),
        ensures
            *root == self.roots@[self.current as int],
    {
        &self.roots[self.current]
    }

    /// Puts `root` in the place of the entry at which the document stands.
    pub fn replace_current_root(&mut self, root: PieceRoot)
        requires
            old(self).current < old(self).roots@.len(),
        ensures
            final(self).current == old(self).current,
            final(self).roots@ == old(self).roots@.update(old(self).current as int, root),
    {
        let current = self.current;
        self.roots[current] = root;
    }
}

impl PieceTable {
    /// The piece table of a document that has not been edited since `original` was
    /// opened.
    pub fn new(original: FileStorage) -> (table: Self)
        ensures
            table@.wf(),
            table@.original == original@,
            table@.add == Seq::<u8>::empty(),
            table@.roots == seq![
                dense_root(
                    PieceSource::Original,
                    0,
                    original@.bytes.len() as usize,
                    text::line_breaks_in(original@.bytes) as usize,
                ),
            ],
            table@.current == 0,
            table@.content() == original@.bytes,
    {
        let len = original.len();
        let bytes = original.read_range(0, len);
        assert(bytes@ =~= original@.bytes);
        let line_breaks = count_line_breaks_in_bytes(bytes);
        let root = PieceRoot::dense(PieceSource::Original, 0, len, line_breaks);
        let mut roots: Vec<PieceRoot> = Vec::new();
        roots.push(root);
        let table = PieceTable {
            original,
            add: Vec::new(),
            pieces: PieceTree { roots, current: 0 },
        };
        proof {
            lemma_dense_root(
                table@.original.bytes,
                table@.add,
                PieceSource::Original,
                0,
                len,
                line_breaks,
            );
            assert(table@.roots =~= seq![root@]);
            assert(table@.content() =~= table@.original.bytes);
        }
        table
    }

    /// Returns whether every entry of the history is valid and the document stands at
    /// one.
    pub fn is_valid(&self) -> (valid: bool)
        ensures
            valid == self@.wf(),
    {
        let ghost roots = self@.roots;
        if self.pieces.current >= self.pieces.roots.len() {
            return false;
        }
        let original_len = self.original.len();
        let add_len = self.add.len();
        let mut j: usize = 0;
        while j < self.pieces.roots.len()
            invariant
                j <= roots.len(),
                roots == self@.roots,
                roots.len() == self.pieces.roots@.len(),
                original_len == self@.original.bytes.len(),
                add_len == self@.add.len(),
                forall|k: int|
                    0 <= k < j ==> (#[trigger] roots[k]).wf(self@.original.bytes, self@.add),
            decreases roots.len() - j,
        {
            let valid = self.pieces.roots[j].is_valid(
                original_len,
                add_len,
                Ghost(self@.original.bytes),
                Ghost(self@.add),
            );
            assert(valid == roots[j as int].wf(self@.original.bytes, self@.add));
            if !valid {
                return false;
            }
            j = j + 1;
        }
        true
    }

    /// Returns how many bytes the document has.
    pub fn total_len(&self) -> (len: usize)
        requires
            self@.wf(),
        ensures
            len == self@.content().len(),
            len == self@.root().total_len,
    {
        proof {
            assert(self@.roots[self@.current].wf(self@.original.bytes, self@.add));
            lemma_pieces_bytes_len(self@.original.bytes, self@.add, self@.root().pieces);
        }
        self.pieces.root().total_len
    }

    /// Returns how scattered the pieces are, with pieces of at most `threshold`
    /// bytes counted as small.
    pub fn fragmentation_stats_with_threshold(&self, threshold: usize) -> (stats:
        FragmentationStats)
        requires
            self@.wf(),
        ensures
            stats == fragmentation(self@, threshold),
            stats.total_bytes == self@.content().len(),
            stats.piece_count == self@.root().pieces.len(),
            stats.small_piece_count == small_pieces(self@.root().pieces, threshold as nat),
            stats.small_piece_count <= stats.piece_count,
    {
        let total_bytes = self.total_len();
        let pieces = &self.pieces.root().pieces;
        let mut small: usize = 0;
        let mut i: usize = 0;
        assert(pieces@.take(0) =~= Seq::empty());
        while i < pieces.len()
            invariant
                i <= pieces@.len(),
                small <= i,
                small == small_pieces(pieces@.take(i as int), threshold as nat),
            decreases pieces@.len() - i,
        {
            assert(pieces@.take(i + 1).drop_last() =~= pieces@.take(i as int));
            if pieces[i].len <= threshold {
                small = small + 1;
            }
            i = i + 1;
        }
        assert(pieces@.take(i as int) =~= pieces@);
        FragmentationStats {
            total_bytes,
            piece_count: pieces.len(),
            small_piece_count: small,
            small_piece_threshold_bytes: threshold,
        }
    }

    /// Returns how scattered the pieces are, by the default measure of a small
    /// piece.
    pub fn fragmentation_stats(&self) -> (stats: FragmentationStats)
        requires
            self@.wf(),
        ensures
            stats == fragmentation(self@, DEFAULT_COMPACTION_SMALL_PIECE_BYTES),
            stats.piece_count == self@.root().pieces.len(),
    {
        self.fragmentation_stats_with_threshold(DEFAULT_COMPACTION_SMALL_PIECE_BYTES)
    }

    /// Returns the bytes of the document.
    pub fn read_all(&self) -> (bytes: Vec<u8>)
        requires
            self@.wf(),
        ensures
            bytes@ == self@.content(),
    {
        let ghost original = self@.original.bytes;
        let ghost add = self@.add;
        assert(self@.roots[self@.current].wf(original, add));
        let pieces = &self.pieces.root().pieces;
        let original_len = self.original.len();
        let add_len = self.add.len();
        let mut bytes: Vec<u8> = Vec::new();
        let mut i: usize = 0;
        assert(pieces@.take(0) =~= Seq::empty());
        while i < pieces.len()
            invariant
                i <= pieces@.len(),
                original.len() == original_len,
                add.len() == add_len,
                original == self.original@.bytes,
                add == self.add@,
                all_fit(original, add, pieces@),
                bytes@ == pieces_bytes(original, add, pieces@.take(i as int)),
            decreases pieces@.len() - i,
        {
            let piece = pieces[i];
            assert(pieces@[i as int].fits(original, add));
            assert(pieces@.take(i + 1).drop_last() =~= pieces@.take(i as int));
            let end = piece.start + piece.len;
            let run = match piece.src {
                PieceSource::Original => self.original.read_range(piece.start, end),
                PieceSource::Add => vstd::slice::slice_subrange(
                    self.add.as_slice(),
                    piece.start,
                    end,
                ),
            };
            let ghost before = bytes@;
            bytes.extend_from_slice(run);
            assert(bytes@ =~= before + run@);
            i = i + 1;
        }
        assert(pieces@.take(i as int) =~= pieces@);
        bytes
    }

    /// Returns the text of the document, with a replacement character for what is
    /// not UTF-8.
    pub fn to_string_lossy(&self) -> (text: String)
        requires
            self@.wf(),
        ensures
            text@ == text::lossy_text(self@.content()),
            valid_utf8(self@.content()) ==> text@ == decode_utf8(self@.content()),
    {
        let bytes = self.read_all();
        text_from_utf8_lossy(bytes.as_slice())
    }

    /// Hands the table to the session store, to be committed now.
    pub fn flush_session<F: FnOnce(&PieceTable) -> std::io::Result<()>>(&self, flush: F) -> (result:
        std::io::Result<()>)
        requires
            call_requires(flush, (self,)),
        ensures
            call_ensures(flush, (self,), result),
    {
        flush(self)
    }

    /// Goes back to the entry of the history before the one at which the document
    /// stands, and has the session store take note.
    ///
    /// Returns `Ok(false)`, and does nothing, at the oldest entry. Where the
    /// session store fails, the table has still gone back.
    pub fn undo<S: FnOnce(&PieceTable) -> std::io::Result<()>>(&mut self, schedule: S) -> (result:
        std::io::Result<bool>)
        requires
            old(self)@.wf(),
            forall|table: &PieceTable|
                old(self)@.current > 0 && table@ == old(self)@.at(old(self)@.current - 1)
                    ==> #[trigger] call_requires(schedule, (table,)),
        ensures
            final(self)@.wf(),
            result == Ok::<bool, std::io::Error>(true) ==> call_ensures(
                schedule,
                (&*final(self),),
                Ok::<(), std::io::Error>(()),
            ),
            result matches Err(source) ==> call_ensures(
                schedule,
                (&*final(self),),
                Err::<(), std::io::Error>(source),
            ),
            old(self)@.current == 0 ==> result == Ok::<bool, std::io::Error>(false)
                && *final(self) == *old(self),
            old(self)@.current > 0 ==> final(self)@ == old(self)@.at(old(self)@.current - 1)
                && scheduled(schedule, *final(self), result),
    {
        if self.pieces.current == 0 {
            return Ok(false);
        }
        self.pieces.current = self.pieces.current - 1;
        match schedule(self) {
            Ok(taken) => {
                assert(taken == ());
                Ok(true)
            },
            Err(source) => Err(source),
        }
    }

    /// Goes on to the entry of the history behind the one at which the document
    /// stands, and has the session store take note.
    ///
    /// Returns `Ok(false)`, and does nothing, at the newest entry. Where the
    /// session store fails, the table has still gone on.
    pub fn redo<S: FnOnce(&PieceTable) -> std::io::Result<()>>(&mut self, schedule: S) -> (result:
        std::io::Result<bool>)
        requires
            old(self)@.wf(),
            forall|table: &PieceTable|
                old(self)@.current + 1 < old(self)@.roots.len() && table@ == old(self)@.at(
                    old(self)@.current + 1,
                ) ==> #[trigger] call_requires(schedule, (table,)),
        ensures
            final(self)@.wf(),
            result == Ok::<bool, std::io::Error>(true) ==> call_ensures(
                schedule,
                (&*final(self),),
                Ok::<(), std::io::Error>(()),
            ),
            result matches Err(source) ==> call_ensures(
                schedule,
                (&*final(self),),
                Err::<(), std::io::Error>(source),
            ),
            old(self)@.current + 1 == old(self)@.roots.len() ==> result == Ok::<
                bool,
                std::io::Error,
            >(false) && *final(self) == *old(self),
            old(self)@.current + 1 < old(self)@.roots.len() ==> final(self)@ == old(self)@.at(
                old(self)@.current + 1,
            ) && scheduled(schedule, *final(self), result),
    {
        if self.pieces.roots.len() - self.pieces.current <= 1 {
            return Ok(false);
        }
        self.pieces.current = self.pieces.current + 1;
        match schedule(self) {
            Ok(taken) => {
                assert(taken == ());
                Ok(true)
            },
            Err(source) => Err(source),
        }
    }
}

/// How scattered the pieces at which a table stands are.
pub open spec fn fragmentation(table: TableView, threshold: usize) -> FragmentationStats {
    FragmentationStats {
        total_bytes: table.content().len() as usize,
        piece_count: table.root().pieces.len() as usize,
        small_piece_count: small_pieces(table.root().pieces, threshold as nat) as usize,
        small_piece_threshold_bytes: threshold,
    }
}

} // verus!
