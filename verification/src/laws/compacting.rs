//! What compaction is for: fewer pieces, the same document, and no trace in the
//! history.
use crate::compaction;
use crate::compaction::{CompactionPolicy, CompactionUrgency, IdleCompactionOutcome, Ratio};
use crate::document::{Document, DocumentView};
use crate::piece_table;
use crate::piece_table::{Piece, PieceSource, PieceTable, TableView};
use crate::text;
use vstd::prelude::*;

verus! {

/// What the bytes of pieces are: a piece is a run of the source that it names, pieces
/// follow each other, and no pieces have no bytes.
pub proof fn law_bytes_of_pieces(
    original: Seq<u8>,
    add: Seq<u8>,
    a: Seq<Piece>,
    b: Seq<Piece>,
    piece: Piece,
)
    ensures
        piece_table::pieces_bytes(original, add, Seq::empty()) == Seq::<u8>::empty(),
        piece_table::pieces_bytes(original, add, a + b) == piece_table::pieces_bytes(
            original,
            add,
            a,
        ) + piece_table::pieces_bytes(original, add, b),
        piece.src == PieceSource::Original ==> piece_table::pieces_bytes(
            original,
            add,
            seq![piece],
        ) == original.subrange(piece.start as int, piece.start + piece.len),
        piece.src == PieceSource::Add ==> piece_table::pieces_bytes(original, add, seq![piece])
            == add.subrange(piece.start as int, piece.start + piece.len),
    decreases b.len(),
{
    reveal_with_fuel(piece_table::pieces_bytes, 2);
    assert(seq![piece].drop_last() =~= Seq::<Piece>::empty());
    assert(piece_table::pieces_bytes(original, add, seq![piece]) =~= piece.bytes(original, add));
    if b.len() == 0 {
        assert(a + b =~= a);
        assert(piece_table::pieces_bytes(original, add, a + b) =~= piece_table::pieces_bytes(
            original,
            add,
            a,
        ) + piece_table::pieces_bytes(original, add, b));
    } else {
        law_bytes_of_pieces(original, add, a, b.drop_last(), piece);
        assert((a + b).drop_last() =~= a + b.drop_last());
        assert(piece_table::pieces_bytes(original, add, a + b) =~= piece_table::pieces_bytes(
            original,
            add,
            a,
        ) + piece_table::pieces_bytes(original, add, b));
    }
}

/// A table is valid where the document stands at one of its entries, and the pieces of
/// every entry lie within their sources and have as many bytes and lines as the entry
/// says.
pub proof fn law_valid_tables(table: TableView)
    ensures
        table.wf() <==> {
            &&& 0 <= table.current < table.roots.len()
            &&& forall|j: int, i: int|
                0 <= j < table.roots.len() && 0 <= i < table.roots[j].pieces.len() ==> {
                    let piece = #[trigger] table.roots[j].pieces[i];
                    match piece.src {
                        PieceSource::Original => piece.start + piece.len
                            <= table.original.bytes.len(),
                        PieceSource::Add => piece.start + piece.len <= table.add.len(),
                    }
                }
            &&& forall|j: int|
                0 <= j < table.roots.len() ==> {
                    let root = #[trigger] table.roots[j];
                    let len = piece_table::pieces_bytes(
                        table.original.bytes,
                        table.add,
                        root.pieces,
                    ).len();
                    &&& root.total_len == len
                    &&& root.known_byte_len <= len
                    &&& root.full_index ==> root.known_byte_len == len
                    &&& root.known_line_count == piece_table::known_lines(root.pieces)
                }
        },
{
    let original = table.original.bytes;
    let add = table.add;
    assert forall|j: int|
        0 <= j < table.roots.len() && piece_table::all_fit(
            original,
            add,
            (#[trigger] table.roots[j]).pieces,
        ) implies piece_table::pieces_bytes(original, add, table.roots[j].pieces).len()
        == piece_table::pieces_len(table.roots[j].pieces) by {
        piece_table::lemma_pieces_bytes_len(original, add, table.roots[j].pieces);
    }
    if table.wf() {
        assert forall|j: int, i: int|
            0 <= j < table.roots.len() && 0 <= i < table.roots[j].pieces.len() implies {
            let piece = #[trigger] table.roots[j].pieces[i];
            match piece.src {
                PieceSource::Original => piece.start + piece.len <= original.len(),
                PieceSource::Add => piece.start + piece.len <= add.len(),
            }
        } by {
            assert(table.roots[j].wf(original, add));
            assert(table.roots[j].pieces[i].fits(original, add));
        }
        assert forall|j: int| 0 <= j < table.roots.len() implies (#[trigger] table.roots[j]).wf(
            original,
            add,
        ) by {}
    } else if 0 <= table.current < table.roots.len() {
        let j = choose|j: int|
            0 <= j < table.roots.len() && !(#[trigger] table.roots[j]).wf(original, add);
        let root = table.roots[j];
        if !piece_table::all_fit(original, add, root.pieces) {
            let i = choose|i: int|
                0 <= i < root.pieces.len() && !(#[trigger] root.pieces[i]).fits(original, add);
            assert(table.roots[j].pieces[i] == root.pieces[i]);
        }
    }
}

/// A compaction that does not fail answers whether there was something to do, and
/// either way leaves at most one piece, indexed in full. It answers `false`, and does
/// nothing, exactly where there was at most one piece, indexed in full, before. Where
/// it did something, the session store was handed what it left.
pub proof fn law_compaction_leaves_one_piece<S: FnOnce(&PieceTable) -> std::io::Result<()>>(
    before: Document,
    schedule: S,
    after: Document,
    result: std::io::Result<bool>,
)
    requires
        before@.wf(),
        compaction::compaction_ran(before, schedule, after, result),
    ensures
        match before.piece_table {
            None => after == before && result == Ok::<bool, std::io::Error>(false),
            Some(table) => {
                let was = table@.roots[table@.current];
                let is = after.piece_table->0@.roots[table@.current];
                &&& after.piece_table is Some
                &&& is.pieces.len() <= 1
                &&& is.full_index
                &&& result == Ok::<bool, std::io::Error>(false) <==> was.pieces.len() <= 1
                    && was.full_index
                &&& result == Ok::<bool, std::io::Error>(false) ==> after == before
                &&& result == Ok::<bool, std::io::Error>(true) ==> call_ensures(
                    schedule,
                    (&after.piece_table->0,),
                    Ok::<(), std::io::Error>(()),
                )
                &&& result matches Err(source) ==> call_ensures(
                    schedule,
                    (&after.piece_table->0,),
                    Err::<(), std::io::Error>(source),
                )
            },
        },
{
    if before.piece_table is Some {
        let table = before.piece_table->0;
        let was = table@.roots[table@.current];
        if !(was.pieces.len() <= 1 && was.full_index) {
            assert(piece_table::scheduled(schedule, after.piece_table->0, result));
            let stored = choose|stored: std::io::Result<()>| #[trigger]
                call_ensures(schedule, (&after.piece_table->0,), stored) && result
                    == piece_table::changed(stored);
            if stored is Ok {
                assert(stored->Ok_0 == ());
            }
        }
    }
}

/// A compaction that does something puts the bytes of the document behind the added
/// text and makes them the one piece of the entry at which the document stands, or no
/// piece where there are none. Nothing else of the table or of the document changes,
/// and no entry of the history changes its bytes.
pub proof fn law_compaction_rewrites_one_entry<S: FnOnce(&PieceTable) -> std::io::Result<()>>(
    before: Document,
    schedule: S,
    after: Document,
    result: std::io::Result<bool>,
    j: int,
)
    requires
        before@.wf(),
        compaction::compaction_ran(before, schedule, after, result),
        result != Ok::<bool, std::io::Error>(false),
        before.piece_table is Some,
        0 <= j < before.piece_table->0@.roots.len(),
    ensures
        ({
            let was = before.piece_table->0@;
            let is = after.piece_table->0@;
            let bytes = was.content();
            let root = is.roots[is.current];
            &&& after@ == (DocumentView { piece_table: Some(is), ..before@ })
            &&& after@.wf()
            &&& is.original == was.original
            &&& is.current == was.current
            &&& is.roots.len() == was.roots.len()
            &&& j != was.current ==> is.roots[j] == was.roots[j]
            &&& is.add == was.add + bytes
            &&& root.pieces.len() == (if bytes.len() == 0 {
                0int
            } else {
                1int
            })
            &&& bytes.len() > 0 ==> {
                &&& root.pieces[0].src == PieceSource::Add
                &&& root.pieces[0].start == was.add.len()
                &&& root.pieces[0].len == bytes.len()
                &&& root.pieces[0].line_breaks == text::line_breaks_in(bytes)
            }
            &&& root.total_len == bytes.len()
            &&& root.known_byte_len == bytes.len()
            &&& root.known_line_count == (if text::line_breaks_in(bytes) < usize::MAX {
                text::line_breaks_in(bytes) + 1
            } else {
                usize::MAX as nat
            })
            &&& is.content() == bytes
            &&& piece_table::pieces_bytes(is.original.bytes, is.add, is.roots[j].pieces)
                == piece_table::pieces_bytes(was.original.bytes, was.add, was.roots[j].pieces)
        }),
{
    let was = before.piece_table->0@;
    let table = after.piece_table->0;
    assert(table.add.len() == table.add@.len());
    assert(table@.add == was.add + was.content());
    compaction::lemma_compacted(was);
    assert(table@ == compaction::compacted(was));
    assert(table@.entry_bytes(j) == was.entry_bytes(j));
    assert(table@.entry_bytes(was.current) == was.entry_bytes(was.current));
    text::lemma_line_breaks_bound(was.content(), was.content().len() as int);
    reveal_with_fuel(piece_table::pieces_line_breaks, 2);
    let pieces = compaction::compacted_root(was).pieces;
    if was.content().len() > 0 {
        assert(pieces.drop_last() =~= Seq::<Piece>::empty());
    }
    assert(after@ =~= (DocumentView { piece_table: Some(table@), ..before@ }));
}

/// The pieces that count as small are those of at most the threshold.
proof fn lemma_small_pieces(pieces: Seq<Piece>, threshold: nat, small: spec_fn(Piece) -> bool)
    requires
        forall|piece: Piece| #[trigger] small(piece) <==> piece.len <= threshold,
    ensures
        piece_table::small_pieces(pieces, threshold) == pieces.filter(small).len(),
        pieces.filter(small).len() <= pieces.len(),
    decreases pieces.len(),
{
    reveal(Seq::filter);
    if pieces.len() > 0 {
        lemma_small_pieces(pieces.drop_last(), threshold, small);
    }
}

/// When a compaction is recommended, by the counts. Nothing is where the document has
/// too few bytes or too few pieces. Else a forced one is where there are as many
/// pieces as the hard threshold says and the share of small ones reaches the hard
/// share, and a deferred one, short of that, where the share reaches the lower one and
/// the pieces are no larger on average than the policy says. A recommendation tells
/// the counts.
///
/// `small` says which pieces are small.
pub proof fn law_recommendation(
    doc: Document,
    policy: CompactionPolicy,
    small: spec_fn(Piece) -> bool,
)
    requires
        doc@.wf(),
        forall|piece: Piece| #[trigger]
            small(piece) <==> piece.len <= policy.small_piece_threshold_bytes,
    ensures
        ({
            let recommendation = compaction::recommended_for(doc@, policy);
            match doc.piece_table {
                None => recommendation is None,
                Some(table) => {
                    let pieces = table@.roots[table@.current].pieces;
                    let bytes = table@.content().len();
                    let count = pieces.len();
                    let smalls = pieces.filter(small).len();
                    let hard = policy.forced_fragmentation_ratio;
                    let soft = policy.min_fragmentation_ratio;
                    let considered = bytes >= policy.min_total_bytes && count
                        >= policy.min_piece_count;
                    let forced = count >= policy.forced_piece_count && (if count == 0 {
                        hard.numerator == 0
                    } else {
                        smalls * hard.denominator >= hard.numerator * count
                    });
                    let deferred = (if count == 0 {
                        soft.numerator == 0
                    } else {
                        smalls * soft.denominator >= soft.numerator * count
                    }) && (count == 0 || bytes <= policy.max_average_piece_bytes * count);
                    &&& recommendation is Some <==> considered && (forced || deferred)
                    &&& recommendation matches Some(given) ==> {
                        &&& given.urgency == CompactionUrgency::Forced <==> forced
                        &&& given.stats.total_bytes == bytes
                        &&& given.stats.piece_count == count
                        &&& given.stats.small_piece_count == smalls
                        &&& given.stats.small_piece_threshold_bytes
                            == policy.small_piece_threshold_bytes
                    }
                },
            }
        }),
{
    if doc.piece_table is Some {
        let table = doc.piece_table->0;
        let root = table.pieces.roots@[table.pieces.current as int];
        assert(table@.roots[table@.current] == root@);
        assert(root@.wf(table@.original.bytes, table@.add));
        assert(root.pieces.len() == root@.pieces.len());
        piece_table::lemma_pieces_bytes_len(table@.original.bytes, table@.add, root@.pieces);
        lemma_small_pieces(root@.pieces, policy.small_piece_threshold_bytes as nat, small);
    }
}

/// The hard thresholds decide how urgent a compaction is, and never keep one from
/// being recommended: with any other hard thresholds, a document for which a deferred
/// compaction is recommended gets a recommendation too, with the same counts.
pub proof fn law_hard_thresholds_only_add_urgency(
    doc: Document,
    policy: CompactionPolicy,
    forced_piece_count: usize,
    forced_fragmentation_ratio: Ratio,
)
    requires
        doc@.wf(),
        compaction::recommended_for(doc@, policy) matches Some(given) && given.urgency
            == CompactionUrgency::Deferred,
    ensures
        ({
            let other = CompactionPolicy {
                forced_piece_count,
                forced_fragmentation_ratio,
                ..policy
            };
            compaction::recommended_for(doc@, other) matches Some(given) && given.stats
                == compaction::recommended_for(doc@, policy)->0.stats
        }),
{
}

/// A stricter policy recommends nothing that a more lenient one does not: larger
/// minimums, a larger share of small pieces, in the same parts, and a smaller average
/// never turn nothing into a deferred recommendation.
pub proof fn law_stricter_policies_recommend_less(
    doc: Document,
    policy: CompactionPolicy,
    stricter: CompactionPolicy,
)
    requires
        doc@.wf(),
        stricter.min_total_bytes >= policy.min_total_bytes,
        stricter.min_piece_count >= policy.min_piece_count,
        stricter.small_piece_threshold_bytes == policy.small_piece_threshold_bytes,
        stricter.max_average_piece_bytes <= policy.max_average_piece_bytes,
        stricter.min_fragmentation_ratio.denominator == policy.min_fragmentation_ratio.denominator,
        stricter.min_fragmentation_ratio.numerator >= policy.min_fragmentation_ratio.numerator,
        compaction::recommended_for(doc@, stricter) matches Some(given) && given.urgency
            == CompactionUrgency::Deferred,
    ensures
        compaction::recommended_for(doc@, policy) is Some,
{
    let stats = piece_table::fragmentation(
        doc@.piece_table->0,
        policy.small_piece_threshold_bytes,
    );
    let count = stats.piece_count as int;
    let low = policy.min_fragmentation_ratio.numerator as int;
    let high = stricter.min_fragmentation_ratio.numerator as int;
    let few = stricter.max_average_piece_bytes as int;
    let many = policy.max_average_piece_bytes as int;
    assert(low * count <= high * count && few * count <= many * count) by (nonlinear_arith)
        requires
            0 <= count,
            low <= high,
            few <= many,
    ;
}

/// The default policy, in numbers: from a mebibyte and 1024 pieces on, forced where
/// there are 8192 pieces and at least half of them have at most a kibibyte, and
/// deferred, short of that, where at least 35 in a hundred do and the pieces have at
/// most four kibibytes on average.
pub proof fn law_default_recommendation(doc: Document, small: spec_fn(Piece) -> bool)
    requires
        doc@.wf(),
        doc.piece_table is Some,
        forall|piece: Piece| #[trigger] small(piece) <==> piece.len <= 1024,
    ensures
        ({
            let recommendation = compaction::recommended_for(doc@, compaction::default_policy());
            let table = doc.piece_table->0@;
            let pieces = table.roots[table.current].pieces;
            let bytes = table.content().len();
            let count = pieces.len();
            let smalls = pieces.filter(small).len();
            let forced = count >= 8192 && 2 * smalls >= count;
            let deferred = 100 * smalls >= 35 * count && bytes <= 4096 * count;
            &&& recommendation is Some <==> bytes >= 1048576 && count >= 1024 && (forced
                || deferred)
            &&& recommendation matches Some(given) ==> (given.urgency
                == CompactionUrgency::Forced <==> forced)
        }),
{
    law_recommendation(doc, compaction::default_policy(), small);
}

/// What an idle pass does. It does nothing where nothing is recommended, and nothing
/// but say so where a forced compaction is. Where a deferred one is, the document is
/// compacted, unless it is compact already.
pub proof fn law_idle_pass<S: FnOnce(&PieceTable) -> std::io::Result<()>>(
    before: Document,
    policy: CompactionPolicy,
    schedule: S,
    after: Document,
    result: std::io::Result<IdleCompactionOutcome>,
)
    requires
        before@.wf(),
        compaction::idle_pass(before, policy, schedule, after, result),
    ensures
        match compaction::recommended_for(before@, policy) {
            None => after == before && result == Ok::<IdleCompactionOutcome, std::io::Error>(
                IdleCompactionOutcome::NotNeeded,
            ),
            Some(given) => match given.urgency {
                CompactionUrgency::Forced => after == before && result == Ok::<
                    IdleCompactionOutcome,
                    std::io::Error,
                >(IdleCompactionOutcome::ForcedPending(given)),
                CompactionUrgency::Deferred => {
                    let was = before.piece_table->0@.roots[before.piece_table->0@.current];
                    let is = after.piece_table->0@.roots[after.piece_table->0@.current];
                    &&& is.pieces.len() <= 1
                    &&& is.full_index
                    &&& after@.content() == before@.content()
                    &&& if was.pieces.len() <= 1 && was.full_index {
                        after == before && result == Ok::<IdleCompactionOutcome, std::io::Error>(
                            IdleCompactionOutcome::NotNeeded,
                        )
                    } else {
                        match result {
                            Ok(outcome) => outcome == IdleCompactionOutcome::Compacted(given)
                                && call_ensures(
                                schedule,
                                (&after.piece_table->0,),
                                Ok::<(), std::io::Error>(()),
                            ),
                            Err(source) => call_ensures(
                                schedule,
                                (&after.piece_table->0,),
                                Err::<(), std::io::Error>(source),
                            ),
                        }
                    }
                },
            },
        },
{
    if let Some(given) = compaction::recommended_for(before@, policy) {
        if given.urgency == CompactionUrgency::Deferred {
            let ran = choose|ran: std::io::Result<bool>| #[trigger]
                compaction::compaction_ran(before, schedule, after, ran) && result
                    == compaction::idled(given, ran);
            law_compaction_leaves_one_piece(before, schedule, after, ran);
            if ran != Ok::<bool, std::io::Error>(false) {
                law_compaction_rewrites_one_entry(
                    before,
                    schedule,
                    after,
                    ran,
                    before.piece_table->0@.current,
                );
            }
        }
    }
}

/// A compaction calls the session store only where there is something to compact, and
/// only with the document as one piece.
pub proof fn law_compaction_calls<S: FnOnce(&PieceTable) -> std::io::Result<()>>(
    doc: Document,
    schedule: S,
)
    requires
        doc@.wf(),
        forall|dense: &PieceTable|
            {
                &&& doc.piece_table is Some
                &&& !(doc.piece_table->0@.root().pieces.len() <= 1
                    && doc.piece_table->0@.root().full_index)
                &&& dense@.root().pieces.len() <= 1
                &&& dense@.root().full_index
                &&& dense@.roots.len() == doc.piece_table->0@.roots.len()
                &&& dense@.current == doc.piece_table->0@.current
                &&& dense@.add == doc.piece_table->0@.add + doc.piece_table->0@.content()
            } ==> #[trigger] call_requires(schedule, (dense,)),
    ensures
        compaction::compaction_callable(doc@, schedule),
{
}

/// An idle pass calls the session store only where a deferred compaction is
/// recommended.
pub proof fn law_idle_pass_calls<S: FnOnce(&PieceTable) -> std::io::Result<()>>(
    doc: Document,
    policy: CompactionPolicy,
    schedule: S,
)
    requires
        doc@.wf(),
        compaction::recommended_for(doc@, policy) matches Some(given) ==> given.urgency
            == CompactionUrgency::Forced,
    ensures
        compaction::idle_pass_callable(doc@, policy, schedule),
{
}

} // verus!
