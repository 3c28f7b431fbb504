//! When a piece table is worth compacting, and compaction itself.
use crate::document::{Document, DocumentView};
use crate::piece_table;
use crate::piece_table::{
    FragmentationStats, PieceRoot, PieceSource, PieceTable, RootView, TableView,
};
use crate::text;
use crate::text::count_line_breaks_in_bytes;
use vstd::prelude::*;

verus! {

pub const DEFAULT_COMPACTION_MIN_TOTAL_BYTES: usize = 1024 * 1024;

pub const DEFAULT_COMPACTION_MIN_PIECES: usize = 1024;

pub const DEFAULT_COMPACTION_SMALL_PIECE_BYTES: usize = 1024;

pub const DEFAULT_COMPACTION_MAX_AVERAGE_PIECE_BYTES: usize = 4096;

pub const DEFAULT_COMPACTION_FORCED_PIECES: usize = 8192;

/// A share, as a fraction. A fraction with nothing but a numerator above zero is
/// a share that no part of anything reaches.
#[derive(Clone, Copy, Debug, PartialEq, Eq, Structural)]
pub struct Ratio {
    pub numerator: u64,
    pub denominator: u64,
}

impl Ratio {
    /// Whether the share that `part` has in `whole` is at least this one. No part
    /// of nothing is a share of zero.
    pub open spec fn reached_by(self, part: nat, whole: nat) -> bool {
        if whole == 0 {
            self.numerator == 0
        } else {
            part * self.denominator >= self.numerator * whole
        }
    }
}

/// The product of two machine words.
fn product(a: u64, b: u64) -> (p: u128)
    ensures
        p == a * b,
{
    assert(a * b <= u128::MAX) by (nonlinear_arith)
        requires
            a <= u64::MAX,
            b <= u64::MAX,
    ;
    (a as u128) * (b as u128)
}

impl FragmentationStats {
    /// Whether the pieces have at most `max` bytes on average, where no pieces have
    /// none.
    pub open spec fn average_within(self, max: usize) -> bool {
        self.piece_count > 0 ==> self.total_bytes <= max * self.piece_count
    }

    /// Returns whether the share of small pieces is at least `ratio`.
    pub fn fragmentation_reaches(&self, ratio: Ratio) -> (reaches: bool)
        ensures
            reaches == ratio.reached_by(self.small_piece_count as nat, self.piece_count as nat),
    {
        if self.piece_count == 0 {
            return ratio.numerator == 0;
        }
        let small = product(self.small_piece_count as u64, ratio.denominator);
        let wanted = product(ratio.numerator, self.piece_count as u64);
        small >= wanted
    }

    /// Returns whether the pieces have at most `max` bytes on average.
    pub fn average_piece_bytes_within(&self, max: usize) -> (within: bool)
        ensures
            within == self.average_within(max),
    {
        if self.piece_count == 0 {
            return true;
        }
        (self.total_bytes as u128) <= product(max as u64, self.piece_count as u64)
    }
}

/// Policy thresholds used to decide when a piece-table document should be compacted.
#[derive(Clone, Copy, Debug, PartialEq, Eq, Structural)]
pub struct CompactionPolicy {
    /// Minimum document size before compaction is considered worthwhile.
    pub min_total_bytes: usize,
    /// Minimum piece count before broader compaction is considered.
    pub min_piece_count: usize,
    /// Pieces at or below this size contribute to fragmentation ratio.
    pub small_piece_threshold_bytes: usize,
    /// Maximum average piece size allowed for deferred compaction recommendations.
    pub max_average_piece_bytes: usize,
    /// Minimum ratio of small pieces required before deferred compaction is recommended.
    pub min_fragmentation_ratio: Ratio,
    /// Hard piece-count threshold for forced compaction recommendations.
    pub forced_piece_count: usize,
    /// Hard fragmentation ratio threshold for forced compaction recommendations.
    pub forced_fragmentation_ratio: Ratio,
}

/// The thresholds that apply where nothing else is said: from one mebibyte and
/// 1024 pieces on, deferred where at least 35 in 100 pieces are of at most a
/// kibibyte and pieces have at most four kibibytes on average, and forced from
/// 8192 pieces on where at least half of them are that small.
pub open spec fn default_policy() -> CompactionPolicy {
    CompactionPolicy {
        min_total_bytes: DEFAULT_COMPACTION_MIN_TOTAL_BYTES,
        min_piece_count: DEFAULT_COMPACTION_MIN_PIECES,
        small_piece_threshold_bytes: DEFAULT_COMPACTION_SMALL_PIECE_BYTES,
        max_average_piece_bytes: DEFAULT_COMPACTION_MAX_AVERAGE_PIECE_BYTES,
        min_fragmentation_ratio: Ratio { numerator: 35, denominator: 100 },
        forced_piece_count: DEFAULT_COMPACTION_FORCED_PIECES,
        forced_fragmentation_ratio: Ratio { numerator: 50, denominator: 100 },
    }
}

impl Default for CompactionPolicy {
    fn default() -> (policy: Self)
        ensures
            policy == default_policy(),
    {
        CompactionPolicy {
            min_total_bytes: DEFAULT_COMPACTION_MIN_TOTAL_BYTES,
            min_piece_count: DEFAULT_COMPACTION_MIN_PIECES,
            small_piece_threshold_bytes: DEFAULT_COMPACTION_SMALL_PIECE_BYTES,
            max_average_piece_bytes: DEFAULT_COMPACTION_MAX_AVERAGE_PIECE_BYTES,
            min_fragmentation_ratio: Ratio { numerator: 35, denominator: 100 },
            forced_piece_count: DEFAULT_COMPACTION_FORCED_PIECES,
            forced_fragmentation_ratio: Ratio { numerator: 50, denominator: 100 },
        }
    }
}

/// How urgently the engine recommends running a broader compaction pass.
#[derive(Clone, Copy, Debug, PartialEq, Eq, Structural)]
pub enum CompactionUrgency {
    /// Compaction is worth scheduling in idle/background time.
    Deferred,
    /// Compaction should happen before persistence-sensitive boundaries like save.
    Forced,
}

/// A policy decision derived from current piece-table fragmentation metrics.
#[derive(Clone, Copy, Debug, PartialEq, Eq, Structural)]
pub struct CompactionRecommendation {
    pub urgency: CompactionUrgency,
    pub stats: FragmentationStats,
}

impl CompactionRecommendation {
    /// Returns the urgency class for the recommendation.
    pub fn urgency(self) -> (urgency: CompactionUrgency)
        ensures
            urgency == self.urgency,
    {
        self.urgency
    }

    /// Returns the fragmentation metrics that triggered the recommendation.
    pub fn stats(self) -> (stats: FragmentationStats)
        ensures
            stats == self.stats,
    {
        self.stats
    }
}

/// Outcome of an idle compaction pass.
#[derive(Clone, Copy, Debug, PartialEq, Eq, Structural)]
pub enum IdleCompactionOutcome {
    /// No compaction work was needed for the current document state.
    NotNeeded,
    /// Deferred compaction ran and rewrote the active piece-table snapshot.
    Compacted(CompactionRecommendation),
    /// A hard threshold is pending and should be handled at an explicit save or
    /// operator-controlled maintenance boundary.
    ForcedPending(CompactionRecommendation),
}

impl IdleCompactionOutcome {
    /// Returns the recommendation associated with this outcome, if any.
    pub fn recommendation(self) -> (recommendation: Option<CompactionRecommendation>)
        ensures
            recommendation == (match self {
                IdleCompactionOutcome::NotNeeded => None::<CompactionRecommendation>,
                IdleCompactionOutcome::Compacted(recommendation) => Some(recommendation),
                IdleCompactionOutcome::ForcedPending(recommendation) => Some(recommendation),
            }),
    {
        match self {
            IdleCompactionOutcome::NotNeeded => None,
            IdleCompactionOutcome::Compacted(recommendation)
            | IdleCompactionOutcome::ForcedPending(recommendation) => { Some(recommendation) },
        }
    }

    /// Returns `true` when this idle pass actually compacted the document.
    pub fn is_compacted(self) -> (compacted: bool)
        ensures
            compacted == (self is Compacted),
    {
        match self {
            IdleCompactionOutcome::Compacted(_) => true,
            _ => false,
        }
    }

    /// Returns `true` when a forced compaction threshold is pending.
    pub fn is_forced_pending(self) -> (pending: bool)
        ensures
            pending == (self is ForcedPending),
    {
        match self {
            IdleCompactionOutcome::ForcedPending(_) => true,
            _ => false,
        }
    }
}

/// What `policy` recommends for a piece table.
///
/// Nothing below the minimum size or the minimum number of pieces. From the hard
/// thresholds on, both of them, a forced compaction. Else a deferred one, where the
/// share of small pieces is large enough and the average piece is small enough.
pub open spec fn recommended(
    table: TableView,
    policy: CompactionPolicy,
) -> Option<CompactionRecommendation> {
    let stats = piece_table::fragmentation(table, policy.small_piece_threshold_bytes);
    let small = stats.small_piece_count as nat;
    let count = stats.piece_count as nat;
    if stats.total_bytes < policy.min_total_bytes || count < policy.min_piece_count {
        None
    } else if count >= policy.forced_piece_count && policy.forced_fragmentation_ratio.reached_by(
        small,
        count,
    ) {
        Some(CompactionRecommendation { urgency: CompactionUrgency::Forced, stats })
    } else if policy.min_fragmentation_ratio.reached_by(small, count) && stats.average_within(
        policy.max_average_piece_bytes,
    ) {
        Some(CompactionRecommendation { urgency: CompactionUrgency::Deferred, stats })
    } else {
        None
    }
}

/// What `policy` recommends for a document: nothing, unless a piece table holds it.
pub open spec fn recommended_for(
    doc: DocumentView,
    policy: CompactionPolicy,
) -> Option<CompactionRecommendation> {
    match doc.piece_table {
        Some(table) => recommended(table, policy),
        None => None,
    }
}

/// Whether a compaction would change the table: not where at most one piece, fully
/// indexed, is all there is.
pub open spec fn can_compact(table: TableView) -> bool {
    !(table.root().pieces.len() <= 1 && table.root().full_index)
}

/// The entry of the history that a compaction of the table writes: the document as
/// one piece, behind the text added so far.
pub open spec fn compacted_root(table: TableView) -> RootView {
    piece_table::dense_root(
        PieceSource::Add,
        table.add.len() as usize,
        table.content().len() as usize,
        text::line_breaks_in(table.content()) as usize,
    )
}

/// The table after a compaction: the bytes of the document stand once more behind
/// the added text, and the entry at which the document stands, and no other, is
/// rewritten to them.
pub open spec fn compacted(table: TableView) -> TableView {
    TableView {
        add: table.add + table.content(),
        roots: table.roots.update(table.current, compacted_root(table)),
        ..table
    }
}

/// A compaction of a valid table leaves a valid one, with the same bytes at every
/// entry of the history.
pub proof fn lemma_compacted(table: TableView)
    requires
        table.wf(),
        table.add.len() + table.content().len() <= usize::MAX,
    ensures
        compacted(table).wf(),
        forall|j: int|
            0 <= j < table.roots.len() ==> #[trigger] compacted(table).entry_bytes(j)
                == table.entry_bytes(j),
{
    let after = compacted(table);
    let original = table.original.bytes;
    let bytes = table.content();
    let start = table.add.len() as usize;
    let len = bytes.len() as usize;
    text::lemma_line_breaks_bound(bytes, bytes.len() as int);
    let line_breaks = text::line_breaks_in(bytes) as usize;
    let piece = piece_table::Piece { src: PieceSource::Add, start, len, line_breaks };
    assert(piece.fits(original, after.add));
    assert(piece.bytes(original, after.add) =~= bytes);
    piece_table::lemma_dense_root(original, after.add, PieceSource::Add, start, len, line_breaks);
    assert forall|j: int| 0 <= j < table.roots.len() implies after.entry_bytes(j)
        == table.entry_bytes(j) && (#[trigger] after.roots[j]).wf(original, after.add) by {
        assert(table.roots[j].wf(original, table.add));
        if j != table.current {
            piece_table::lemma_pieces_keep_bytes(
                original,
                table.add,
                bytes,
                table.roots[j].pieces,
            );
        }
    }
    assert forall|j: int| 0 <= j < table.roots.len() implies #[trigger] after.entry_bytes(j)
        == table.entry_bytes(j) by {
        assert(after.roots[j].wf(original, after.add));
    }
}

/// `schedule` may be called with what a compaction makes of `table`.
pub open spec fn takes_compacted<S: FnOnce(&PieceTable) -> std::io::Result<()>>(
    schedule: S,
    table: TableView,
) -> bool {
    forall|dense: &PieceTable|
        dense@ == compacted(table) ==> #[trigger] call_requires(schedule, (dense,))
}

impl PieceTable {
    /// Rewrites the entry of the history at which the document stands into one
    /// piece, and has the session store take note.
    ///
    /// Returns `Ok(false)`, and does nothing, where the entry is one fully indexed
    /// piece or empty already. Where the session store fails, the entry has still
    /// been rewritten.
    pub fn compact_current_state<S: FnOnce(&PieceTable) -> std::io::Result<()>>(
        &mut self,
        schedule: S,
    ) -> (result: std::io::Result<bool>)
        requires
            old(self)@.wf(),
            can_compact(old(self)@) ==> takes_compacted(schedule, old(self)@),
        ensures
            final(self)@.wf(),
            final(self)@.root().pieces.len() <= 1,
            final(self)@.root().full_index,
            result == Ok::<bool, std::io::Error>(false) <==> old(self)@.root().pieces.len() <= 1
                && old(self)@.root().full_index,
            result == Ok::<bool, std::io::Error>(true) ==> call_ensures(
                schedule,
                (&*final(self),),
                Ok::<(), std::io::Error>(()),
            ),
            result matches Err(source) ==> call_ensures(
                schedule,
                (&*final(self),),
                Err::<(), std::io::Error>(source),
            ),
            !can_compact(old(self)@) ==> result == Ok::<bool, std::io::Error>(false)
                && *final(self) == *old(self),
            can_compact(old(self)@) ==> {
                &&& final(self)@ == compacted(old(self)@)
                &&& final(self)@.content() == old(self)@.content()
                &&& piece_table::scheduled(schedule, *final(self), result)
            },
    {
        let stats = self.fragmentation_stats();
        if stats.piece_count <= 1 && self.pieces.root().full_index {
            return Ok(false);
        }
        let mut dense = self.read_all();
        let dense_len = dense.len();
        let line_breaks = count_line_breaks_in_bytes(dense.as_slice());
        let add_start = self.add.len();
        self.add.append(&mut dense);
        let root = PieceRoot::dense(PieceSource::Add, add_start, dense_len, line_breaks);
        self.pieces.replace_current_root(root);
        let add_end = self.add.len();
        proof {
            assert(self@.roots =~= compacted(old(self)@).roots);
            assert(self@ =~= compacted(old(self)@));
            assert(add_end == add_start + dense_len);
            lemma_compacted(old(self)@);
            assert(compacted(old(self)@).entry_bytes(self@.current) == old(self)@.content());
        }
        match schedule(self) {
            Ok(taken) => {
                assert(taken == ());
                Ok(true)
            },
            Err(source) => Err(source),
        }
    }

    /// Returns what `policy` recommends for the table.
    pub fn compaction_recommendation(&self, policy: CompactionPolicy) -> (recommendation: Option<
        CompactionRecommendation,
    >)
        requires
            self@.wf(),
        ensures
            recommendation == recommended(self@, policy),
    {
        if self.total_len() < policy.min_total_bytes {
            return None;
        }
        let stats = self.fragmentation_stats_with_threshold(policy.small_piece_threshold_bytes);
        if stats.piece_count < policy.min_piece_count {
            return None;
        }
        if stats.piece_count >= policy.forced_piece_count && stats.fragmentation_reaches(
            policy.forced_fragmentation_ratio,
        ) {
            return Some(
                CompactionRecommendation { urgency: CompactionUrgency::Forced, stats },
            );
        }
        if stats.fragmentation_reaches(policy.min_fragmentation_ratio)
            && stats.average_piece_bytes_within(policy.max_average_piece_bytes) {
            return Some(
                CompactionRecommendation { urgency: CompactionUrgency::Deferred, stats },
            );
        }
        None
    }
}

/// Whether a compaction would change the document.
pub open spec fn document_can_compact(doc: DocumentView) -> bool {
    doc.piece_table matches Some(table) && can_compact(table)
}

/// The document after a compaction of the piece table that holds it.
pub open spec fn compacted_document(doc: DocumentView) -> DocumentView {
    doc.with_table(compacted(doc.piece_table->0))
}

/// What a compaction of the document may call: `schedule`, with the compacted table,
/// and not at all where there is nothing to compact.
pub open spec fn compaction_callable<S: FnOnce(&PieceTable) -> std::io::Result<()>>(
    doc: DocumentView,
    schedule: S,
) -> bool {
    document_can_compact(doc) ==> takes_compacted(schedule, doc.piece_table->0)
}

/// A compaction was asked of `before`: it made `after` of it and answered `result`,
/// having handed the compacted table to `schedule` where there was something to
/// compact.
pub open spec fn compaction_ran<S: FnOnce(&PieceTable) -> std::io::Result<()>>(
    before: Document,
    schedule: S,
    after: Document,
    result: std::io::Result<bool>,
) -> bool {
    if document_can_compact(before@) {
        &&& after@ == compacted_document(before@)
        &&& piece_table::scheduled(schedule, after.piece_table->0, result)
    } else {
        &&& after == before
        &&& result == Ok::<bool, std::io::Error>(false)
    }
}

/// What a recommended compaction answers, where the compaction itself answers `ran`.
pub open spec fn acted_on(
    recommendation: CompactionRecommendation,
    ran: std::io::Result<bool>,
) -> std::io::Result<Option<CompactionRecommendation>> {
    match ran {
        Ok(true) => Ok(Some(recommendation)),
        Ok(false) => Ok(None),
        Err(source) => Err(source),
    }
}

/// What an idle pass answers, where the deferred compaction that it runs answers
/// `ran`.
pub open spec fn idled(
    recommendation: CompactionRecommendation,
    ran: std::io::Result<bool>,
) -> std::io::Result<IdleCompactionOutcome> {
    match ran {
        Ok(true) => Ok(IdleCompactionOutcome::Compacted(recommendation)),
        Ok(false) => Ok(IdleCompactionOutcome::NotNeeded),
        Err(source) => Err(source),
    }
}

/// What an idle pass may call: what the compaction calls, where a deferred one is
/// recommended, and else nothing.
pub open spec fn idle_pass_callable<S: FnOnce(&PieceTable) -> std::io::Result<()>>(
    doc: DocumentView,
    policy: CompactionPolicy,
    schedule: S,
) -> bool {
    recommended_for(doc, policy) matches Some(recommendation) && recommendation.urgency
        == CompactionUrgency::Deferred ==> compaction_callable(doc, schedule)
}

/// An idle pass with `policy` made `after` of `before` and answered `result`.
pub open spec fn idle_pass<S: FnOnce(&PieceTable) -> std::io::Result<()>>(
    before: Document,
    policy: CompactionPolicy,
    schedule: S,
    after: Document,
    result: std::io::Result<IdleCompactionOutcome>,
) -> bool {
    match recommended_for(before@, policy) {
        None => after == before && result == Ok::<IdleCompactionOutcome, std::io::Error>(
            IdleCompactionOutcome::NotNeeded,
        ),
        Some(recommendation) => if recommendation.urgency == CompactionUrgency::Forced {
            after == before && result == Ok::<IdleCompactionOutcome, std::io::Error>(
                IdleCompactionOutcome::ForcedPending(recommendation),
            )
        } else {
            exists|ran: std::io::Result<bool>| #[trigger]
                compaction_ran(before, schedule, after, ran) && result == idled(
                    recommendation,
                    ran,
                )
        },
    }
}

impl Document {
    /// Returns a compaction recommendation for piece-table backed documents.
    ///
    /// This API is for broader deferred/forced compaction decisions only.
    pub fn compaction_recommendation(&self) -> (recommendation: Option<CompactionRecommendation>)
        requires
            self@.wf(),
        ensures
            recommendation == recommended_for(self@, default_policy()),
    {
        self.compaction_recommendation_with_policy(CompactionPolicy::default())
    }

    /// Returns a compaction recommendation using a caller-provided policy.
    pub fn compaction_recommendation_with_policy(
        &self,
        policy: CompactionPolicy,
    ) -> (recommendation: Option<CompactionRecommendation>)
        requires
            self@.wf(),
        ensures
            recommendation == recommended_for(self@, policy),
    {
        match &self.piece_table {
            Some(table) => table.compaction_recommendation(policy),
            None => None,
        }
    }

    /// Compacts the current piece-table backed document state into a dense snapshot.
    ///
    /// This does not create a new undo step. Older undo history remains intact,
    /// while the current history entry is rewritten into a compact representation.
    /// Returns `Ok(false)` when the document is not piece-table backed or is
    /// already compact enough that no rewrite is needed.
    pub fn compact_piece_table<S: FnOnce(&PieceTable) -> std::io::Result<()>>(
        &mut self,
        schedule: S,
    ) -> (result: std::io::Result<bool>)
        requires
            old(self)@.wf(),
            compaction_callable(old(self)@, schedule),
        ensures
            final(self)@.wf(),
            final(self)@ == (DocumentView {
                piece_table: final(self)@.piece_table,
                ..old(self)@
            }),
            old(self).piece_table is None ==> result == Ok::<bool, std::io::Error>(false),
            old(self).piece_table matches Some(table) ==> {
                let is = final(self).piece_table->0@.root();
                &&& final(self).piece_table is Some
                &&& is.pieces.len() <= 1
                &&& is.full_index
                &&& result == Ok::<bool, std::io::Error>(false) <==> table@.root().pieces.len() <= 1
                    && table@.root().full_index
            },
            result == Ok::<bool, std::io::Error>(false) ==> *final(self) == *old(self),
            result == Ok::<bool, std::io::Error>(true) ==> call_ensures(
                schedule,
                (&final(self).piece_table->0,),
                Ok::<(), std::io::Error>(()),
            ),
            result matches Err(source) ==> call_ensures(
                schedule,
                (&final(self).piece_table->0,),
                Err::<(), std::io::Error>(source),
            ),
            compaction_ran(*old(self), schedule, *final(self), result),
            final(self)@.content() == old(self)@.content(),
    {
        let Some(table) = self.piece_table.as_mut() else {
            return Ok(false);
        };
        table.compact_current_state(schedule)
    }

    /// Compacts the current piece-table state when the provided policy recommends it.
    ///
    /// Returns the triggering recommendation when compaction ran.
    pub fn compact_piece_table_if_recommended<S: FnOnce(&PieceTable) -> std::io::Result<()>>(
        &mut self,
        policy: CompactionPolicy,
        schedule: S,
    ) -> (result: std::io::Result<Option<CompactionRecommendation>>)
        requires
            old(self)@.wf(),
            recommended_for(old(self)@, policy) is Some ==> compaction_callable(
                old(self)@,
                schedule,
            ),
        ensures
            final(self)@.wf(),
            final(self)@ == (DocumentView {
                piece_table: final(self)@.piece_table,
                ..old(self)@
            }),
            recommended_for(old(self)@, policy) matches Some(given) ==> {
                let was = old(self).piece_table->0@.root();
                let is = final(self).piece_table->0@.root();
                &&& is.pieces.len() <= 1
                &&& is.full_index
                &&& match result {
                    Ok(None) => was.pieces.len() <= 1 && was.full_index && *final(self)
                        == *old(self),
                    Ok(Some(answered)) => answered == given && !(was.pieces.len() <= 1
                        && was.full_index) && call_ensures(
                        schedule,
                        (&final(self).piece_table->0,),
                        Ok::<(), std::io::Error>(()),
                    ),
                    Err(source) => call_ensures(
                        schedule,
                        (&final(self).piece_table->0,),
                        Err::<(), std::io::Error>(source),
                    ),
                }
            },
            final(self)@.content() == old(self)@.content(),
            match recommended_for(old(self)@, policy) {
                None => *final(self) == *old(self) && result == Ok::<
                    Option<CompactionRecommendation>,
                    std::io::Error,
                >(None),
                Some(recommendation) => exists|ran: std::io::Result<bool>| #[trigger]
                    compaction_ran(*old(self), schedule, *final(self), ran) && result == acted_on(
                        recommendation,
                        ran,
                    ),
            },
    {
        let Some(recommendation) = self.compaction_recommendation_with_policy(policy) else {
            return Ok(None);
        };
        match self.compact_piece_table(schedule) {
            Ok(true) => Ok(Some(recommendation)),
            Ok(false) => Ok(None),
            Err(source) => Err(source),
        }
    }

    /// Runs an idle-time compaction pass with the default policy.
    ///
    /// This performs only `Deferred` maintenance work. `Forced`
    /// recommendations are surfaced as [`IdleCompactionOutcome::ForcedPending`]
    /// so callers can keep heavier compaction tied to explicit maintenance or
    /// save boundaries.
    pub fn run_idle_compaction<S: FnOnce(&PieceTable) -> std::io::Result<()>>(
        &mut self,
        schedule: S,
    ) -> (result: std::io::Result<IdleCompactionOutcome>)
        requires
            old(self)@.wf(),
            idle_pass_callable(old(self)@, default_policy(), schedule),
        ensures
            final(self)@.wf(),
            final(self)@ == (DocumentView {
                piece_table: final(self)@.piece_table,
                ..old(self)@
            }),
            result matches Ok(outcome) ==> {
                let given = recommended_for(old(self)@, default_policy());
                match outcome {
                    IdleCompactionOutcome::NotNeeded => *final(self) == *old(self),
                    IdleCompactionOutcome::ForcedPending(pending) => given == Some(pending)
                        && pending.urgency == CompactionUrgency::Forced && *final(self)
                        == *old(self),
                    IdleCompactionOutcome::Compacted(done) => given == Some(done)
                        && done.urgency == CompactionUrgency::Deferred
                        && final(self).piece_table->0@.root().pieces.len() <= 1
                        && final(self).piece_table->0@.root().full_index,
                }
            },
            final(self)@.content() == old(self)@.content(),
            idle_pass(*old(self), default_policy(), schedule, *final(self), result),
    {
        self.run_idle_compaction_with_policy(CompactionPolicy::default(), schedule)
    }

    /// Runs an idle-time compaction pass using a caller-provided policy.
    pub fn run_idle_compaction_with_policy<S: FnOnce(&PieceTable) -> std::io::Result<()>>(
        &mut self,
        policy: CompactionPolicy,
        schedule: S,
    ) -> (result: std::io::Result<IdleCompactionOutcome>)
        requires
            old(self)@.wf(),
            idle_pass_callable(old(self)@, policy, schedule),
        ensures
            final(self)@.wf(),
            final(self)@ == (DocumentView {
                piece_table: final(self)@.piece_table,
                ..old(self)@
            }),
            result matches Ok(outcome) ==> {
                let given = recommended_for(old(self)@, policy);
                match outcome {
                    IdleCompactionOutcome::NotNeeded => *final(self) == *old(self),
                    IdleCompactionOutcome::ForcedPending(pending) => given == Some(pending)
                        && pending.urgency == CompactionUrgency::Forced && *final(self)
                        == *old(self),
                    IdleCompactionOutcome::Compacted(done) => given == Some(done)
                        && done.urgency == CompactionUrgency::Deferred
                        && final(self).piece_table->0@.root().pieces.len() <= 1
                        && final(self).piece_table->0@.root().full_index,
                }
            },
            final(self)@.content() == old(self)@.content(),
            idle_pass(*old(self), policy, schedule, *final(self), result),
    {
        let Some(recommendation) = self.compaction_recommendation_with_policy(policy) else {
            return Ok(IdleCompactionOutcome::NotNeeded);
        };
        if recommendation.urgency() == CompactionUrgency::Forced {
            return Ok(IdleCompactionOutcome::ForcedPending(recommendation));
        }
        match self.compact_piece_table(schedule) {
            Ok(true) => Ok(IdleCompactionOutcome::Compacted(recommendation)),
            Ok(false) => Ok(IdleCompactionOutcome::NotNeeded),
            Err(source) => Err(source),
        }
    }
}

} // verus!
