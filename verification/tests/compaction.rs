use qem::compaction::{
    CompactionPolicy, CompactionUrgency, IdleCompactionOutcome, Ratio,
};
use qem::document::Document;
use qem::path::DocPath;
use qem::piece_table::{Piece, PieceRoot, PieceSource, PieceTable, PieceTree};
use qem::storage::FileStorage;
use std::cell::Cell;
use std::io::{Error, ErrorKind};

fn path(text: &str) -> DocPath {
    DocPath::new(text.as_bytes().to_vec())
}

fn root(pieces: Vec<Piece>) -> PieceRoot {
    let total_len = pieces.iter().map(|piece| piece.len).sum();
    let breaks: usize = pieces.iter().map(|piece| piece.line_breaks).sum();
    PieceRoot {
        pieces,
        total_len,
        known_byte_len: total_len,
        known_line_count: breaks + 1,
        full_index: true,
    }
}

fn piece(src: PieceSource, start: usize, len: usize, line_breaks: usize) -> Piece {
    Piece { src, start, len, line_breaks }
}

/// The file `ab\ncd` with `XY\r\n` added: first as it was, then `abXY\r\n\ncd`, then
/// `XY\r\n`.
fn table() -> PieceTable {
    PieceTable {
        original: FileStorage::new(path("/doc/a.txt"), b"ab\ncd".to_vec()),
        add: b"XY\r\n".to_vec(),
        pieces: PieceTree {
            roots: vec![
                root(vec![piece(PieceSource::Original, 0, 5, 1)]),
                root(vec![
                    piece(PieceSource::Original, 0, 2, 0),
                    piece(PieceSource::Add, 0, 4, 1),
                    piece(PieceSource::Original, 2, 3, 1),
                ]),
                root(vec![piece(PieceSource::Add, 0, 4, 1)]),
            ],
            current: 1,
        },
    }
}

fn document(table: PieceTable) -> Document {
    let mut document = Document::new();
    document.path = Some(path("/doc/a.txt"));
    document.piece_table = Some(table);
    document
}

fn policy() -> CompactionPolicy {
    CompactionPolicy {
        min_total_bytes: 9,
        min_piece_count: 3,
        small_piece_threshold_bytes: 2,
        max_average_piece_bytes: 3,
        min_fragmentation_ratio: Ratio { numerator: 1, denominator: 3 },
        forced_piece_count: 3,
        forced_fragmentation_ratio: Ratio { numerator: 1, denominator: 2 },
    }
}

fn ok(_table: &PieceTable) -> std::io::Result<()> {
    Ok(())
}

#[test]
fn default_policy_has_the_documented_thresholds() {
    let policy = CompactionPolicy::default();
    assert_eq!(policy.min_total_bytes, 1_048_576);
    assert_eq!(policy.min_piece_count, 1024);
    assert_eq!(policy.small_piece_threshold_bytes, 1024);
    assert_eq!(policy.max_average_piece_bytes, 4096);
    assert_eq!(policy.min_fragmentation_ratio, Ratio { numerator: 35, denominator: 100 });
    assert_eq!(policy.forced_piece_count, 8192);
    assert_eq!(policy.forced_fragmentation_ratio, Ratio { numerator: 50, denominator: 100 });
}

#[test]
fn stats_count_small_pieces() {
    let stats = table().fragmentation_stats_with_threshold(3);
    assert_eq!(stats.total_bytes, 9);
    assert_eq!(stats.piece_count, 3);
    assert_eq!(stats.small_piece_count, 2);
    assert_eq!(stats.small_piece_threshold_bytes, 3);
    assert!(stats.fragmentation_reaches(Ratio { numerator: 2, denominator: 3 }));
    assert!(!stats.fragmentation_reaches(Ratio { numerator: 3, denominator: 4 }));
    assert!(!stats.fragmentation_reaches(Ratio { numerator: 1, denominator: 0 }));
    assert!(stats.average_piece_bytes_within(3));
    assert!(!stats.average_piece_bytes_within(2));
}

#[test]
fn no_pieces_are_a_share_of_zero() {
    let empty = PieceTable::new(FileStorage::new(path("/e"), Vec::new()));
    let stats = empty.fragmentation_stats();
    assert_eq!(stats.piece_count, 0);
    assert!(stats.fragmentation_reaches(Ratio { numerator: 0, denominator: 1 }));
    assert!(!stats.fragmentation_reaches(Ratio { numerator: 1, denominator: 100 }));
    assert!(stats.average_piece_bytes_within(0));
}

#[test]
fn recommendation_is_deferred_between_the_thresholds() {
    let document = document(table());
    let recommendation = document.compaction_recommendation_with_policy(policy()).unwrap();
    assert_eq!(recommendation.urgency(), CompactionUrgency::Deferred);
    assert_eq!(recommendation.stats().small_piece_count, 1);
    assert_eq!(recommendation.stats().piece_count, 3);
}

#[test]
fn recommendation_is_forced_from_both_hard_thresholds_on() {
    let document = document(table());
    let mut wanted = policy();
    wanted.small_piece_threshold_bytes = 3;
    let recommendation = document.compaction_recommendation_with_policy(wanted).unwrap();
    assert_eq!(recommendation.urgency(), CompactionUrgency::Forced);
    wanted.forced_piece_count = 4;
    let recommendation = document.compaction_recommendation_with_policy(wanted).unwrap();
    assert_eq!(recommendation.urgency(), CompactionUrgency::Deferred);
}

#[test]
fn nothing_is_recommended_below_the_minimums() {
    let document = document(table());
    let mut wanted = policy();
    wanted.min_total_bytes = 10;
    assert!(document.compaction_recommendation_with_policy(wanted).is_none());
    wanted = policy();
    wanted.min_piece_count = 4;
    assert!(document.compaction_recommendation_with_policy(wanted).is_none());
    wanted = policy();
    wanted.max_average_piece_bytes = 2;
    assert!(document.compaction_recommendation_with_policy(wanted).is_none());
    wanted = policy();
    wanted.min_fragmentation_ratio = Ratio { numerator: 1, denominator: 2 };
    assert!(document.compaction_recommendation_with_policy(wanted).is_none());
    assert!(document.compaction_recommendation().is_none());
    assert!(Document::new().compaction_recommendation_with_policy(policy()).is_none());
}

#[test]
fn compaction_rewrites_the_current_entry_only() {
    let mut table = table();
    let asked = Cell::new(0);
    let result = table.compact_current_state(|compacted: &PieceTable| {
        asked.set(compacted.add.len());
        Ok(())
    });
    assert!(matches!(result, Ok(true)));
    assert_eq!(asked.get(), 13);
    assert_eq!(table.read_all(), b"abXY\r\n\ncd".to_vec());
    assert_eq!(table.add, b"XY\r\nabXY\r\n\ncd".to_vec());
    assert_eq!(table.pieces.current, 1);
    assert_eq!(table.pieces.roots.len(), 3);
    let current = &table.pieces.roots[1];
    assert_eq!(current.pieces, vec![piece(PieceSource::Add, 4, 9, 2)]);
    assert_eq!(current.total_len, 9);
    assert_eq!(current.known_byte_len, 9);
    assert_eq!(current.known_line_count, 3);
    assert!(current.full_index);
    assert_eq!(table.pieces.roots[0].pieces, vec![piece(PieceSource::Original, 0, 5, 1)]);
    assert_eq!(table.pieces.roots[2].pieces, vec![piece(PieceSource::Add, 0, 4, 1)]);
    assert!(table.is_valid());
}

#[test]
fn compaction_of_a_compact_table_does_nothing() {
    let mut table = table();
    assert!(matches!(table.compact_current_state(ok), Ok(true)));
    let asked = Cell::new(false);
    let result = table.compact_current_state(|_: &PieceTable| {
        asked.set(true);
        Ok(())
    });
    assert!(matches!(result, Ok(false)));
    assert!(!asked.get());
    assert_eq!(table.add.len(), 13);
}

#[test]
fn compaction_of_one_piece_that_is_not_indexed_rewrites_it() {
    let mut table = PieceTable::new(FileStorage::new(path("/p"), b"a\rb\n".to_vec()));
    table.pieces.roots[0].full_index = false;
    table.pieces.roots[0].known_byte_len = 1;
    assert!(matches!(table.compact_current_state(ok), Ok(true)));
    assert_eq!(table.pieces.roots[0].pieces, vec![piece(PieceSource::Add, 0, 4, 2)]);
    assert_eq!(table.pieces.roots[0].known_byte_len, 4);
}

#[test]
fn compaction_of_nothing_leaves_no_piece() {
    let mut table = PieceTable::new(FileStorage::new(path("/p"), Vec::new()));
    table.pieces.roots[0].full_index = false;
    assert!(matches!(table.compact_current_state(ok), Ok(true)));
    assert!(table.pieces.roots[0].pieces.is_empty());
    assert_eq!(table.pieces.roots[0].known_line_count, 1);
}

#[test]
fn compaction_stands_where_the_session_store_fails() {
    let mut document = document(table());
    let result =
        document.compact_piece_table(|_: &PieceTable| Err(Error::new(ErrorKind::Other, "full")));
    assert_eq!(result.unwrap_err().to_string(), "full");
    assert_eq!(document.piece_table.unwrap().pieces.roots[1].pieces.len(), 1);
}

#[test]
fn documents_without_a_piece_table_are_not_compacted() {
    let mut document = Document::new();
    assert!(matches!(document.compact_piece_table(ok), Ok(false)));
    assert!(matches!(
        document.run_idle_compaction(ok),
        Ok(IdleCompactionOutcome::NotNeeded)
    ));
}

#[test]
fn recommended_compaction_answers_with_its_recommendation() {
    let mut document = document(table());
    let recommended = document.compaction_recommendation_with_policy(policy());
    let result = document.compact_piece_table_if_recommended(policy(), ok).unwrap();
    assert_eq!(result, recommended);
    assert!(result.is_some());
    let again = document.compact_piece_table_if_recommended(policy(), ok).unwrap();
    assert!(again.is_none());
}

#[test]
fn idle_pass_runs_deferred_compaction() {
    let mut document = document(table());
    let recommended = document.compaction_recommendation_with_policy(policy());
    let outcome = document.run_idle_compaction_with_policy(policy(), ok).unwrap();
    assert!(outcome.is_compacted());
    assert!(!outcome.is_forced_pending());
    assert_eq!(outcome.recommendation(), recommended);
    assert_eq!(document.piece_table.unwrap().pieces.roots[1].pieces.len(), 1);
}

#[test]
fn idle_pass_leaves_forced_compaction_pending() {
    let mut document = document(table());
    let mut wanted = policy();
    wanted.small_piece_threshold_bytes = 3;
    let outcome = document.run_idle_compaction_with_policy(wanted, ok).unwrap();
    assert!(outcome.is_forced_pending());
    assert!(!outcome.is_compacted());
    assert_eq!(outcome.recommendation().unwrap().urgency(), CompactionUrgency::Forced);
    assert_eq!(document.piece_table.unwrap().pieces.roots[1].pieces.len(), 3);
    assert!(IdleCompactionOutcome::NotNeeded.recommendation().is_none());
}

#[test]
fn idle_pass_hands_on_the_error_of_the_session_store() {
    let mut document = document(table());
    let result = document.run_idle_compaction_with_policy(policy(), |_: &PieceTable| {
        Err(Error::new(ErrorKind::Other, "full"))
    });
    assert_eq!(result.unwrap_err().to_string(), "full");
}

#[test]
fn tables_that_tell_untruths_are_not_valid() {
    assert!(table().is_valid());
    let mut wrong = table();
    wrong.pieces.current = 3;
    assert!(!wrong.is_valid());
    wrong = table();
    wrong.pieces.roots[2].pieces[0].len = 5;
    assert!(!wrong.is_valid());
    wrong = table();
    wrong.pieces.roots[0].total_len = 4;
    assert!(!wrong.is_valid());
    wrong = table();
    wrong.pieces.roots[0].known_line_count = 1;
    assert!(!wrong.is_valid());
    wrong = table();
    wrong.pieces.roots[0].pieces[0].start = usize::MAX;
    assert!(!wrong.is_valid());
}
