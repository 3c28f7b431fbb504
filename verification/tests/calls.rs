use qem::compaction::{CompactionPolicy, Ratio};
use qem::document::Document;
use qem::encoding::{DocumentEncoding, DocumentSaveOptions};
use qem::error::{DocumentError, StorageOpenError};
use qem::path::DocPath;
use qem::persistence::{clear_session_sidecar, SaveHost};
use qem::piece_table::{Piece, PieceRoot, PieceSource, PieceTable, PieceTree};
use qem::rope::Rope;
use qem::storage::FileStorage;
use qem::stream::WriteStep;
use std::cell::RefCell;
use std::io::{Error, ErrorKind};

const LATIN: DocumentEncoding = DocumentEncoding::Other { codec: 1, roundtrip: true };
const WIDE: DocumentEncoding = DocumentEncoding::Other { codec: 2, roundtrip: false };

fn path(text: &str) -> DocPath {
    DocPath::new(text.as_bytes().to_vec())
}

fn name(path: &DocPath) -> String {
    String::from_utf8(path.bytes.clone()).unwrap()
}

/// What the host of a save answers.
struct Answers {
    schedule: bool,
    encode: bool,
    replace: bool,
}

const ALL_WELL: Answers = Answers { schedule: true, encode: true, replace: true };

fn answer(well: bool) -> std::io::Result<()> {
    if well {
        Ok(())
    } else {
        Err(Error::new(ErrorKind::Other, "failed"))
    }
}

/// Saves the document to `/new`, and returns every call of the host, in order.
fn calls_of_save(
    document: &mut Document,
    options: DocumentSaveOptions,
    answers: Answers,
) -> (Vec<String>, Result<(), DocumentError>) {
    let log = RefCell::new(Vec::new());
    let call = |text: String| log.borrow_mut().push(text);
    let host = SaveHost {
        schedule: |table: &PieceTable| {
            call(format!("schedule {}", table.pieces.root().pieces.len()));
            answer(answers.schedule)
        },
        encode: |text: &str, _: DocumentEncoding| {
            call(format!("encode {}", text));
            if answers.encode {
                Ok(text.as_bytes().to_vec())
            } else {
                Err("failed".to_string())
            }
        },
        replace: |at: &DocPath, steps: &Vec<WriteStep<'_>>| {
            let bytes: Vec<u8> = steps.iter().flat_map(|step| step.bytes.to_vec()).collect();
            call(format!("replace {} {}", name(at), String::from_utf8(bytes).unwrap()));
            answer(answers.replace)
        },
        report: |total: u64| call(format!("report {}", total)),
        remove: |sidecar: &DocPath| call(format!("remove {}", name(sidecar))),
        open: |at: &DocPath| -> Result<FileStorage, StorageOpenError> {
            call(format!("open {}", name(at)));
            Ok(FileStorage::new(at.clone(), b"opened".to_vec()))
        },
        decode: |at: DocPath, _: DocumentEncoding| -> Result<Document, DocumentError> {
            call(format!("decode {}", name(&at)));
            Ok(Document::new())
        },
    };
    let result = document.save_to_with_options(&path("/new"), options, host);
    (log.into_inner(), result)
}

fn rope_document() -> Document {
    let mut document = Document::new();
    document.path = Some(path("/old"));
    document.rope = Some(Rope::new(vec!["ab".to_string()]));
    document.dirty = true;
    document
}

fn opened_document() -> Document {
    Document::from_storage(path("/old"), FileStorage::new(path("/old"), b"ab".to_vec()))
}

/// A document in so many pieces that the default policy forces a compaction.
fn scattered_document() -> Document {
    let bytes = vec![b'x'; 1024 * 1024];
    let mut pieces = Vec::new();
    for i in 0..8192 {
        pieces.push(Piece { src: PieceSource::Original, start: i * 128, len: 128, line_breaks: 0 });
    }
    let root = PieceRoot {
        pieces,
        total_len: bytes.len(),
        known_byte_len: bytes.len(),
        known_line_count: 1,
        full_index: true,
    };
    let mut document = Document::new();
    document.path = Some(path("/old"));
    document.piece_table = Some(PieceTable {
        original: FileStorage::new(path("/old"), bytes),
        add: Vec::new(),
        pieces: PieceTree { roots: vec![root], current: 0 },
    });
    assert!(document.is_valid());
    document
}

#[test]
fn a_save_in_place_writes_reports_and_clears_both_sidecars() {
    let mut document = rope_document();
    let (calls, result) = calls_of_save(&mut document, DocumentSaveOptions::new(), ALL_WELL);
    assert!(result.is_ok());
    assert_eq!(
        calls,
        vec![
            "replace /new ab",
            "report 2",
            "remove /old.qem.editlog",
            "remove /new.qem.editlog",
        ]
    );
}

#[test]
fn a_save_of_an_opened_document_opens_the_file_last() {
    let mut document = opened_document();
    let (calls, result) = calls_of_save(&mut document, DocumentSaveOptions::new(), ALL_WELL);
    assert!(result.is_ok());
    assert_eq!(
        calls,
        vec![
            "replace /new ab",
            "report 2",
            "remove /old.qem.editlog",
            "remove /new.qem.editlog",
            "open /new",
        ]
    );
}

#[test]
fn a_save_in_another_encoding_decodes_the_file_last() {
    let mut document = opened_document();
    let options = DocumentSaveOptions::new().with_encoding(LATIN);
    let (calls, result) = calls_of_save(&mut document, options, ALL_WELL);
    assert!(result.is_ok());
    assert_eq!(
        calls,
        vec![
            "encode ab",
            "replace /new ab",
            "report 2",
            "remove /old.qem.editlog",
            "remove /new.qem.editlog",
            "decode /new",
        ]
    );
}

#[test]
fn a_document_without_a_path_has_one_sidecar_cleared() {
    let mut document = rope_document();
    document.path = None;
    let (calls, result) = calls_of_save(&mut document, DocumentSaveOptions::new(), ALL_WELL);
    assert!(result.is_ok());
    assert_eq!(calls, vec!["replace /new ab", "report 2", "remove /new.qem.editlog"]);
}

#[test]
fn a_refused_save_calls_nothing() {
    let mut document = rope_document();
    document.encoding = WIDE;
    let (calls, result) = calls_of_save(&mut document, DocumentSaveOptions::new(), ALL_WELL);
    assert!(matches!(result, Err(DocumentError::Encoding { .. })));
    assert!(calls.is_empty());
    assert!(document.dirty);
}

#[test]
fn a_save_stops_where_the_codec_refuses() {
    let mut document = rope_document();
    let options = DocumentSaveOptions::new().with_encoding(LATIN);
    let answers = Answers { encode: false, ..ALL_WELL };
    let (calls, result) = calls_of_save(&mut document, options, answers);
    assert!(matches!(result, Err(DocumentError::Encoding { .. })));
    assert_eq!(calls, vec!["encode ab"]);
}

#[test]
fn a_save_stops_where_the_file_is_not_replaced() {
    let mut document = opened_document();
    let answers = Answers { replace: false, ..ALL_WELL };
    let (calls, result) = calls_of_save(&mut document, DocumentSaveOptions::new(), answers);
    assert!(matches!(result, Err(DocumentError::Write { .. })));
    assert_eq!(calls, vec!["replace /new ab"]);
}

#[test]
fn a_save_stops_where_the_forced_compaction_is_not_noted() {
    let mut document = scattered_document();
    let answers = Answers { schedule: false, ..ALL_WELL };
    let (calls, result) = calls_of_save(&mut document, DocumentSaveOptions::new(), answers);
    assert!(matches!(result, Err(DocumentError::Write { .. })));
    assert_eq!(calls, vec!["schedule 1"]);
}

#[test]
fn forced_compaction_comes_before_the_writes() {
    let mut document = scattered_document();
    let (calls, result) = calls_of_save(&mut document, DocumentSaveOptions::new(), ALL_WELL);
    assert!(result.is_ok());
    assert_eq!(calls.len(), 5);
    assert_eq!(calls[0], "schedule 1");
    assert!(calls[1].starts_with("replace /new xxx"));
    assert_eq!(calls[2], "report 1048576");
}

#[test]
fn clearing_a_sidecar_removes_the_sidecar_and_nothing_else() {
    let removed = RefCell::new(Vec::new());
    clear_session_sidecar(&path("/doc"), &|at: &DocPath| removed.borrow_mut().push(name(at)));
    assert_eq!(removed.into_inner(), vec!["/doc.qem.editlog"]);
}

#[test]
fn a_flush_without_a_session_calls_nothing() {
    let mut document = rope_document();
    let result = document.flush_session(|_: &PieceTable| panic!("flushed"));
    assert!(result.is_ok());
}

#[test]
fn history_and_compaction_with_nothing_to_do_call_nothing() {
    let mut document = opened_document();
    let storage = FileStorage::new(path("/old"), b"ab".to_vec());
    document.piece_table = Some(PieceTable::new(storage));
    assert!(!document.try_undo(|_: &PieceTable| panic!("scheduled")).unwrap());
    assert!(!document.try_redo(|_: &PieceTable| panic!("scheduled")).unwrap());
    assert!(!document.compact_piece_table(|_: &PieceTable| panic!("scheduled")).unwrap());
}

#[test]
fn an_idle_pass_calls_nothing_where_a_forced_compaction_is_due() {
    let mut document = scattered_document();
    let outcome = document.run_idle_compaction(|_: &PieceTable| panic!("scheduled")).unwrap();
    assert!(outcome.is_forced_pending());
    let lenient = CompactionPolicy {
        min_fragmentation_ratio: Ratio { numerator: 2, denominator: 1 },
        forced_fragmentation_ratio: Ratio { numerator: 2, denominator: 1 },
        ..CompactionPolicy::default()
    };
    let compacted = document
        .compact_piece_table_if_recommended(lenient, |_: &PieceTable| panic!("scheduled"))
        .unwrap();
    assert!(compacted.is_none());
}
