use qem::compaction::{CompactionPolicy, Ratio};
use qem::document::Document;
use qem::encoding::{DocumentEncoding, DocumentSaveOptions};
use qem::error::{DocumentError, StorageOpenError};
use qem::path::DocPath;
use qem::persistence::{PreparedSave, SaveHost};
use qem::piece_table::{Piece, PieceRoot, PieceSource, PieceTable, PieceTree};
use qem::rope::Rope;
use qem::storage::FileStorage;
use qem::stream::{
    write_bytes_chunked, write_rope_snapshot, write_snapshot, write_steps, SaveSnapshot,
    WriteStep, SAVE_STREAM_CHUNK_BYTES,
};
use qem::text::LineEnding;
use std::cell::{Cell, RefCell};
use std::io::{Error, ErrorKind};

const LATIN: DocumentEncoding = DocumentEncoding::Other { codec: 1, roundtrip: true };
const WIDE: DocumentEncoding = DocumentEncoding::Other { codec: 2, roundtrip: false };

fn path(text: &str) -> DocPath {
    DocPath::new(text.as_bytes().to_vec())
}

fn writes(steps: &Vec<WriteStep>) -> Vec<Vec<u8>> {
    steps.iter().map(|step| step.bytes.to_vec()).collect()
}

fn progress(steps: &Vec<WriteStep>) -> Vec<u64> {
    steps.iter().map(|step| step.progress).collect()
}

fn schedule(_table: &PieceTable) -> std::io::Result<()> {
    Ok(())
}

fn schedule_fails(_table: &PieceTable) -> std::io::Result<()> {
    Err(Error::new(ErrorKind::Other, "full"))
}

fn latin(text: &str, encoding: DocumentEncoding) -> Result<Vec<u8>, String> {
    if encoding == WIDE {
        return Err("no such text".to_string());
    }
    if encoding == DocumentEncoding::Utf8 {
        return Ok(text.as_bytes().to_vec());
    }
    Ok(text.chars().map(|c| c as u32 as u8).collect())
}

fn not_encoded(_text: &str, _encoding: DocumentEncoding) -> Result<Vec<u8>, String> {
    panic!("nothing to encode")
}

fn no_file(_path: &DocPath) -> Result<FileStorage, StorageOpenError> {
    panic!("nothing to open")
}

fn no_document(_path: DocPath, _encoding: DocumentEncoding) -> Result<Document, DocumentError> {
    panic!("nothing to decode")
}

fn no_sidecar(_path: &DocPath) {}

fn no_report(_total: u64) {}

fn replaced(_path: &DocPath, _steps: &Vec<WriteStep>) -> std::io::Result<()> {
    Ok(())
}

fn rope_document() -> Document {
    let mut document = Document::new();
    document.path = Some(path("/old"));
    document.rope = Some(Rope::new(vec!["a\nb".to_string(), "c\n".to_string()]));
    document.line_ending = LineEnding::Crlf;
    document.dirty = true;
    document.indexing = true;
    document.decoding_had_errors = true;
    document
}

fn table_document() -> Document {
    let mut document = Document::new();
    document.piece_table = Some(PieceTable {
        original: FileStorage::new(path("/doc"), b"hello".to_vec()),
        add: b"XY".to_vec(),
        pieces: PieceTree {
            roots: vec![PieceRoot {
                pieces: vec![
                    Piece { src: PieceSource::Original, start: 0, len: 2, line_breaks: 0 },
                    Piece { src: PieceSource::Add, start: 0, len: 2, line_breaks: 0 },
                    Piece { src: PieceSource::Original, start: 4, len: 1, line_breaks: 0 },
                ],
                total_len: 5,
                known_byte_len: 5,
                known_line_count: 1,
                full_index: true,
            }],
            current: 0,
        },
    });
    document.dirty = true;
    document
}

fn forcing() -> CompactionPolicy {
    CompactionPolicy {
        min_total_bytes: 0,
        min_piece_count: 0,
        small_piece_threshold_bytes: 8,
        max_average_piece_bytes: 0,
        min_fragmentation_ratio: Ratio { numerator: 1, denominator: 1 },
        forced_piece_count: 2,
        forced_fragmentation_ratio: Ratio { numerator: 1, denominator: 1 },
    }
}

#[test]
fn bytes_are_written_in_chunks() {
    let bytes = vec![7u8; 2 * SAVE_STREAM_CHUNK_BYTES + 3];
    let steps = write_bytes_chunked(&bytes, bytes.len() as u64);
    let lens: Vec<usize> = steps.iter().map(|step| step.bytes.len()).collect();
    assert_eq!(lens, vec![SAVE_STREAM_CHUNK_BYTES, SAVE_STREAM_CHUNK_BYTES, 3]);
    let chunk = SAVE_STREAM_CHUNK_BYTES as u64;
    assert_eq!(progress(&steps), vec![chunk, 2 * chunk, 2 * chunk + 3]);
    assert!(write_bytes_chunked(b"", 9).is_empty());
}

#[test]
fn full_chunks_leave_nothing_behind_them() {
    let bytes = vec![1u8; SAVE_STREAM_CHUNK_BYTES];
    assert_eq!(write_bytes_chunked(&bytes, 0).len(), 1);
}

#[test]
fn progress_does_not_pass_the_total() {
    let bytes = vec![7u8; SAVE_STREAM_CHUNK_BYTES + 1];
    let steps = write_bytes_chunked(&bytes, 10);
    assert_eq!(progress(&steps), vec![10, 10]);
}

#[test]
fn ropes_with_newlines_are_written_chunk_by_chunk() {
    let rope = Rope::new(vec!["a\nb".to_string(), String::new(), "\u{e9}".to_string()]);
    let steps = write_rope_snapshot(&rope, LineEnding::Lf, 5);
    assert_eq!(writes(&steps), vec![b"a\nb".to_vec(), Vec::new(), b"\xc3\xa9".to_vec()]);
    assert_eq!(progress(&steps), vec![3, 3, 5]);
}

#[test]
fn ropes_with_other_line_endings_are_written_line_by_line() {
    let rope = Rope::new(vec!["a\n\nb".to_string(), "\nc\n".to_string()]);
    let steps = write_rope_snapshot(&rope, LineEnding::Crlf, 100);
    assert_eq!(
        writes(&steps),
        vec![
            b"a".to_vec(),
            b"\r\n".to_vec(),
            b"\r\n".to_vec(),
            b"b".to_vec(),
            b"\r\n".to_vec(),
            b"c".to_vec(),
            b"\r\n".to_vec(),
        ]
    );
    assert_eq!(progress(&steps), vec![1, 3, 5, 6, 8, 9, 11]);
    let steps = write_rope_snapshot(&rope, LineEnding::Cr, 4);
    assert_eq!(progress(&steps), vec![1, 2, 3, 4, 4, 4, 4]);
}

#[test]
fn pieces_are_written_one_after_the_other() {
    let mut document = table_document();
    let save = document.prepare_save_with_policy(&path("/new"), None, schedule, not_encoded).unwrap();
    assert_eq!(save.total_bytes(), 5);
    let steps = write_snapshot(&save.snapshot, save.total_bytes);
    assert_eq!(writes(&steps), vec![b"he".to_vec(), b"XY".to_vec(), b"o".to_vec()]);
    assert_eq!(progress(&steps), vec![2, 4, 5]);
    assert!(!save.reload_after_save);
}

#[test]
fn an_empty_document_writes_nothing() {
    let mut document = Document::new();
    let save = document.prepare_save(&path("/new"), schedule, not_encoded).unwrap();
    assert!(matches!(save.snapshot, SaveSnapshot::Empty));
    assert_eq!(save.total_bytes, 0);
    assert!(save.reload_after_save);
    assert!(write_snapshot(&save.snapshot, 0).is_empty());
}

#[test]
fn an_unedited_document_writes_its_file() {
    let storage = FileStorage::new(path("/f"), b"abc".to_vec());
    let mut document = Document::from_storage(path("/f"), storage);
    let save = document.prepare_save(&path("/new"), schedule, not_encoded).unwrap();
    assert!(matches!(save.snapshot, SaveSnapshot::Mmap(_)));
    assert_eq!(save.total_bytes, 3);
    assert!(save.reload_after_save);
    assert_eq!(writes(&write_snapshot(&save.snapshot, 3)), vec![b"abc".to_vec()]);
}

#[test]
fn saving_in_another_encoding_writes_what_the_codec_made() {
    let mut document = rope_document();
    document.rope = Some(Rope::new(vec!["\u{e9}\n".to_string()]));
    let save = document
        .prepare_save_with_encoding_and_policy(&path("/new"), LATIN, None, schedule, latin)
        .unwrap();
    assert_eq!(save.total_bytes, 3);
    assert_eq!(save.encoding, LATIN);
    assert_eq!(writes(&write_snapshot(&save.snapshot, 3)), vec![b"\xe9\r\n".to_vec()]);
}

#[test]
fn saving_from_another_encoding_goes_through_the_codec() {
    let mut document = rope_document();
    document.encoding = LATIN;
    let save = document
        .prepare_save_with_encoding_and_policy(&path("/new"), DocumentEncoding::Utf8, None, schedule, latin)
        .unwrap();
    assert!(matches!(save.snapshot, SaveSnapshot::Bytes(_)));
}

#[test]
fn text_that_the_codec_refuses_is_not_saved() {
    let mut document = rope_document();
    let result =
        document.prepare_save_with_encoding_and_policy(&path("/new"), WIDE, None, schedule, latin);
    match result {
        Err(DocumentError::Encoding { path, operation, encoding, message }) => {
            assert_eq!(path.bytes, b"/new".to_vec());
            assert_eq!(operation, "save");
            assert_eq!(encoding, WIDE);
            assert_eq!(message, "no such text");
        }
        _ => panic!("the codec refused the text"),
    }
    assert!(document.dirty);
}

#[test]
fn encodings_that_do_not_round_trip_are_not_preserved() {
    let mut document = rope_document();
    document.encoding = WIDE;
    match document.prepare_save(&path("/new"), schedule, not_encoded) {
        Err(DocumentError::Encoding { path, operation, encoding, message }) => {
            assert_eq!(path.bytes, b"/new".to_vec());
            assert_eq!(operation, "save");
            assert_eq!(encoding, WIDE);
            assert_eq!(
                message,
                "preserve-save is not yet supported for this encoding; use DocumentSaveOptions::with_encoding(...) to convert to a supported target"
            );
        }
        _ => panic!("the encoding does not round-trip"),
    }
    let options = DocumentSaveOptions::new().with_encoding(DocumentEncoding::Utf8);
    let save = document
        .prepare_save_with_options_and_policy(&path("/new"), options, None, schedule, latin)
        .unwrap();
    assert_eq!(save.encoding, DocumentEncoding::Utf8);
}

#[test]
fn forced_compaction_runs_before_a_save() {
    let mut document = table_document();
    let asked = Cell::new(0);
    let save = document
        .prepare_save_with_policy(
            &path("/new"),
            Some(forcing()),
            |table: &PieceTable| {
                asked.set(table.pieces.roots[0].pieces.len());
                Ok(())
            },
            not_encoded,
        )
        .unwrap();
    assert_eq!(asked.get(), 1);
    assert_eq!(writes(&write_snapshot(&save.snapshot, 5)), vec![b"heXYo".to_vec()]);
    assert_eq!(document.piece_table.unwrap().pieces.roots.len(), 1);
}

#[test]
fn deferred_compaction_does_not_run_before_a_save() {
    let mut document = table_document();
    let mut policy = forcing();
    policy.forced_piece_count = 4;
    policy.max_average_piece_bytes = 8;
    assert!(document.compaction_recommendation_with_policy(policy).is_some());
    let compacted = document.maybe_force_compact_before_save_with_policy(policy, schedule_fails);
    assert!(matches!(compacted, Ok(false)));
    assert_eq!(document.piece_table.unwrap().pieces.roots[0].pieces.len(), 3);
}

#[test]
fn a_save_stops_where_forced_compaction_fails() {
    let mut document = table_document();
    let result =
        document.prepare_save_with_policy(&path("/new"), Some(forcing()), schedule_fails, not_encoded);
    match result {
        Err(DocumentError::Write { path, source }) => {
            assert_eq!(path.bytes, b"/doc.qem.editlog".to_vec());
            assert_eq!(source.to_string(), "full");
        }
        _ => panic!("the session store failed"),
    }
}

#[test]
fn executing_a_save_hands_over_the_writes_and_reports_the_total() {
    let mut document = rope_document();
    let save = document.prepare_save(&path("/new"), schedule, not_encoded).unwrap();
    let written = RefCell::new(Vec::new());
    let reported = Cell::new(0);
    let completion = save
        .execute(
            |at: &DocPath, steps: &Vec<WriteStep>| {
                assert_eq!(at.bytes, b"/new".to_vec());
                for step in steps {
                    written.borrow_mut().extend_from_slice(step.bytes);
                }
                Ok(())
            },
            |total: u64| reported.set(total),
        )
        .unwrap();
    assert_eq!(written.into_inner(), b"a\r\nbc\r\n".to_vec());
    assert_eq!(reported.get(), 7);
    assert_eq!(completion.path.bytes, b"/new".to_vec());
    assert!(!completion.reload_after_save);
    assert_eq!(completion.encoding, DocumentEncoding::Utf8);
}

#[test]
fn a_file_that_cannot_be_replaced_is_a_write_error() {
    let save = PreparedSave {
        path: path("/new"),
        total_bytes: 1,
        reload_after_save: false,
        encoding: DocumentEncoding::Utf8,
        snapshot: SaveSnapshot::Bytes(vec![1]),
    };
    let reported = Cell::new(false);
    let result = save.execute(
        |_: &DocPath, _: &Vec<WriteStep>| Err(Error::new(ErrorKind::Other, "denied")),
        |_: u64| reported.set(true),
    );
    match result {
        Err(DocumentError::Write { path, source }) => {
            assert_eq!(path.bytes, b"/new".to_vec());
            assert_eq!(source.to_string(), "denied");
        }
        _ => panic!("the file was not replaced"),
    }
    assert!(!reported.get());
}

#[test]
fn saving_an_edited_document_leaves_it_clean_in_place() {
    let mut document = rope_document();
    let cleared = RefCell::new(Vec::new());
    let result = document.save_to(
        &path("/new"),
        SaveHost {
            schedule,
            encode: not_encoded,
            replace: replaced,
            report: no_report,
            remove: |sidecar: &DocPath| cleared.borrow_mut().push(sidecar.bytes.clone()),
            open: no_file,
            decode: no_document,
        },
    );
    assert!(result.is_ok());
    assert_eq!(
        cleared.into_inner(),
        vec![b"/old.qem.editlog".to_vec(), b"/new.qem.editlog".to_vec()]
    );
    assert_eq!(document.path.as_ref().unwrap().bytes, b"/new".to_vec());
    assert!(!document.dirty);
    assert!(!document.indexing);
    assert!(!document.decoding_had_errors);
    assert_eq!(document.encoding, DocumentEncoding::Utf8);
    assert_eq!(document.rendered_text_for_save(), "a\r\nbc\r\n");
}

#[test]
fn saving_an_unedited_document_reads_it_back() {
    let storage = FileStorage::new(path("/f"), b"abc\r\n".to_vec());
    let mut document = Document::from_storage(path("/f"), storage);
    let file = RefCell::new(Vec::new());
    let result = document.save_to(
        &path("/new"),
        SaveHost {
            schedule,
            encode: not_encoded,
            replace: |_: &DocPath, steps: &Vec<WriteStep>| {
                for step in steps {
                    file.borrow_mut().extend_from_slice(step.bytes);
                }
                Ok(())
            },
            report: no_report,
            remove: no_sidecar,
            open: |at: &DocPath| Ok(FileStorage::new(at.clone(), file.borrow().clone())),
            decode: no_document,
        },
    );
    assert!(result.is_ok());
    assert_eq!(document.mmap_bytes(), b"abc\r\n");
    assert_eq!(document.path.as_ref().unwrap().bytes, b"/new".to_vec());
    assert_eq!(document.storage.as_ref().unwrap().path().bytes, b"/new".to_vec());
    assert_eq!(document.line_ending, LineEnding::Crlf);
}

#[test]
fn a_file_that_cannot_be_reopened_is_an_open_error() {
    let storage = FileStorage::new(path("/f"), b"abc".to_vec());
    let mut document = Document::from_storage(path("/f"), storage);
    document.indexing = true;
    let result = document.finish_save(
        path("/new"),
        true,
        DocumentEncoding::Utf8,
        no_sidecar,
        |_: &DocPath| Err(StorageOpenError::Open(Error::new(ErrorKind::NotFound, "gone"))),
        no_document,
    );
    match result {
        Err(DocumentError::Open { path, source }) => {
            assert_eq!(path.bytes, b"/new".to_vec());
            assert_eq!(source.to_string(), "gone");
        }
        _ => panic!("the file could not be opened"),
    }
    assert!(!document.indexing);
    assert_eq!(document.mmap_bytes(), b"abc");
    assert_eq!(document.path.unwrap().bytes, b"/f".to_vec());
}

#[test]
fn a_file_that_cannot_be_mapped_is_a_map_error() {
    let storage = FileStorage::new(path("/f"), b"abc".to_vec());
    let mut document = Document::from_storage(path("/f"), storage);
    let result = document.finish_save(
        path("/new"),
        true,
        DocumentEncoding::Utf8,
        no_sidecar,
        |_: &DocPath| Err(StorageOpenError::MapFile(Error::new(ErrorKind::Other, "large"))),
        no_document,
    );
    match result {
        Err(DocumentError::MapFile { path, source }) => {
            assert_eq!(path.bytes, b"/new".to_vec());
            assert_eq!(source.to_string(), "large");
        }
        _ => panic!("the file could not be mapped"),
    }
}

#[test]
fn saving_in_another_encoding_reads_it_back_through_the_codec() {
    let storage = FileStorage::new(path("/f"), b"a\xc3\xa9".to_vec());
    let mut document = Document::from_storage(path("/f"), storage);
    let file = RefCell::new(Vec::new());
    let result = document.save_to_with_encoding(
        &path("/new"),
        LATIN,
        SaveHost {
            schedule,
            encode: latin,
            replace: |_: &DocPath, steps: &Vec<WriteStep>| {
                for step in steps {
                    file.borrow_mut().extend_from_slice(step.bytes);
                }
                Ok(())
            },
            report: no_report,
            remove: no_sidecar,
            open: no_file,
            decode: |at: DocPath, encoding: DocumentEncoding| {
                let text: String = file.borrow().iter().map(|byte| *byte as char).collect();
                let mut opened = Document::new();
                opened.path = Some(at);
                opened.encoding = encoding;
                opened.rope = Some(Rope::new(vec![text]));
                Ok(opened)
            },
        },
    );
    assert!(result.is_ok());
    assert_eq!(file.into_inner(), b"a\xe9".to_vec());
    assert_eq!(document.encoding, LATIN);
    assert_eq!(document.rendered_text_for_save(), "a\u{e9}");
}

#[test]
fn an_error_of_the_codec_on_reading_back_is_handed_on() {
    let mut document = Document::new();
    document.encoding = LATIN;
    let result = document.finish_save(
        path("/new"),
        true,
        LATIN,
        no_sidecar,
        no_file,
        |at: DocPath, _: DocumentEncoding| {
            Err(DocumentError::Open { path: at, source: Error::new(ErrorKind::Other, "gone") })
        },
    );
    assert!(matches!(result, Err(DocumentError::Open { .. })));
    assert!(document.path.is_none());
}

#[test]
fn a_failed_save_leaves_the_document_dirty() {
    let mut document = rope_document();
    let result = document.save_to_with_options(
        &path("/new"),
        DocumentSaveOptions::new(),
        SaveHost {
            schedule,
            encode: not_encoded,
            replace: |_: &DocPath, _: &Vec<WriteStep>| Err(Error::new(ErrorKind::Other, "denied")),
            report: no_report,
            remove: |_: &DocPath| panic!("nothing to clear"),
            open: no_file,
            decode: no_document,
        },
    );
    assert!(matches!(result, Err(DocumentError::Write { .. })));
    assert!(document.dirty);
    assert_eq!(document.path.unwrap().bytes, b"/old".to_vec());
}

/// What a stream of steps has done so far.
#[derive(Default)]
struct Sink {
    file: Vec<u8>,
    reported: Vec<u64>,
    calls: usize,
}

fn note(mut sink: Sink, done: u64) -> Sink {
    sink.reported.push(done);
    sink
}

#[test]
fn steps_are_carried_out_in_order() {
    let rope = Rope::new(vec!["a\nb".to_string()]);
    let steps = write_rope_snapshot(&rope, LineEnding::Crlf, 4);
    let (sink, result) = write_steps(
        &steps,
        Sink::default(),
        |mut sink: Sink, bytes: &[u8]| {
            sink.file.extend_from_slice(bytes);
            sink.calls += 1;
            (sink, Ok(()))
        },
        note,
    );
    assert!(result.is_ok());
    assert_eq!(sink.file, b"a\r\nb".to_vec());
    assert_eq!(sink.reported, vec![1, 3, 4]);
    assert_eq!(sink.calls, 3);
}

#[test]
fn the_first_write_that_fails_ends_the_stream() {
    let rope = Rope::new(vec!["a\nb".to_string()]);
    let steps = write_rope_snapshot(&rope, LineEnding::Crlf, 4);
    let (sink, result) = write_steps(
        &steps,
        Sink::default(),
        |mut sink: Sink, bytes: &[u8]| {
            sink.calls += 1;
            if sink.calls == 2 {
                return (sink, Err(Error::new(ErrorKind::Other, "full")));
            }
            sink.file.extend_from_slice(bytes);
            (sink, Ok(()))
        },
        note,
    );
    assert_eq!(result.unwrap_err().to_string(), "full");
    assert_eq!(sink.file, b"a".to_vec());
    assert_eq!(sink.calls, 2);
    assert_eq!(sink.reported, vec![1]);
}

#[test]
fn no_steps_leave_the_file_as_it_is() {
    let steps = write_snapshot(&SaveSnapshot::Empty, 0);
    let (sink, result) = write_steps(
        &steps,
        Sink::default(),
        |sink: Sink, _: &[u8]| (sink, Err(Error::new(ErrorKind::Other, "called"))),
        note,
    );
    assert!(result.is_ok());
    assert_eq!(sink.calls, 0);
    assert!(sink.reported.is_empty());
}

#[test]
fn all_chunks_but_the_last_are_full() {
    let bytes = vec![7u8; 2 * SAVE_STREAM_CHUNK_BYTES + 5];
    let steps = write_bytes_chunked(&bytes, bytes.len() as u64);
    let lengths: Vec<usize> = steps.iter().map(|step| step.bytes.len()).collect();
    assert_eq!(lengths, vec![SAVE_STREAM_CHUNK_BYTES, SAVE_STREAM_CHUNK_BYTES, 5]);
}
