use qem::document::Document;
use qem::error::DocumentError;
use qem::path::{editlog_path, session_sidecar_path, DocPath};
use qem::piece_table::{Piece, PieceRoot, PieceSource, PieceTable, PieceTree};
use qem::rope::Rope;
use qem::storage::FileStorage;
use std::cell::Cell;
use std::io::{Error, ErrorKind};

fn path(text: &str) -> DocPath {
    DocPath::new(text.as_bytes().to_vec())
}

fn entry(len: usize) -> PieceRoot {
    PieceRoot {
        pieces: vec![Piece { src: PieceSource::Original, start: 0, len, line_breaks: 0 }],
        total_len: len,
        known_byte_len: len,
        known_line_count: 1,
        full_index: true,
    }
}

fn document(current: usize) -> Document {
    let mut document = Document::new();
    document.piece_table = Some(PieceTable {
        original: FileStorage::new(path("/doc/b.txt"), b"abc".to_vec()),
        add: Vec::new(),
        pieces: PieceTree { roots: vec![entry(1), entry(2), entry(3)], current },
    });
    document
}

fn ok(_table: &PieceTable) -> std::io::Result<()> {
    Ok(())
}

fn fails(_table: &PieceTable) -> std::io::Result<()> {
    Err(Error::new(ErrorKind::Other, "full"))
}

fn bytes(document: &Document) -> Vec<u8> {
    match &document.piece_table {
        Some(table) => table.read_all(),
        None => Vec::new(),
    }
}

#[test]
fn undo_goes_back_one_entry() {
    let mut document = document(2);
    let seen = Cell::new(usize::MAX);
    let result = document.try_undo(|table: &PieceTable| {
        seen.set(table.pieces.current);
        Ok(())
    });
    assert!(matches!(result, Ok(true)));
    assert_eq!(seen.get(), 1);
    assert_eq!(bytes(&document), b"ab".to_vec());
    assert!(document.dirty);
}

#[test]
fn undo_at_the_oldest_entry_does_nothing() {
    let mut document = document(0);
    let asked = Cell::new(false);
    let result = document.try_undo(|_: &PieceTable| {
        asked.set(true);
        Ok(())
    });
    assert!(matches!(result, Ok(false)));
    assert!(!asked.get());
    assert!(!document.dirty);
}

#[test]
fn redo_goes_on_one_entry() {
    let mut document = document(1);
    assert!(matches!(document.try_redo(ok), Ok(true)));
    assert_eq!(bytes(&document), b"abc".to_vec());
    assert!(document.dirty);
    document.dirty = false;
    assert!(matches!(document.try_redo(ok), Ok(false)));
    assert!(!document.dirty);
}

#[test]
fn redo_reverts_undo() {
    let mut document = document(1);
    assert!(document.undo(ok));
    assert_eq!(bytes(&document), b"a".to_vec());
    assert!(document.redo(ok));
    assert_eq!(bytes(&document), b"ab".to_vec());
}

#[test]
fn undo_reverts_redo() {
    let mut document = document(1);
    assert!(document.redo(ok));
    assert!(document.undo(ok));
    assert_eq!(bytes(&document), b"ab".to_vec());
}

#[test]
fn undo_stands_where_the_session_store_fails() {
    let mut document = document(1);
    match document.try_undo(fails) {
        Err(DocumentError::Write { path, source }) => {
            assert_eq!(path.bytes, b"/doc/b.txt.qem.editlog".to_vec());
            assert_eq!(source.to_string(), "full");
        }
        _ => panic!("the session store failed"),
    }
    assert!(document.dirty);
    assert_eq!(bytes(&document), b"a".to_vec());
}

#[test]
fn redo_stands_where_the_session_store_fails() {
    let mut document = document(1);
    document.path = Some(path("/doc/c.txt"));
    match document.try_redo(fails) {
        Err(DocumentError::Write { path, source }) => {
            assert_eq!(path.bytes, b"/doc/c.txt.qem.editlog".to_vec());
            assert_eq!(source.to_string(), "full");
        }
        _ => panic!("the session store failed"),
    }
    assert!(document.dirty);
    assert_eq!(bytes(&document), b"abc".to_vec());
}

#[test]
fn plain_undo_and_redo_answer_false_for_an_error() {
    let mut document = document(1);
    assert!(!document.undo(fails));
    assert_eq!(bytes(&document), b"a".to_vec());
    assert!(!document.undo(ok));
    assert!(!document.redo(fails));
    assert_eq!(bytes(&document), b"ab".to_vec());
}

#[test]
fn undo_after_compaction_finds_the_older_entries() {
    let mut document = document(2);
    {
        let table = document.piece_table.as_mut().unwrap();
        table.pieces.roots[2].full_index = false;
    }
    assert!(matches!(document.compact_piece_table(ok), Ok(true)));
    assert_eq!(bytes(&document), b"abc".to_vec());
    assert!(document.undo(ok));
    assert_eq!(bytes(&document), b"ab".to_vec());
    assert!(document.redo(ok));
    assert_eq!(bytes(&document), b"abc".to_vec());
    assert!(!document.redo(ok));
}

#[test]
fn documents_without_a_piece_table_have_no_history() {
    let mut document = Document::new();
    document.rope = Some(Rope::new(vec!["text".to_string()]));
    assert!(matches!(document.try_undo(fails), Ok(false)));
    assert!(matches!(document.try_redo(fails), Ok(false)));
    assert!(!document.undo(fails));
    assert!(!document.redo(fails));
    assert!(!document.dirty);
}

#[test]
fn flush_hands_the_table_to_the_session_store() {
    let mut document = document(1);
    let seen = Cell::new(usize::MAX);
    let result = document.flush_session(|table: &PieceTable| {
        seen.set(table.pieces.current);
        Ok(())
    });
    assert!(result.is_ok());
    assert_eq!(seen.get(), 1);
    assert!(!document.dirty);
}

#[test]
fn flush_names_the_sidecar_in_its_error() {
    let mut document = document(1);
    match document.flush_session(fails) {
        Err(DocumentError::Write { path, source }) => {
            assert_eq!(path.bytes, b"/doc/b.txt.qem.editlog".to_vec());
            assert_eq!(source.to_string(), "full");
        }
        _ => panic!("the session store failed"),
    }
}

#[test]
fn flush_without_a_session_is_a_no_op() {
    let mut document = Document::new();
    assert!(document.flush_session(fails).is_ok());
}

#[test]
fn sidecars_stand_beside_their_documents() {
    assert_eq!(editlog_path(&path("/x/y")).bytes, b"/x/y.qem.editlog".to_vec());
    let own = Some(path("/own"));
    assert_eq!(session_sidecar_path(&own, &path("/file")).bytes, b"/own.qem.editlog".to_vec());
    assert_eq!(session_sidecar_path(&None, &path("/file")).bytes, b"/file.qem.editlog".to_vec());
}

#[test]
fn history_steps_that_go_nowhere_do_not_dirty_the_document() {
    let mut document = document(1);
    assert!(matches!(document.history_stepped(path("/s"), Ok(false)), Ok(false)));
    assert!(!document.dirty);
    assert!(matches!(document.history_stepped(path("/s"), Ok(true)), Ok(true)));
    assert!(document.dirty);
}
