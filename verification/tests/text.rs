use qem::document::Document;
use qem::encoding::{DocumentEncoding, DocumentSaveOptions, SaveEncodingPolicy};
use qem::path::DocPath;
use qem::piece_table::PieceTable;
use qem::rope::{rope_text_with_line_endings, Rope};
use qem::storage::FileStorage;
use qem::text::{count_line_breaks_in_bytes, detect_line_ending, find_newline, LineEnding};

fn path(text: &str) -> DocPath {
    DocPath::new(text.as_bytes().to_vec())
}

#[test]
fn line_breaks_are_counted_once_each() {
    assert_eq!(count_line_breaks_in_bytes(b""), 0);
    assert_eq!(count_line_breaks_in_bytes(b"a\nb\n"), 2);
    assert_eq!(count_line_breaks_in_bytes(b"a\r\nb\rc"), 2);
    assert_eq!(count_line_breaks_in_bytes(b"\r\r\n\n"), 3);
    assert_eq!(count_line_breaks_in_bytes(b"\r"), 1);
}

#[test]
fn the_first_ended_line_tells_the_line_ending() {
    assert_eq!(detect_line_ending(b"none"), LineEnding::Lf);
    assert_eq!(detect_line_ending(b"a\nb\r\n"), LineEnding::Lf);
    assert_eq!(detect_line_ending(b"a\r\nb\n"), LineEnding::Crlf);
    assert_eq!(detect_line_ending(b"a\rb\n"), LineEnding::Cr);
    assert_eq!(detect_line_ending(b"a\r"), LineEnding::Cr);
}

#[test]
fn newlines_are_found_from_a_place_on() {
    assert_eq!(find_newline(b"ab\ncd\n", 0), 2);
    assert_eq!(find_newline(b"ab\ncd\n", 3), 5);
    assert_eq!(find_newline(b"ab", 1), 2);
}

#[test]
fn rope_text_takes_the_line_ending() {
    let rope = Rope::new(vec!["\u{e9}\nb".to_string(), "\n\n".to_string(), String::new(), "z".to_string()]);
    assert_eq!(rope_text_with_line_endings(&rope, LineEnding::Lf), "\u{e9}\nb\n\nz");
    assert_eq!(rope_text_with_line_endings(&rope, LineEnding::Crlf), "\u{e9}\r\nb\r\n\r\nz");
    assert_eq!(rope_text_with_line_endings(&rope, LineEnding::Cr), "\u{e9}\rb\r\rz");
    assert_eq!(rope.len_bytes_with_line_endings(LineEnding::Lf), Some(7));
    assert_eq!(rope.len_bytes_with_line_endings(LineEnding::Crlf), Some(10));
    assert_eq!(rope.len_bytes_with_line_endings(LineEnding::Cr), Some(7));
}

#[test]
fn opened_files_are_rendered_with_replacement_characters() {
    let storage = FileStorage::new(path("/f"), b"a\xffb".to_vec());
    let document = Document::from_storage(path("/f"), storage);
    assert_eq!(document.rendered_text_for_save(), "a\u{fffd}b");
    assert_eq!(document.mmap_bytes(), b"a\xffb");
    assert_eq!(document.file_len(), 3);
    assert_eq!(Document::new().rendered_text_for_save(), "");
    assert_eq!(Document::new().file_len(), 0);
}

#[test]
fn piece_tables_are_rendered_with_replacement_characters() {
    let mut document = Document::new();
    document.piece_table = Some(PieceTable::new(FileStorage::new(path("/f"), b"\xc3\xa9\xc3".to_vec())));
    assert_eq!(document.rendered_text_for_save(), "\u{e9}\u{fffd}");
    assert_eq!(document.file_len(), 3);
}

#[test]
fn ropes_are_rendered_with_their_line_ending() {
    let mut document = Document::new();
    document.rope = Some(Rope::new(vec!["a\nb".to_string()]));
    document.line_ending = LineEnding::Crlf;
    assert_eq!(document.rendered_text_for_save(), "a\r\nb");
    assert_eq!(document.file_len(), 4);
    assert!(document.is_valid());
}

#[test]
fn edit_buffers_make_a_document_edited() {
    let mut document = Document::new();
    assert!(document.is_valid());
    assert!(!document.has_edit_buffer());
    document.rope = Some(Rope::new(Vec::new()));
    assert!(document.has_edit_buffer());
    let mut edited = Document::new();
    edited.piece_table = Some(PieceTable::new(FileStorage::new(path("/f"), Vec::new())));
    assert!(edited.has_edit_buffer());
    assert!(edited.is_valid());
    edited.piece_table.as_mut().unwrap().pieces.current = 1;
    assert!(!edited.is_valid());
}

#[test]
fn opened_documents_are_clean() {
    let storage = FileStorage::new(path("/f"), b"a\r\nb".to_vec());
    let document = Document::from_storage(path("/f"), storage);
    assert_eq!(document.line_ending, LineEnding::Crlf);
    assert_eq!(document.encoding, DocumentEncoding::Utf8);
    assert!(!document.dirty);
    assert!(!document.decoding_had_errors);
    assert_eq!(document.path.unwrap().bytes, b"/f".to_vec());
}

#[test]
fn encodings_tell_what_they_can() {
    let one_way = DocumentEncoding::Other { codec: 1, roundtrip: false };
    let both_ways = DocumentEncoding::Other { codec: 2, roundtrip: true };
    assert!(DocumentEncoding::Utf8.is_utf8());
    assert!(!both_ways.is_utf8());
    assert!(DocumentEncoding::Utf8.can_roundtrip_save());
    assert!(both_ways.can_roundtrip_save());
    assert!(!one_way.can_roundtrip_save());
    assert_eq!(DocumentSaveOptions::new().encoding_policy(), SaveEncodingPolicy::Preserve);
    assert_eq!(
        DocumentSaveOptions::new().with_encoding(one_way).encoding_policy(),
        SaveEncodingPolicy::Convert(one_way)
    );
}

#[test]
fn storages_share_their_bytes() {
    let storage = FileStorage::new(path("/f"), b"abc".to_vec());
    let copy = storage.clone();
    assert_eq!(copy.read_range(1, 3), b"bc");
    assert_eq!(copy.path().bytes, b"/f".to_vec());
    assert_eq!(copy.len(), 3);
    assert_eq!(storage.data.as_ptr(), copy.data.as_ptr());
}
