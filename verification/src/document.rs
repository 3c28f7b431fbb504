//! Documents.
use crate::encoding::DocumentEncoding;
use crate::parts;
use crate::path;
use crate::path::DocPath;
use crate::piece_table::{PieceTable, TableView};
use crate::rope;
use crate::rope::Rope;
use crate::storage::{FileStorage, StorageView};
use crate::text;
use crate::text::{detect_line_ending, LineEnding};
use vstd::prelude::*;

verus! {

/// What a document is.
#[verifier::ext_equal]
pub struct DocumentView {
    pub path: Option<Seq<u8>>,
    pub storage: Option<StorageView>,
    pub rope: Option<Seq<Seq<char>>>,
    pub piece_table: Option<TableView>,
    pub line_ending: LineEnding,
    pub encoding: DocumentEncoding,
    pub decoding_had_errors: bool,
    pub dirty: bool,
    pub indexing: bool,
}

impl DocumentView {
    /// What the edit buffers hold is consistent and fits.
    pub open spec fn wf(self) -> bool {
        &&& self.piece_table matches Some(table) ==> table.wf()
        &&& self.rope matches Some(chunks) ==> rope::rope_bytes(chunks, self.line_ending).len()
            <= usize::MAX
    }

    /// Whether no two edit buffers claim to hold the document.
    pub open spec fn one_buffer(self) -> bool {
        !(self.rope is Some && self.piece_table is Some)
    }

    /// Whether the document has been edited since it was opened, so that an edit
    /// buffer and no longer the opened file holds it.
    pub open spec fn has_edit_buffer(self) -> bool {
        self.rope is Some || self.piece_table is Some
    }

    /// The bytes of the opened file, of which a document without one has none.
    pub open spec fn storage_bytes(self) -> Seq<u8> {
        match self.storage {
            Some(storage) => storage.bytes,
            None => Seq::empty(),
        }
    }

    /// The bytes of the document as a file.
    pub open spec fn content(self) -> Seq<u8> {
        match (self.piece_table, self.rope) {
            (Some(table), _) => table.content(),
            (None, Some(chunks)) => rope::rope_bytes(chunks, self.line_ending),
            (None, None) => self.storage_bytes(),
        }
    }

    /// The text of the document, with the line endings that it is saved with.
    pub open spec fn text(self) -> Seq<char> {
        match (self.rope, self.piece_table) {
            (Some(chunks), _) => text::with_line_ending(
                parts::join(chunks),
                self.line_ending.chars(),
            ),
            (None, Some(table)) => text::lossy_text(table.content()),
            (None, None) => text::lossy_text(self.storage_bytes()),
        }
    }

    /// The sidecar that holds the session of the document, where a piece table
    /// holds the document.
    pub open spec fn sidecar(self) -> Seq<u8> {
        path::sidecar_of(self.path, self.piece_table->0.original.path)
    }

    /// The document, held by `table`.
    pub open spec fn with_table(self, table: TableView) -> DocumentView {
        DocumentView { piece_table: Some(table), ..self }
    }
}

/// The document that a UTF-8 file is, just opened.
pub open spec fn fresh(path: Seq<u8>, storage: StorageView) -> DocumentView {
    DocumentView {
        path: Some(path),
        storage: Some(storage),
        rope: None,
        piece_table: None,
        line_ending: text::line_ending_at(storage.bytes, 0),
        encoding: DocumentEncoding::Utf8,
        decoding_had_errors: false,
        dirty: false,
        indexing: false,
    }
}

/// A text document: the file that it was opened from, as long as it is not
/// edited, and an edit buffer from then on.
#[derive(Debug)]
pub struct Document {
    pub path: Option<DocPath>,
    pub storage: Option<FileStorage>,
    pub rope: Option<Rope>,
    pub piece_table: Option<PieceTable>,
    pub line_ending: LineEnding,
    pub encoding: DocumentEncoding,
    pub decoding_had_errors: bool,
    pub dirty: bool,
    pub indexing: bool,
}

impl View for Document {
    type V = DocumentView;

    open spec fn view(&self) -> DocumentView {
        DocumentView {
            path: path::path_view(self.path),
            storage: match self.storage {
                Some(storage) => Some(storage@),
                None => None,
            },
            rope: match self.rope {
                Some(rope) => Some(rope@),
                None => None,
            },
            piece_table: match self.piece_table {
                Some(table) => Some(table@),
                None => None,
            },
            line_ending: self.line_ending,
            encoding: self.encoding,
            decoding_had_errors: self.decoding_had_errors,
            dirty: self.dirty,
            indexing: self.indexing,
        }
    }
}

impl Document {
    /// The empty document, which has no file.
    pub fn new() -> (doc: Self)
        ensures
            doc@.wf(),
            doc@ == (DocumentView {
                path: None,
                storage: None,
                rope: None,
                piece_table: None,
                line_ending: LineEnding::Lf,
                encoding: DocumentEncoding::Utf8,
                decoding_had_errors: false,
                dirty: false,
                indexing: false,
            }),
    {
        Document {
            path: None,
            storage: None,
            rope: None,
            piece_table: None,
            line_ending: LineEnding::Lf,
            encoding: DocumentEncoding::Utf8,
            decoding_had_errors: false,
            dirty: false,
            indexing: false,
        }
    }

    /// The document that the UTF-8 file in `storage` is.
    pub fn from_storage(path: DocPath, storage: FileStorage) -> (doc: Self)
        ensures
            doc@.wf(),
            doc@ == fresh(path@, storage@),
    {
        let len = storage.len();
        let bytes = storage.read_range(0, len);
        assert(bytes@ =~= storage@.bytes);
        let line_ending = detect_line_ending(bytes);
        Document {
            path: Some(path),
            storage: Some(storage),
            rope: None,
            piece_table: None,
            line_ending,
            encoding: DocumentEncoding::Utf8,
            decoding_had_errors: false,
            dirty: false,
            indexing: false,
        }
    }

    /// Returns whether the document is valid: what its edit buffers hold is consistent
    /// and fits.
    pub fn is_valid(&self) -> (valid: bool)
        ensures
            valid == self@.wf(),
    {
        let table_valid = match &self.piece_table {
            Some(piece_table) => piece_table.is_valid(),
            None => true,
        };
        let rope_valid = match &self.rope {
            Some(rope) => rope.len_bytes_with_line_endings(self.line_ending).is_some(),
            None => true,
        };
        table_valid && rope_valid
    }

    /// Returns whether an edit buffer holds the document.
    pub fn has_edit_buffer(&self) -> (has: bool)
        ensures
            has == self@.has_edit_buffer(),
    {
        self.rope.is_some() || self.piece_table.is_some()
    }

    /// Returns the bytes of the opened file.
    pub fn mmap_bytes(&self) -> (bytes: &[u8])
        ensures
            bytes@ == self@.storage_bytes(),
    {
        match &self.storage {
            Some(storage) => {
                let len = storage.len();
                let bytes = storage.read_range(0, len);
                assert(bytes@ =~= storage@.bytes);
                bytes
            },
            None => {
                let bytes = "".as_bytes();
                proof {
                    reveal_strlit("");
                    assert(""@ =~= Seq::empty());
                    assert(bytes@ =~= Seq::empty());
                }
                bytes
            },
        }
    }

    /// Returns how many bytes the document has as a file.
    pub fn file_len(&self) -> (len: usize)
        requires
            self@.wf(),
        ensures
            len == self@.content().len(),
    {
        if let Some(table) = &self.piece_table {
            return table.total_len();
        }
        if let Some(rope) = &self.rope {
            return match rope.len_bytes_with_line_endings(self.line_ending) {
                Some(len) => len,
                None => usize::MAX,
            };
        }
        match &self.storage {
            Some(storage) => storage.len(),
            None => 0,
        }
    }
}

} // verus!
