//! Errors of document operations.
use crate::encoding::DocumentEncoding;
use crate::path::DocPath;
use vstd::prelude::*;

verus! {

/// `std::io::Error`, which is carried through unread: nothing is claimed of it.
#[verifier::external_type_specification]
#[verifier::external_body]
pub struct ExIoError(std::io::Error);

/// Why a file could not be opened as the storage of a document.
#[derive(Debug)]
pub enum StorageOpenError {
    /// The file could not be opened.
    Open(std::io::Error),
    /// The file was opened but could not be brought into memory.
    MapFile(std::io::Error),
}

/// Why an operation on a document failed.
#[derive(Debug)]
pub enum DocumentError {
    /// The file at `path` could not be opened.
    Open { path: DocPath, source: std::io::Error },
    /// The file at `path` could not be brought into memory.
    MapFile { path: DocPath, source: std::io::Error },
    /// The file at `path` could not be written.
    Write { path: DocPath, source: std::io::Error },
    /// The text of the document could not be taken to or from `encoding`.
    Encoding {
        path: DocPath,
        operation: &'static str,
        encoding: DocumentEncoding,
        message: String,
    },
}

impl DocumentError {
    /// The error says that the file at `path` could not be opened, for `source`.
    pub open spec fn is_open(self, path: Seq<u8>, source: std::io::Error) -> bool {
        &&& self matches DocumentError::Open { path: at, source: why }
        &&& at@ == path
        &&& why == source
    }

    /// The error says that the file at `path` could not be brought into memory,
    /// for `source`.
    pub open spec fn is_map(self, path: Seq<u8>, source: std::io::Error) -> bool {
        &&& self matches DocumentError::MapFile { path: at, source: why }
        &&& at@ == path
        &&& why == source
    }

    /// The error says that the file at `path` could not be written, for `source`.
    pub open spec fn is_write(self, path: Seq<u8>, source: std::io::Error) -> bool {
        &&& self matches DocumentError::Write { path: at, source: why }
        &&& at@ == path
        &&& why == source
    }

    /// The error says that a save to `path` could not write `encoding`, for the
    /// reason in `message`.
    pub open spec fn is_save_encoding(
        self,
        path: Seq<u8>,
        encoding: DocumentEncoding,
        message: Seq<char>,
    ) -> bool {
        &&& self matches DocumentError::Encoding {
            path: at,
            operation,
            encoding: wanted,
            message: why,
        }
        &&& at@ == path
        &&& operation@ == "save"@
        &&& wanted == encoding
        &&& why@ == message
    }
}

/// Builds the error of an operation that could not take the text at `path` to or
/// from `encoding`.
pub fn save_encoding_error(
    path: &DocPath,
    operation: &'static str,
    encoding: DocumentEncoding,
    message: String,
) -> (error: DocumentError)
    ensures
        error matches DocumentError::Encoding {
            path: at,
            operation: what,
            encoding: wanted,
            message: why,
        } && at@ == path@ && what@ == operation@ && wanted == encoding && why@ == message@,
{
    DocumentError::Encoding { path: path.clone(), operation, encoding, message }
}

} // verus!
