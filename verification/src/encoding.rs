//! Text encodings of documents, and how a save chooses one.
use vstd::prelude::*;

verus! {

/// The encoding that a document was read with, or is to be saved in.
#[derive(Clone, Copy, Debug, PartialEq, Eq, Structural)]
pub enum DocumentEncoding {
    /// UTF-8, the encoding of every edit buffer.
    Utf8,
    /// Any other encoding, by its number in the codec table of the embedding
    /// program, and whether text that was read with it can be saved back in it.
    Other { codec: u16, roundtrip: bool },
}

impl DocumentEncoding {
    /// Returns `true` for UTF-8.
    pub fn is_utf8(self) -> (utf8: bool)
        ensures
            utf8 == (self == DocumentEncoding::Utf8),
    {
        match self {
            DocumentEncoding::Utf8 => true,
            DocumentEncoding::Other { .. } => false,
        }
    }

    /// Whether a document can be saved in the encoding that it was read with.
    pub open spec fn roundtrips(self) -> bool {
        match self {
            DocumentEncoding::Utf8 => true,
            DocumentEncoding::Other { codec: _, roundtrip } => roundtrip,
        }
    }

    /// Returns whether a document that was read with this encoding can be saved
    /// in it.
    pub fn can_roundtrip_save(self) -> (can: bool)
        ensures
            can == self.roundtrips(),
    {
        match self {
            DocumentEncoding::Utf8 => true,
            DocumentEncoding::Other { roundtrip, .. } => roundtrip,
        }
    }
}

/// Which encoding a save writes.
#[derive(Clone, Copy, Debug, PartialEq, Eq, Structural)]
pub enum SaveEncodingPolicy {
    /// The encoding that the document was read with.
    Preserve,
    /// The given encoding.
    Convert(DocumentEncoding),
}

/// Options of a save.
#[derive(Clone, Copy, Debug, PartialEq, Eq, Structural)]
pub struct DocumentSaveOptions {
    pub policy: SaveEncodingPolicy,
}

impl DocumentSaveOptions {
    /// The default options: the document's encoding is preserved.
    pub fn new() -> (options: Self)
        ensures
            options.policy == SaveEncodingPolicy::Preserve,
    {
        DocumentSaveOptions { policy: SaveEncodingPolicy::Preserve }
    }

    /// These options, with `encoding` as the encoding to write.
    pub fn with_encoding(self, encoding: DocumentEncoding) -> (options: Self)
        ensures
            options.policy == SaveEncodingPolicy::Convert(encoding),
    {
        DocumentSaveOptions { policy: SaveEncodingPolicy::Convert(encoding) }
    }

    /// Returns which encoding a save with these options writes.
    pub fn encoding_policy(self) -> (policy: SaveEncodingPolicy)
        ensures
            policy == self.policy,
    {
        self.policy
    }
}

} // verus!
