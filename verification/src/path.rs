//! Paths of documents and of their session sidecars.
use vstd::prelude::*;
use vstd::utf8::*;

verus! {

/// A file-system path, held as the encoded bytes of the platform's path string.
#[derive(Debug)]
pub struct DocPath {
    pub bytes: Vec<u8>,
}

impl View for DocPath {
    type V = Seq<u8>;

    open spec fn view(&self) -> Seq<u8> {
        self.bytes@
    }
}

impl Clone for DocPath {
    fn clone(&self) -> (copy: Self)
        ensures
            copy@ == self@,
    {
        let mut bytes: Vec<u8> = Vec::new();
        bytes.extend_from_slice(self.bytes.as_slice());
        assert(bytes@ =~= self.bytes@);
        DocPath { bytes }
    }
}

impl DocPath {
    /// The path with these encoded bytes.
    pub fn new(bytes: Vec<u8>) -> (path: Self)
        ensures
            path@ == bytes@,
    {
        DocPath { bytes }
    }
}

/// An optional path as its bytes.
pub open spec fn path_view(path: Option<DocPath>) -> Option<Seq<u8>> {
    match path {
        Some(path) => Some(path@),
        None => None,
    }
}

/// The sidecar of the document at `path`: the same path with `.qem.editlog`
/// after its last byte.
pub open spec fn editlog_of(path: Seq<u8>) -> Seq<u8> {
    path + encode_utf8(".qem.editlog"@)
}

/// The sidecar that holds the session of a document: that of the document's own
/// path, or, for a document that has none, that of the file behind its pieces.
pub open spec fn sidecar_of(doc_path: Option<Seq<u8>>, original_path: Seq<u8>) -> Seq<u8> {
    match doc_path {
        Some(path) => editlog_of(path),
        None => editlog_of(original_path),
    }
}

/// The path of a sidecar is longer than that of the document.
pub proof fn lemma_editlog_is_longer(path: Seq<u8>)
    ensures
        editlog_of(path).len() > path.len(),
{
    reveal_strlit(".qem.editlog");
    assert(encode_utf8(".qem.editlog"@).len() > 0);
}

/// Returns the path of the session sidecar that belongs to `path`.
pub fn editlog_path(path: &DocPath) -> (sidecar: DocPath)
    ensures
        sidecar@ == editlog_of(path@),
{
    let mut sidecar = path.clone();
    let suffix = ".qem.editlog";
    sidecar.bytes.extend_from_slice(suffix.as_bytes());
    assert(sidecar@ =~= editlog_of(path@));
    sidecar
}

/// Returns the path of the sidecar that holds the session of a document.
pub fn session_sidecar_path(doc_path: &Option<DocPath>, original_path: &DocPath) -> (sidecar:
    DocPath)
    ensures
        sidecar@ == sidecar_of(path_view(*doc_path), original_path@),
{
    match doc_path {
        Some(path) => editlog_path(path),
        None => editlog_path(original_path),
    }
}

} // verus!
