//! The bytes of a file, as they were when it was opened.
use crate::path::DocPath;
use crate::shared::share;
use std::sync::Arc;
use vstd::prelude::*;

verus! {

/// What a file storage is: the path of the file and its bytes.
#[verifier::ext_equal]
pub struct StorageView {
    pub path: Seq<u8>,
    pub bytes: Seq<u8>,
}

/// The unchanging bytes of an opened file. Copies share them.
#[derive(Debug)]
pub struct FileStorage {
    pub path: DocPath,
    pub data: Arc<Vec<u8>>,
}

impl View for FileStorage {
    type V = StorageView;

    open spec fn view(&self) -> StorageView {
        StorageView { path: self.path@, bytes: self.data@ }
    }
}

impl Clone for FileStorage {
    fn clone(&self) -> (copy: Self)
        ensures
            copy@ == self@,
    {
        FileStorage { path: self.path.clone(), data: share(&self.data) }
    }
}

impl FileStorage {
    /// The storage of the file at `path`, whose bytes are `bytes`.
    pub fn new(path: DocPath, bytes: Vec<u8>) -> (storage: Self)
        ensures
            storage@ == (StorageView { path: path@, bytes: bytes@ }),
    {
        FileStorage { path, data: Arc::new(bytes) }
    }

    /// Returns the path of the file.
    pub fn path(&self) -> (path: &DocPath)
        ensures
            path@ == self@.path,
    {
        &self.path
    }

    /// Returns how many bytes the file holds.
    pub fn len(&self) -> (len: usize)
        ensures
            len == self@.bytes.len(),
    {
        self.data.len()
    }

    /// Returns the bytes of the file from `start` up to `end`.
    pub fn read_range(&self, start: usize, end: usize) -> (bytes: &[u8])
        requires
            start <= end <= self@.bytes.len(),
        ensures
            bytes@ == self@.bytes.subrange(start as int, end as int),
    {
        vstd::slice::slice_subrange(self.data.as_slice(), start, end)
    }
}

} // verus!
