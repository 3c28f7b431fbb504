//! Sessions, undo and saves of documents.
use crate::compaction;
use crate::compaction::{CompactionPolicy, CompactionUrgency};
use crate::document;
use crate::document::{Document, DocumentView};
use crate::encoding::{DocumentEncoding, DocumentSaveOptions, SaveEncodingPolicy};
use crate::error::{save_encoding_error, DocumentError, StorageOpenError};
use crate::path;
use crate::path::{editlog_path, session_sidecar_path, DocPath};
use crate::piece_table;
use crate::piece_table::{PieceTable, TableView};
use crate::rope::rope_text_with_line_endings;
use crate::storage::FileStorage;
use crate::stream;
use crate::stream::{write_snapshot, PieceTableSnapshot, SaveSnapshot, SnapshotView, WriteStep};
use crate::text::text_from_utf8_lossy;
use vstd::prelude::*;
use vstd::utf8::*;

verus! {

/// A save that is ready to be written.
#[derive(Clone, Debug)]
pub struct PreparedSave {
    pub path: DocPath,
    pub total_bytes: u64,
    pub reload_after_save: bool,
    pub encoding: DocumentEncoding,
    pub snapshot: SaveSnapshot,
}

/// A save that has been written.
#[derive(Debug)]
pub struct SaveCompletion {
    pub path: DocPath,
    pub reload_after_save: bool,
    pub encoding: DocumentEncoding,
}

/// What a save answers, where putting the file in place answered `replaced`.
pub open spec fn completed(
    save: PreparedSave,
    replaced: std::io::Result<()>,
    result: Result<SaveCompletion, DocumentError>,
) -> bool {
    match replaced {
        Ok(_) => {
            &&& result matches Ok(completion)
            &&& completion.path@ == save.path@
            &&& completion.reload_after_save == save.reload_after_save
            &&& completion.encoding == save.encoding
        },
        Err(source) => result matches Err(error) && error.is_write(save.path@, source),
    }
}

/// `replace` was handed the path and the writes of `save`, `report` was handed the
/// number of bytes where that succeeded, and `result` is what follows.
pub open spec fn executed<
    R: FnOnce(&DocPath, &Vec<WriteStep>) -> std::io::Result<()>,
    P: FnOnce(u64),
>(
    save: PreparedSave,
    replace: R,
    report: P,
    result: Result<SaveCompletion, DocumentError>,
) -> bool {
    exists|steps: Vec<WriteStep>, replaced: std::io::Result<()>|
        {
            &&& stream::streams(steps@, save.snapshot@.writes(), save.total_bytes)
            &&& #[trigger] call_ensures(replace, (&save.path, &steps), replaced)
            &&& replaced is Ok ==> call_ensures(report, (save.total_bytes,), ())
            &&& completed(save, replaced, result)
        }
}

/// `replace` was handed the path and the writes of `save`, and put the file in place.
pub open spec fn put_in_place<R: FnOnce(&DocPath, &Vec<WriteStep>) -> std::io::Result<()>>(
    save: PreparedSave,
    replace: R,
) -> bool {
    exists|steps: Vec<WriteStep>|
        {
            &&& stream::streams(steps@, save.snapshot@.writes(), save.total_bytes)
            &&& #[trigger] call_ensures(
                replace,
                (&save.path, &steps),
                Ok::<(), std::io::Error>(()),
            )
        }
}

/// What writing `save` may call: `replace`, with the path and the writes of the save,
/// and `report`, with the number of its bytes and only once the file is in place.
pub open spec fn execute_callable<
    R: FnOnce(&DocPath, &Vec<WriteStep>) -> std::io::Result<()>,
    P: FnOnce(u64),
>(save: PreparedSave, replace: R, report: P) -> bool {
    &&& forall|at: &DocPath, steps: &Vec<WriteStep>|
        at@ == save.path@ && stream::streams(
            steps@,
            save.snapshot@.writes(),
            save.total_bytes,
        ) ==> #[trigger] call_requires(replace, (at, steps))
    &&& put_in_place(save, replace) ==> call_requires(report, (save.total_bytes,))
}

impl PreparedSave {
    /// Returns how many bytes the save writes.
    pub fn total_bytes(&self) -> (total: u64)
        ensures
            total == self.total_bytes,
    {
        self.total_bytes
    }

    /// Returns what the save answers, where putting the file in place answered
    /// `replaced`.
    pub fn complete(self, replaced: std::io::Result<()>) -> (result: Result<
        SaveCompletion,
        DocumentError,
    >)
        ensures
            completed(self, replaced, result),
            match replaced {
                Ok(_) => {
                    &&& result matches Ok(done)
                    &&& done.path@ == self.path@
                    &&& done.reload_after_save == self.reload_after_save
                    &&& done.encoding == self.encoding
                },
                Err(why) => {
                    &&& result matches Err(error)
                    &&& error matches DocumentError::Write { path: at, source }
                    &&& at@ == self.path@
                    &&& source == why
                },
            },
    {
        match replaced {
            Ok(()) => Ok(
                SaveCompletion {
                    path: self.path,
                    reload_after_save: self.reload_after_save,
                    encoding: self.encoding,
                },
            ),
            Err(source) => Err(DocumentError::Write { path: self.path, source }),
        }
    }

    /// Has `replace` put the writes of the save into the file at its path, and
    /// `report` take note of the number of bytes once the file is in place.
    pub fn execute<
        R: FnOnce(&DocPath, &Vec<WriteStep>) -> std::io::Result<()>,
        P: FnOnce(u64),
    >(self, replace: R, report: P) -> (result: Result<SaveCompletion, DocumentError>)
        requires
            self.snapshot@.wf(),
            execute_callable(self, replace, report),
        ensures
            executed(self, replace, report, result),
    {
        let total = self.total_bytes;
        let steps = write_snapshot(&self.snapshot, total);
        let replaced = replace(&self.path, &steps);
        if let Ok(placed) = &replaced {
            assert(*placed == ());
            report(total);
        }
        self.complete(replaced)
    }
}

/// Why a document cannot be saved in an encoding that does not round-trip.
pub const PRESERVE_REFUSED: &'static str = "preserve-save is not yet supported for this encoding; use DocumentSaveOptions::with_encoding(...) to convert to a supported target";

/// What an operation on a session answers, where the piece table answered `stepped`:
/// the same, with an error that names the sidecar.
pub open spec fn step_answer(
    sidecar: Seq<u8>,
    stepped: std::io::Result<bool>,
    result: Result<bool, DocumentError>,
) -> bool {
    match stepped {
        Ok(moved) => result == Ok::<bool, DocumentError>(moved),
        Err(source) => result matches Err(error) && error.is_write(sidecar, source),
    }
}

/// What a flush of the session answers, where the session store answered `stored`.
pub open spec fn flush_answer(
    sidecar: Seq<u8>,
    stored: std::io::Result<()>,
    result: Result<(), DocumentError>,
) -> bool {
    match stored {
        Ok(_) => result == Ok::<(), DocumentError>(()),
        Err(source) => result matches Err(error) && error.is_write(sidecar, source),
    }
}

/// The entry of the history that an undo goes to.
pub open spec fn undo_target(table: TableView) -> Option<int> {
    if table.current > 0 {
        Some(table.current - 1)
    } else {
        None
    }
}

/// The entry of the history that a redo goes to.
pub open spec fn redo_target(table: TableView) -> Option<int> {
    if table.current + 1 < table.roots.len() {
        Some(table.current + 1)
    } else {
        None
    }
}

/// The document, standing at entry `j` of the history of its piece table and not
/// saved there.
pub open spec fn moved_to(doc: DocumentView, j: int) -> DocumentView {
    DocumentView { piece_table: Some(doc.piece_table->0.at(j)), dirty: true, ..doc }
}

/// A step through the history to `target` made `after` of `before` and answered
/// `result`, having handed the moved table to `schedule` where there was a target.
pub open spec fn history_moved<S: FnOnce(&PieceTable) -> std::io::Result<()>>(
    before: Document,
    target: Option<int>,
    schedule: S,
    after: Document,
    result: Result<bool, DocumentError>,
) -> bool {
    match target {
        None => after == before && result == Ok::<bool, DocumentError>(false),
        Some(j) => {
            &&& after@ == moved_to(before@, j)
            &&& exists|stepped: std::io::Result<bool>| #[trigger]
                piece_table::scheduled(schedule, after.piece_table->0, stepped) && step_answer(
                    before@.sidecar(),
                    stepped,
                    result,
                )
        },
    }
}

/// What a step through the history to `target` may call: `schedule`, with the table
/// standing there, and not at all where there is no target.
pub open spec fn history_callable<S: FnOnce(&PieceTable) -> std::io::Result<()>>(
    doc: DocumentView,
    target: Option<int>,
    schedule: S,
) -> bool {
    forall|table: &PieceTable|
        target is Some && table@ == doc.piece_table->0.at(target->0)
            ==> #[trigger] call_requires(schedule, (table,))
}

/// The entry of the history that an undo of the document goes to.
pub open spec fn undo_target_of(doc: DocumentView) -> Option<int> {
    match doc.piece_table {
        Some(table) => undo_target(table),
        None => None,
    }
}

/// The entry of the history that a redo of the document goes to.
pub open spec fn redo_target_of(doc: DocumentView) -> Option<int> {
    match doc.piece_table {
        Some(table) => redo_target(table),
        None => None,
    }
}

/// Whether `policy` forces a compaction of the document before a save.
pub open spec fn compaction_forced(doc: DocumentView, policy: CompactionPolicy) -> bool {
    compaction::recommended_for(doc, policy) matches Some(recommendation)
        && recommendation.urgency == CompactionUrgency::Forced
}

/// The compaction before a save made `after` of `before` and answered `result`:
/// only a forced one runs.
pub open spec fn compacted_before_save<S: FnOnce(&PieceTable) -> std::io::Result<()>>(
    before: Document,
    policy: CompactionPolicy,
    schedule: S,
    after: Document,
    result: Result<bool, DocumentError>,
) -> bool {
    if compaction_forced(before@, policy) {
        exists|ran: std::io::Result<bool>| #[trigger]
            compaction::compaction_ran(before, schedule, after, ran) && step_answer(
                before@.sidecar(),
                ran,
                result,
            )
    } else {
        after == before && result == Ok::<bool, DocumentError>(false)
    }
}

/// What a save writes of a document that stays UTF-8.
pub open spec fn snapshot_of(doc: DocumentView) -> SnapshotView {
    match (doc.piece_table, doc.rope, doc.storage) {
        (Some(table), _, _) => SnapshotView::PieceTable {
            original: table.original,
            add: table.add,
            pieces: table.root().pieces,
        },
        (None, Some(chunks), _) => SnapshotView::Rope { chunks, line_ending: doc.line_ending },
        (None, None, Some(storage)) => SnapshotView::Mmap(storage),
        (None, None, None) => SnapshotView::Empty,
    }
}

/// What the text of a document becomes in `encoding`, where the codec answered
/// `encoded`.
pub open spec fn encoding_answer(
    path: Seq<u8>,
    encoding: DocumentEncoding,
    encoded: Result<Vec<u8>, String>,
    result: Result<Vec<u8>, DocumentError>,
) -> bool {
    match encoded {
        Ok(bytes) => result == Ok::<Vec<u8>, DocumentError>(bytes),
        Err(message) => result matches Err(error) && error.is_save_encoding(
            path,
            encoding,
            message@,
        ),
    }
}

/// `encode` was handed the text of `doc`, and `result` is what follows.
pub open spec fn text_encoded<E: FnOnce(&str, DocumentEncoding) -> Result<Vec<u8>, String>>(
    doc: DocumentView,
    path: Seq<u8>,
    encoding: DocumentEncoding,
    encode: E,
    result: Result<Vec<u8>, DocumentError>,
) -> bool {
    exists|text: &str, encoded: Result<Vec<u8>, String>|
        {
            &&& text@ == doc.text()
            &&& #[trigger] call_ensures(encode, (text, encoding), encoded)
            &&& encoding_answer(path, encoding, encoded, result)
        }
}

/// What encoding the text of `doc` may call: `encode`, with that text and `encoding`.
pub open spec fn encode_callable<E: FnOnce(&str, DocumentEncoding) -> Result<Vec<u8>, String>>(
    doc: DocumentView,
    encoding: DocumentEncoding,
    encode: E,
) -> bool {
    forall|text: &str|
        text@ == doc.text() ==> #[trigger] call_requires(encode, (text, encoding))
}

/// `save` is the save of `doc` to `path` in `encoding` that writes `snapshot`.
pub open spec fn is_save_of(
    save: PreparedSave,
    doc: DocumentView,
    path: Seq<u8>,
    encoding: DocumentEncoding,
    snapshot: SnapshotView,
) -> bool {
    &&& save.path@ == path
    &&& save.total_bytes == snapshot.content().len()
    &&& save.reload_after_save == !doc.has_edit_buffer()
    &&& save.encoding == encoding
    &&& save.snapshot@ == snapshot
}

/// A save of `doc` to `path` in `encoding` was prepared, with `result`.
pub open spec fn snapshot_taken<E: FnOnce(&str, DocumentEncoding) -> Result<Vec<u8>, String>>(
    doc: DocumentView,
    path: Seq<u8>,
    encoding: DocumentEncoding,
    encode: E,
    result: Result<PreparedSave, DocumentError>,
) -> bool {
    if encoding == DocumentEncoding::Utf8 && doc.encoding == DocumentEncoding::Utf8 {
        result matches Ok(save) && is_save_of(save, doc, path, encoding, snapshot_of(doc))
    } else {
        exists|bytes: Result<Vec<u8>, DocumentError>|
            {
                &&& #[trigger] text_encoded(doc, path, encoding, encode, bytes)
                &&& match bytes {
                    Ok(bytes) => result matches Ok(save) && is_save_of(
                        save,
                        doc,
                        path,
                        encoding,
                        SnapshotView::Bytes(bytes@),
                    ),
                    Err(error) => result == Err::<PreparedSave, DocumentError>(error),
                }
            }
    }
}

/// A save of `before` to `path` in `encoding` was prepared, with `result`; the
/// compaction that `policy` forces before it made `after` of `before`.
pub open spec fn save_prepared<
    S: FnOnce(&PieceTable) -> std::io::Result<()>,
    E: FnOnce(&str, DocumentEncoding) -> Result<Vec<u8>, String>,
>(
    before: Document,
    path: Seq<u8>,
    encoding: DocumentEncoding,
    policy: Option<CompactionPolicy>,
    schedule: S,
    encode: E,
    after: Document,
    result: Result<PreparedSave, DocumentError>,
) -> bool {
    match policy {
        None => after == before && snapshot_taken(after@, path, encoding, encode, result),
        Some(policy) => exists|ran: Result<bool, DocumentError>|
            {
                &&& #[trigger] compacted_before_save(before, policy, schedule, after, ran)
                &&& match ran {
                    Ok(_) => snapshot_taken(after@, path, encoding, encode, result),
                    Err(error) => result == Err::<PreparedSave, DocumentError>(error),
                }
            },
    }
}

/// The compaction that `policy` forces before a save of `before` is behind it: it ran
/// and did not fail, or none was forced.
pub open spec fn compaction_passed<S: FnOnce(&PieceTable) -> std::io::Result<()>>(
    before: Document,
    policy: Option<CompactionPolicy>,
    schedule: S,
) -> bool {
    policy matches Some(policy) ==> exists|after: Document, ran: Result<bool, DocumentError>|
        #[trigger] compacted_before_save(before, policy, schedule, after, ran) && ran is Ok
}

/// What preparing a save of `before` in `encoding` may call: what the compaction calls
/// that `policy` forces, and behind that `encode`, with the text of the document,
/// where the document does not stay UTF-8.
pub open spec fn prepare_callable<
    S: FnOnce(&PieceTable) -> std::io::Result<()>,
    E: FnOnce(&str, DocumentEncoding) -> Result<Vec<u8>, String>,
>(
    before: Document,
    encoding: DocumentEncoding,
    policy: Option<CompactionPolicy>,
    schedule: S,
    encode: E,
) -> bool {
    &&& policy matches Some(policy) ==> (compaction_forced(before@, policy)
        ==> compaction::compaction_callable(before@, schedule))
    &&& !(encoding == DocumentEncoding::Utf8 && before@.encoding == DocumentEncoding::Utf8)
        && compaction_passed(before, policy, schedule) ==> encode_callable(
        before@,
        encoding,
        encode,
    )
}

/// The encoding that a save with `options` writes: none where the encoding of the
/// document is to be preserved and does not round-trip.
pub open spec fn target_encoding(
    doc: DocumentView,
    options: DocumentSaveOptions,
) -> Option<DocumentEncoding> {
    match options.policy {
        SaveEncodingPolicy::Preserve => if doc.encoding.roundtrips() {
            Some(doc.encoding)
        } else {
            None
        },
        SaveEncodingPolicy::Convert(encoding) => Some(encoding),
    }
}

/// Whether the end of a save with `options` has the document read anew by the codec,
/// whose documents are what they are.
pub open spec fn decoded_anew(doc: DocumentView, options: DocumentSaveOptions) -> bool {
    !doc.has_edit_buffer() && target_encoding(doc, options) != Some(DocumentEncoding::Utf8)
}

/// A save of `before` to `path` with `options` was prepared, with `result`; the
/// compaction that `policy` forces before it made `after` of `before`.
pub open spec fn save_prepared_with_options<
    S: FnOnce(&PieceTable) -> std::io::Result<()>,
    E: FnOnce(&str, DocumentEncoding) -> Result<Vec<u8>, String>,
>(
    before: Document,
    path: Seq<u8>,
    options: DocumentSaveOptions,
    policy: Option<CompactionPolicy>,
    schedule: S,
    encode: E,
    after: Document,
    result: Result<PreparedSave, DocumentError>,
) -> bool {
    match target_encoding(before@, options) {
        Some(encoding) => save_prepared(
            before,
            path,
            encoding,
            policy,
            schedule,
            encode,
            after,
            result,
        ),
        None => {
            &&& after == before
            &&& result matches Err(error)
            &&& error.is_save_encoding(path, before@.encoding, PRESERVE_REFUSED@)
        },
    }
}

/// What preparing a save of `before` with `options` may call: nothing where the save
/// is refused.
pub open spec fn prepare_callable_with_options<
    S: FnOnce(&PieceTable) -> std::io::Result<()>,
    E: FnOnce(&str, DocumentEncoding) -> Result<Vec<u8>, String>,
>(
    before: Document,
    options: DocumentSaveOptions,
    policy: Option<CompactionPolicy>,
    schedule: S,
    encode: E,
) -> bool {
    target_encoding(before@, options) matches Some(encoding) ==> prepare_callable(
        before,
        encoding,
        policy,
        schedule,
        encode,
    )
}

/// `remove` was handed the sidecar of the document at `path`.
pub open spec fn sidecar_cleared<C: Fn(&DocPath)>(remove: C, path: Seq<u8>) -> bool {
    exists|sidecar: DocPath|
        sidecar@ == path::editlog_of(path) && #[trigger] call_ensures(remove, (&sidecar,), ())
}

/// `remove` was handed the sidecar of the document at `old_path`, where there was
/// one, and that of the document at `path`.
pub open spec fn sidecars_cleared<C: Fn(&DocPath)>(
    remove: C,
    old_path: Option<Seq<u8>>,
    path: Seq<u8>,
) -> bool {
    &&& old_path matches Some(old_path) ==> sidecar_cleared(remove, old_path)
    &&& sidecar_cleared(remove, path)
}

/// Whether the end of a save to `path` of a document that was at `old_path` may have
/// `remove` delete the file at `sidecar`: the sidecar of the old path, and behind
/// that the sidecar of the new one.
pub open spec fn may_remove<C: Fn(&DocPath)>(
    remove: C,
    old_path: Option<Seq<u8>>,
    path: Seq<u8>,
    sidecar: Seq<u8>,
) -> bool {
    ||| old_path matches Some(old_path) && sidecar == path::editlog_of(old_path)
    ||| {
        &&& old_path matches Some(old_path) ==> sidecar_cleared(remove, old_path)
        &&& sidecar == path::editlog_of(path)
    }
}

/// What the end of a save to `path` in `encoding` of a document that was at
/// `old_path` may call: `remove`, with the sidecars of the two paths, and behind that
/// either `open` or `decode`, with the path, where the document is to be read anew.
pub open spec fn finish_callable<
    C: Fn(&DocPath),
    O: FnOnce(&DocPath) -> Result<FileStorage, StorageOpenError>,
    D: FnOnce(DocPath, DocumentEncoding) -> Result<Document, DocumentError>,
>(
    old_path: Option<Seq<u8>>,
    path: Seq<u8>,
    reload_after_save: bool,
    encoding: DocumentEncoding,
    remove: C,
    open: O,
    decode: D,
) -> bool {
    &&& forall|sidecar: &DocPath|
        may_remove(remove, old_path, path, sidecar@) ==> #[trigger] call_requires(
            remove,
            (sidecar,),
        )
    &&& reload_after_save && sidecars_cleared(remove, old_path, path) ==> {
        if encoding == DocumentEncoding::Utf8 {
            forall|at: &DocPath| at@ == path ==> #[trigger] call_requires(open, (at,))
        } else {
            forall|at: DocPath| at@ == path ==> #[trigger] call_requires(decode, (at, encoding))
        }
    }
}

/// The document, saved to `path` in `encoding` while an edit buffer holds it.
pub open spec fn saved_in_place(
    doc: DocumentView,
    path: Seq<u8>,
    encoding: DocumentEncoding,
) -> DocumentView {
    DocumentView {
        path: Some(path),
        encoding,
        decoding_had_errors: false,
        dirty: false,
        indexing: false,
        ..doc
    }
}

/// The document, no longer being indexed.
pub open spec fn not_indexing(doc: DocumentView) -> DocumentView {
    DocumentView { indexing: false, ..doc }
}

/// What the end of a save makes of `before`, where opening the saved file answered
/// `opened`.
pub open spec fn reloaded(
    before: DocumentView,
    path: Seq<u8>,
    opened: Result<FileStorage, StorageOpenError>,
    after: DocumentView,
    result: Result<(), DocumentError>,
) -> bool {
    match opened {
        Ok(storage) => after == document::fresh(path, storage@) && result == Ok::<
            (),
            DocumentError,
        >(()),
        Err(StorageOpenError::Open(source)) => {
            &&& after == not_indexing(before)
            &&& result matches Err(error)
            &&& error.is_open(path, source)
        },
        Err(StorageOpenError::MapFile(source)) => {
            &&& after == not_indexing(before)
            &&& result matches Err(error)
            &&& error.is_map(path, source)
        },
    }
}

/// What the end of a save makes of `before`, where reading the saved file in its
/// encoding answered `decoded`.
pub open spec fn redecoded(
    before: DocumentView,
    decoded: Result<Document, DocumentError>,
    after: Document,
    result: Result<(), DocumentError>,
) -> bool {
    match decoded {
        Ok(doc) => after == doc && result == Ok::<(), DocumentError>(()),
        Err(error) => after@ == not_indexing(before) && result == Err::<(), DocumentError>(error),
    }
}

/// The end of a save to `path` in `encoding` made `after` of `before` and answered
/// `result`.
///
/// The sidecars of the old and of the new path are cleared. A document in an edit
/// buffer stays there, now clean. One without is read anew from the file: by `open`
/// where the file is UTF-8, and else by `decode`.
pub open spec fn save_finished<
    C: Fn(&DocPath),
    O: FnOnce(&DocPath) -> Result<FileStorage, StorageOpenError>,
    D: FnOnce(DocPath, DocumentEncoding) -> Result<Document, DocumentError>,
>(
    before: Document,
    path: Seq<u8>,
    reload_after_save: bool,
    encoding: DocumentEncoding,
    remove: C,
    open: O,
    decode: D,
    after: Document,
    result: Result<(), DocumentError>,
) -> bool {
    &&& sidecars_cleared(remove, before@.path, path)
    &&& if !reload_after_save {
        &&& after@ == saved_in_place(before@, path, encoding)
        &&& result == Ok::<(), DocumentError>(())
    } else if encoding == DocumentEncoding::Utf8 {
        exists|at: DocPath, opened: Result<FileStorage, StorageOpenError>|
            {
                &&& at@ == path
                &&& #[trigger] call_ensures(open, (&at,), opened)
                &&& reloaded(before@, path, opened, after@, result)
            }
    } else {
        exists|at: DocPath, decoded: Result<Document, DocumentError>|
            {
                &&& at@ == path
                &&& #[trigger] call_ensures(decode, (at, encoding), decoded)
                &&& redecoded(before@, decoded, after, result)
            }
    }
}

/// Has `remove` delete the sidecar of the document at `path`.
pub fn clear_session_sidecar<C: Fn(&DocPath)>(path: &DocPath, remove: &C)
    requires
        forall|sidecar: &DocPath|
            sidecar@ == path::editlog_of(path@) ==> #[trigger] call_requires(*remove, (sidecar,)),
    ensures
        sidecar_cleared(*remove, path@),
        exists|sidecar: DocPath|
            sidecar@ == path@ + encode_utf8(".qem.editlog"@) && #[trigger] call_ensures(
                *remove,
                (&sidecar,),
                (),
            ),
{
    let sidecar = editlog_path(path);
    remove(&sidecar)
}

/// Returns the bytes of a text in `encoding`, where the codec answered `encoded`.
pub fn check_encoded(
    path: &DocPath,
    encoding: DocumentEncoding,
    encoded: Result<Vec<u8>, String>,
) -> (result: Result<Vec<u8>, DocumentError>)
    ensures
        encoding_answer(path@, encoding, encoded, result),
        match encoded {
            Ok(bytes) => result == Ok::<Vec<u8>, DocumentError>(bytes),
            Err(why) => {
                &&& result matches Err(error)
                &&& error matches DocumentError::Encoding {
                    path: at,
                    operation,
                    encoding: wanted,
                    message,
                }
                &&& at@ == path@
                &&& operation@ == "save"@
                &&& wanted == encoding
                &&& message@ == why@
            },
        },
{
    match encoded {
        Ok(bytes) => Ok(bytes),
        Err(message) => Err(save_encoding_error(path, "save", encoding, message)),
    }
}

impl Document {
    /// Returns the text of the document, with the line endings that it is saved with.
    pub fn rendered_text_for_save(&self) -> (text: String)
        requires
            self@.wf(),
        ensures
            text@ == self@.text(),
            self@.one_buffer() && valid_utf8(self@.content()) ==> text@ == decode_utf8(
                self@.content(),
            ),
    {
        if let Some(rope) = &self.rope {
            proof {
                encode_utf8_decode_utf8(self@.text());
            }
            return rope_text_with_line_endings(rope, self.line_ending);
        }
        if let Some(piece_table) = &self.piece_table {
            return piece_table.to_string_lossy();
        }
        text_from_utf8_lossy(self.mmap_bytes())
    }

    /// Has `encode` take the text of the document to `encoding`, for a save to `path`.
    pub fn encoded_save_bytes<E: FnOnce(&str, DocumentEncoding) -> Result<Vec<u8>, String>>(
        &self,
        path: &DocPath,
        encoding: DocumentEncoding,
        encode: E,
    ) -> (result: Result<Vec<u8>, DocumentError>)
        requires
            self@.wf(),
            encode_callable(self@, encoding, encode),
        ensures
            text_encoded(self@, path@, encoding, encode, result),
    {
        let rendered = self.rendered_text_for_save();
        let encoded = encode(rendered.as_str(), encoding);
        check_encoded(path, encoding, encoded)
    }

    /// Forces the current sidecar session state to disk.
    ///
    /// For mmap- or rope-backed documents without a piece-tree session, this is
    /// a no-op.
    ///
    /// # Errors
    /// Returns [`DocumentError`] if `.qem.editlog` cannot be committed.
    pub fn flush_session<F: FnOnce(&PieceTable) -> std::io::Result<()>>(
        &mut self,
        flush: F,
    ) -> (result: Result<(), DocumentError>)
        requires
            old(self).piece_table matches Some(table) ==> call_requires(flush, (&table,)),
        ensures
            *final(self) == *old(self),
            old(self).piece_table matches Some(table) ==> match result {
                Ok(_) => call_ensures(flush, (&table,), Ok::<(), std::io::Error>(())),
                Err(error) => {
                    &&& error matches DocumentError::Write { path: sidecar, source }
                    &&& old(self).path matches Some(own) ==> sidecar@ == own@ + encode_utf8(
                        ".qem.editlog"@,
                    )
                    &&& old(self).path is None ==> sidecar@ == table.original.path@
                        + encode_utf8(".qem.editlog"@)
                    &&& call_ensures(flush, (&table,), Err::<(), std::io::Error>(source))
                },
            },
            match old(self).piece_table {
                None => result == Ok::<(), DocumentError>(()),
                Some(table) => exists|stored: std::io::Result<()>| #[trigger]
                    call_ensures(flush, (&table,), stored) && flush_answer(
                        old(self)@.sidecar(),
                        stored,
                        result,
                    ),
            },
    {
        match &self.piece_table {
            None => Ok(()),
            Some(piece_table) => {
                let path = session_sidecar_path(&self.path, piece_table.original.path());
                match piece_table.flush_session(flush) {
                    Ok(taken) => {
                        assert(taken == ());
                        Ok(())
                    },
                    Err(source) => Err(DocumentError::Write { path, source }),
                }
            },
        }
    }

    /// Takes note of a step through the history of the piece table, which answered
    /// `stepped`: the document is dirty unless there was nowhere to go, and an error
    /// names the sidecar.
    pub fn history_stepped(&mut self, sidecar: DocPath, stepped: std::io::Result<bool>) -> (result:
        Result<bool, DocumentError>)
        ensures
            final(self).piece_table == old(self).piece_table,
            final(self)@ == (DocumentView {
                dirty: old(self)@.dirty || stepped != Ok::<bool, std::io::Error>(false),
                ..old(self)@
            }),
            stepped == Ok::<bool, std::io::Error>(false) ==> *final(self) == *old(self),
            step_answer(sidecar@, stepped, result),
            match stepped {
                Ok(moved) => result == Ok::<bool, DocumentError>(moved) && (moved
                    ==> final(self).dirty),
                Err(why) => {
                    &&& final(self).dirty
                    &&& result matches Err(error)
                    &&& error matches DocumentError::Write { path: named, source }
                    &&& named@ == sidecar@
                    &&& source == why
                },
            },
    {
        match stepped {
            Ok(false) => Ok(false),
            Ok(true) => {
                self.dirty = true;
                Ok(true)
            },
            Err(source) => {
                self.dirty = true;
                Err(DocumentError::Write { path: sidecar, source })
            },
        }
    }

    /// Restores the document to the previous persisted piece-tree root snapshot.
    pub fn try_undo<S: FnOnce(&PieceTable) -> std::io::Result<()>>(
        &mut self,
        schedule: S,
    ) -> (result: Result<bool, DocumentError>)
        requires
            old(self)@.wf(),
            history_callable(old(self)@, undo_target_of(old(self)@), schedule),
        ensures
            final(self)@.wf(),
            result != Ok::<bool, DocumentError>(false) ==> final(self).dirty,
            match result {
                Ok(moved) => moved ==> call_ensures(
                    schedule,
                    (&final(self).piece_table->0,),
                    Ok::<(), std::io::Error>(()),
                ),
                Err(error) => {
                    &&& error matches DocumentError::Write { path: sidecar, source }
                    &&& old(self).path matches Some(own) ==> sidecar@ == own@ + encode_utf8(
                        ".qem.editlog"@,
                    )
                    &&& old(self).path is None ==> sidecar@
                        == old(self).piece_table->0.original.path@ + encode_utf8(
                        ".qem.editlog"@,
                    )
                    &&& call_ensures(
                        schedule,
                        (&final(self).piece_table->0,),
                        Err::<(), std::io::Error>(source),
                    )
                },
            },
            final(self)@.piece_table != old(self)@.piece_table ==> final(self).dirty,
            result == Ok::<bool, DocumentError>(false) <==> old(self).piece_table is None
                || old(self).piece_table->0.pieces.current == 0,
            result == Ok::<bool, DocumentError>(false) ==> *final(self) == *old(self),
            result != Ok::<bool, DocumentError>(false) ==> {
                &&& final(self).piece_table is Some
                &&& final(self)@.piece_table->0.current == old(self)@.piece_table->0.current
                    - 1
                &&& final(self)@.piece_table->0.roots == old(self)@.piece_table->0.roots
                &&& final(self)@.content() == old(self)@.piece_table->0.entry_bytes(
                    old(self)@.piece_table->0.current - 1,
                )
            },
            history_moved(
                *old(self),
                undo_target_of(old(self)@),
                schedule,
                *final(self),
                result,
            ),
    {
        let Some(piece_table) = self.piece_table.as_mut() else {
            return Ok(false);
        };
        let sidecar = session_sidecar_path(&self.path, piece_table.original.path());
        let stepped = piece_table.undo(schedule);
        self.history_stepped(sidecar, stepped)
    }

    /// Rolls the document back to the previous persisted edit snapshot.
    pub fn undo<S: FnOnce(&PieceTable) -> std::io::Result<()>>(&mut self, schedule: S) -> (moved:
        bool)
        requires
            old(self)@.wf(),
            history_callable(old(self)@, undo_target_of(old(self)@), schedule),
        ensures
            final(self)@.wf(),
            final(self)@.piece_table != old(self)@.piece_table ==> final(self).dirty,
            moved ==> {
                &&& final(self).dirty
                &&& final(self)@.piece_table->0.current == old(self)@.piece_table->0.current
                    - 1
                &&& call_ensures(
                    schedule,
                    (&final(self).piece_table->0,),
                    Ok::<(), std::io::Error>(()),
                )
            },
            !moved ==> *final(self) == *old(self) || exists|source: std::io::Error| #[trigger]
                call_ensures(
                    schedule,
                    (&final(self).piece_table->0,),
                    Err::<(), std::io::Error>(source),
                ),
            exists|result: Result<bool, DocumentError>| #[trigger]
                history_moved(
                    *old(self),
                    undo_target_of(old(self)@),
                    schedule,
                    *final(self),
                    result,
                ) && moved == (result == Ok::<bool, DocumentError>(true)),
    {
        match self.try_undo(schedule) {
            Ok(moved) => moved,
            Err(_) => false,
        }
    }

    /// Reapplies the next change from persistent history.
    pub fn try_redo<S: FnOnce(&PieceTable) -> std::io::Result<()>>(
        &mut self,
        schedule: S,
    ) -> (result: Result<bool, DocumentError>)
        requires
            old(self)@.wf(),
            history_callable(old(self)@, redo_target_of(old(self)@), schedule),
        ensures
            final(self)@.wf(),
            result != Ok::<bool, DocumentError>(false) ==> final(self).dirty,
            match result {
                Ok(moved) => moved ==> call_ensures(
                    schedule,
                    (&final(self).piece_table->0,),
                    Ok::<(), std::io::Error>(()),
                ),
                Err(error) => {
                    &&& error matches DocumentError::Write { path: sidecar, source }
                    &&& old(self).path matches Some(own) ==> sidecar@ == own@ + encode_utf8(
                        ".qem.editlog"@,
                    )
                    &&& old(self).path is None ==> sidecar@
                        == old(self).piece_table->0.original.path@ + encode_utf8(
                        ".qem.editlog"@,
                    )
                    &&& call_ensures(
                        schedule,
                        (&final(self).piece_table->0,),
                        Err::<(), std::io::Error>(source),
                    )
                },
            },
            final(self)@.piece_table != old(self)@.piece_table ==> final(self).dirty,
            result == Ok::<bool, DocumentError>(false) <==> old(self).piece_table is None
                || old(self).piece_table->0.pieces.current + 1
                == old(self).piece_table->0.pieces.roots@.len(),
            result == Ok::<bool, DocumentError>(false) ==> *final(self) == *old(self),
            result != Ok::<bool, DocumentError>(false) ==> {
                &&& final(self).piece_table is Some
                &&& final(self)@.piece_table->0.current == old(self)@.piece_table->0.current
                    + 1
                &&& final(self)@.piece_table->0.roots == old(self)@.piece_table->0.roots
                &&& final(self)@.content() == old(self)@.piece_table->0.entry_bytes(
                    old(self)@.piece_table->0.current + 1,
                )
            },
            history_moved(
                *old(self),
                redo_target_of(old(self)@),
                schedule,
                *final(self),
                result,
            ),
    {
        let Some(piece_table) = self.piece_table.as_mut() else {
            return Ok(false);
        };
        let sidecar = session_sidecar_path(&self.path, piece_table.original.path());
        let stepped = piece_table.redo(schedule);
        self.history_stepped(sidecar, stepped)
    }

    /// Reapplies the next persisted edit snapshot.
    pub fn redo<S: FnOnce(&PieceTable) -> std::io::Result<()>>(&mut self, schedule: S) -> (moved:
        bool)
        requires
            old(self)@.wf(),
            history_callable(old(self)@, redo_target_of(old(self)@), schedule),
        ensures
            final(self)@.wf(),
            final(self)@.piece_table != old(self)@.piece_table ==> final(self).dirty,
            moved ==> {
                &&& final(self).dirty
                &&& final(self)@.piece_table->0.current == old(self)@.piece_table->0.current
                    + 1
                &&& call_ensures(
                    schedule,
                    (&final(self).piece_table->0,),
                    Ok::<(), std::io::Error>(()),
                )
            },
            !moved ==> *final(self) == *old(self) || exists|source: std::io::Error| #[trigger]
                call_ensures(
                    schedule,
                    (&final(self).piece_table->0,),
                    Err::<(), std::io::Error>(source),
                ),
            exists|result: Result<bool, DocumentError>| #[trigger]
                history_moved(
                    *old(self),
                    redo_target_of(old(self)@),
                    schedule,
                    *final(self),
                    result,
                ) && moved == (result == Ok::<bool, DocumentError>(true)),
    {
        match self.try_redo(schedule) {
            Ok(moved) => moved,
            Err(_) => false,
        }
    }

    /// Compacts the piece table before a save, where `policy` forces it.
    pub fn maybe_force_compact_before_save_with_policy<
        S: FnOnce(&PieceTable) -> std::io::Result<()>,
    >(&mut self, policy: CompactionPolicy, schedule: S) -> (result: Result<bool, DocumentError>)
        requires
            old(self)@.wf(),
            compaction_forced(old(self)@, policy) ==> compaction::compaction_callable(
                old(self)@,
                schedule,
            ),
        ensures
            final(self)@.wf(),
            final(self)@ == (DocumentView {
                piece_table: final(self)@.piece_table,
                ..old(self)@
            }),
            result matches Ok(ran) ==> (ran <==> {
                &&& compaction::recommended_for(old(self)@, policy) is Some
                &&& compaction::recommended_for(old(self)@, policy)->0.urgency
                    == CompactionUrgency::Forced
                &&& !(old(self).piece_table->0@.root().pieces.len() <= 1
                    && old(self).piece_table->0@.root().full_index)
            }),
            result == Ok::<bool, DocumentError>(true) ==> {
                &&& final(self).piece_table->0@.root().pieces.len() <= 1
                &&& final(self).piece_table->0@.root().full_index
            },
            result == Ok::<bool, DocumentError>(false) ==> *final(self) == *old(self),
            final(self)@.content() == old(self)@.content(),
            compacted_before_save(*old(self), policy, schedule, *final(self), result),
    {
        let Some(recommendation) = self.compaction_recommendation_with_policy(policy) else {
            return Ok(false);
        };
        if recommendation.urgency() != CompactionUrgency::Forced {
            return Ok(false);
        }
        let sidecar = match &self.piece_table {
            Some(piece_table) => session_sidecar_path(&self.path, piece_table.original.path()),
            None => {
                return Ok(false);
            },
        };
        match self.compact_piece_table(schedule) {
            Ok(compacted) => Ok(compacted),
            Err(source) => Err(DocumentError::Write { path: sidecar, source }),
        }
    }

    /// Prepares a save to `path` that preserves the encoding of the document.
    pub fn prepare_save_with_policy<
        S: FnOnce(&PieceTable) -> std::io::Result<()>,
        E: FnOnce(&str, DocumentEncoding) -> Result<Vec<u8>, String>,
    >(
        &mut self,
        path: &DocPath,
        compaction_policy: Option<CompactionPolicy>,
        schedule: S,
        encode: E,
    ) -> (result: Result<PreparedSave, DocumentError>)
        requires
            old(self)@.wf(),
            prepare_callable_with_options(
                *old(self),
                (DocumentSaveOptions { policy: SaveEncodingPolicy::Preserve }),
                compaction_policy,
                schedule,
                encode,
            ),
        ensures
            final(self)@.wf(),
            final(self)@.content() == old(self)@.content(),
            result matches Ok(save) ==> save.snapshot@.wf(),
            result matches Ok(save) ==> save.encoding == old(self).encoding && save.path@ == path@,
            save_prepared_with_options(
                *old(self),
                path@,
                (DocumentSaveOptions { policy: SaveEncodingPolicy::Preserve }),
                compaction_policy,
                schedule,
                encode,
                *final(self),
                result,
            ),
    {
        self.prepare_save_with_options_and_policy(
            path,
            DocumentSaveOptions::new(),
            compaction_policy,
            schedule,
            encode,
        )
    }

    /// Prepares a save to `path` with `options`.
    pub fn prepare_save_with_options_and_policy<
        S: FnOnce(&PieceTable) -> std::io::Result<()>,
        E: FnOnce(&str, DocumentEncoding) -> Result<Vec<u8>, String>,
    >(
        &mut self,
        path: &DocPath,
        options: DocumentSaveOptions,
        compaction_policy: Option<CompactionPolicy>,
        schedule: S,
        encode: E,
    ) -> (result: Result<PreparedSave, DocumentError>)
        requires
            old(self)@.wf(),
            prepare_callable_with_options(
                *old(self),
                options,
                compaction_policy,
                schedule,
                encode,
            ),
        ensures
            final(self)@.wf(),
            final(self)@.content() == old(self)@.content(),
            result matches Ok(save) ==> save.snapshot@.wf(),
            result matches Ok(save) ==> save.path@ == path@ && match options.policy {
                SaveEncodingPolicy::Preserve => save.encoding == old(self).encoding,
                SaveEncodingPolicy::Convert(wanted) => save.encoding == wanted,
            },
            save_prepared_with_options(
                *old(self),
                path@,
                options,
                compaction_policy,
                schedule,
                encode,
                *final(self),
                result,
            ),
    {
        let encoding = match options.encoding_policy() {
            SaveEncodingPolicy::Preserve => {
                if !self.encoding.can_roundtrip_save() {
                    return Err(
                        save_encoding_error(
                            path,
                            "save",
                            self.encoding,
                            PRESERVE_REFUSED.to_owned(),
                        ),
                    );
                }
                self.encoding
            },
            SaveEncodingPolicy::Convert(encoding) => encoding,
        };
        self.prepare_save_with_encoding_and_policy(
            path,
            encoding,
            compaction_policy,
            schedule,
            encode,
        )
    }

    /// Prepares a save to `path` in `encoding`.
    pub fn prepare_save_with_encoding_and_policy<
        S: FnOnce(&PieceTable) -> std::io::Result<()>,
        E: FnOnce(&str, DocumentEncoding) -> Result<Vec<u8>, String>,
    >(
        &mut self,
        path: &DocPath,
        encoding: DocumentEncoding,
        compaction_policy: Option<CompactionPolicy>,
        schedule: S,
        encode: E,
    ) -> (result: Result<PreparedSave, DocumentError>)
        requires
            old(self)@.wf(),
            prepare_callable(*old(self), encoding, compaction_policy, schedule, encode),
        ensures
            final(self)@.wf(),
            final(self)@.content() == old(self)@.content(),
            result matches Ok(save) ==> save.snapshot@.wf(),
            result matches Ok(save) ==> save.encoding == encoding && save.path@ == path@,
            save_prepared(
                *old(self),
                path@,
                encoding,
                compaction_policy,
                schedule,
                encode,
                *final(self),
                result,
            ),
    {
        if let Some(policy) = compaction_policy {
            match self.maybe_force_compact_before_save_with_policy(policy, schedule) {
                Ok(_) => {},
                Err(error) => {
                    return Err(error);
                },
            }
        }
        let snapshot = if encoding.is_utf8() && self.encoding.is_utf8() {
            if let Some(piece_table) = &self.piece_table {
                SaveSnapshot::PieceTable(PieceTableSnapshot::from_piece_table(piece_table))
            } else if let Some(rope) = &self.rope {
                SaveSnapshot::Rope { rope: rope.clone(), line_ending: self.line_ending }
            } else if let Some(storage) = &self.storage {
                SaveSnapshot::Mmap(storage.clone())
            } else {
                SaveSnapshot::Empty
            }
        } else {
            match self.encoded_save_bytes(path, encoding, encode) {
                Ok(bytes) => SaveSnapshot::Bytes(bytes),
                Err(error) => {
                    return Err(error);
                },
            }
        };
        let total_bytes = match &snapshot {
            SaveSnapshot::Empty => 0,
            SaveSnapshot::Bytes(bytes) => bytes.len() as u64,
            _ => self.file_len() as u64,
        };
        Ok(
            PreparedSave {
                path: path.clone(),
                total_bytes,
                reload_after_save: !self.has_edit_buffer(),
                encoding,
                snapshot,
            },
        )
    }

    /// Prepares a save to `path` that preserves the encoding of the document, after
    /// the compaction that the default policy forces.
    pub fn prepare_save<
        S: FnOnce(&PieceTable) -> std::io::Result<()>,
        E: FnOnce(&str, DocumentEncoding) -> Result<Vec<u8>, String>,
    >(&mut self, path: &DocPath, schedule: S, encode: E) -> (result: Result<
        PreparedSave,
        DocumentError,
    >)
        requires
            old(self)@.wf(),
            prepare_callable_with_options(
                *old(self),
                (DocumentSaveOptions { policy: SaveEncodingPolicy::Preserve }),
                Some(compaction::default_policy()),
                schedule,
                encode,
            ),
        ensures
            final(self)@.wf(),
            final(self)@.content() == old(self)@.content(),
            result matches Ok(save) ==> save.snapshot@.wf(),
            result matches Ok(save) ==> save.encoding == old(self).encoding && save.path@ == path@,
            save_prepared_with_options(
                *old(self),
                path@,
                (DocumentSaveOptions { policy: SaveEncodingPolicy::Preserve }),
                Some(compaction::default_policy()),
                schedule,
                encode,
                *final(self),
                result,
            ),
    {
        self.prepare_save_with_policy(path, Some(CompactionPolicy::default()), schedule, encode)
    }

    /// Ends a save to `path` in `encoding`, once the file is in place.
    pub fn finish_save<
        C: Fn(&DocPath),
        O: FnOnce(&DocPath) -> Result<FileStorage, StorageOpenError>,
        D: FnOnce(DocPath, DocumentEncoding) -> Result<Document, DocumentError>,
    >(
        &mut self,
        path: DocPath,
        reload_after_save: bool,
        encoding: DocumentEncoding,
        remove: C,
        open: O,
        decode: D,
    ) -> (result: Result<(), DocumentError>)
        requires
            old(self)@.wf(),
            finish_callable(
                old(self)@.path,
                path@,
                reload_after_save,
                encoding,
                remove,
                open,
                decode,
            ),
        ensures
            !reload_after_save || encoding == DocumentEncoding::Utf8 || result is Err
                ==> final(self)@.wf(),
            exists|sidecar: DocPath|
                sidecar@ == path@ + encode_utf8(".qem.editlog"@) && #[trigger] call_ensures(
                    remove,
                    (&sidecar,),
                    (),
                ),
            old(self).path matches Some(old_path) ==> exists|sidecar: DocPath|
                sidecar@ == old_path@ + encode_utf8(".qem.editlog"@) && #[trigger] call_ensures(
                    remove,
                    (&sidecar,),
                    (),
                ),
            !reload_after_save ==> {
                &&& result is Ok
                &&& !final(self).dirty
                &&& final(self).encoding == encoding
                &&& final(self)@.path == Some(path@)
                &&& final(self)@.content() == old(self)@.content()
            },
            save_finished(
                *old(self),
                path@,
                reload_after_save,
                encoding,
                remove,
                open,
                decode,
                *final(self),
                result,
            ),
    {
        self.indexing = false;
        if let Some(old_path) = &self.path {
            clear_session_sidecar(old_path, &remove);
        }
        clear_session_sidecar(&path, &remove);
        if !reload_after_save {
            self.path = Some(path);
            self.encoding = encoding;
            self.decoding_had_errors = false;
            self.dirty = false;
            return Ok(());
        }
        if encoding.is_utf8() {
            match open(&path) {
                Ok(storage) => {
                    *self = Document::from_storage(path, storage);
                },
                Err(StorageOpenError::Open(source)) => {
                    return Err(DocumentError::Open { path, source });
                },
                Err(StorageOpenError::MapFile(source)) => {
                    return Err(DocumentError::MapFile { path, source });
                },
            }
        } else {
            match decode(path, encoding) {
                Ok(document) => {
                    *self = document;
                },
                Err(error) => {
                    return Err(error);
                },
            }
        }
        Ok(())
    }

    /// Saves the document to the specified path.
    ///
    /// # Errors
    /// Returns [`DocumentError`] if the file cannot be written, renamed, or
    /// reopened after the save completes.
    pub fn save_to<
        S: FnOnce(&PieceTable) -> std::io::Result<()>,
        E: FnOnce(&str, DocumentEncoding) -> Result<Vec<u8>, String>,
        R: FnOnce(&DocPath, &Vec<WriteStep>) -> std::io::Result<()>,
        P: FnOnce(u64),
        C: Fn(&DocPath),
        O: FnOnce(&DocPath) -> Result<FileStorage, StorageOpenError>,
        D: FnOnce(DocPath, DocumentEncoding) -> Result<Document, DocumentError>,
    >(&mut self, path: &DocPath, host: SaveHost<S, E, R, P, C, O, D>) -> (result: Result<
        (),
        DocumentError,
    >)
        requires
            old(self)@.wf(),
            host_callable(
                *old(self),
                path@,
                (DocumentSaveOptions { policy: SaveEncodingPolicy::Preserve }),
                host,
            ),
        ensures
            result is Ok && (old(self).rope is Some || old(self).piece_table is Some) ==> {
                &&& final(self).encoding == old(self).encoding
                &&& !final(self).dirty
                &&& final(self)@.path == Some(path@)
                &&& final(self)@.content() == old(self)@.content()
            },
            result is Err || !decoded_anew(
                old(self)@,
                (DocumentSaveOptions { policy: SaveEncodingPolicy::Preserve }),
            ) ==> final(self)@.wf(),
            saved(
                *old(self),
                path@,
                (DocumentSaveOptions { policy: SaveEncodingPolicy::Preserve }),
                host,
                *final(self),
                result,
            ),
    {
        let SaveHost { schedule, encode, replace, report, remove, open, decode } = host;
        let prepared = match self.prepare_save(path, schedule, encode) {
            Ok(prepared) => prepared,
            Err(error) => {
                return Err(error);
            },
        };
        assert(save_ready(
            *old(self),
            path@,
            (DocumentSaveOptions { policy: SaveEncodingPolicy::Preserve }),
            schedule,
            encode,
            prepared,
        ));
        let completion = match prepared.execute(replace, report) {
            Ok(completion) => completion,
            Err(error) => {
                return Err(error);
            },
        };
        self.finish_save(
            completion.path,
            completion.reload_after_save,
            completion.encoding,
            remove,
            open,
            decode,
        )
    }

    /// Saves the document to the specified path using explicit save options.
    pub fn save_to_with_options<
        S: FnOnce(&PieceTable) -> std::io::Result<()>,
        E: FnOnce(&str, DocumentEncoding) -> Result<Vec<u8>, String>,
        R: FnOnce(&DocPath, &Vec<WriteStep>) -> std::io::Result<()>,
        P: FnOnce(u64),
        C: Fn(&DocPath),
        O: FnOnce(&DocPath) -> Result<FileStorage, StorageOpenError>,
        D: FnOnce(DocPath, DocumentEncoding) -> Result<Document, DocumentError>,
    >(
        &mut self,
        path: &DocPath,
        options: DocumentSaveOptions,
        host: SaveHost<S, E, R, P, C, O, D>,
    ) -> (result: Result<(), DocumentError>)
        requires
            old(self)@.wf(),
            host_callable(*old(self), path@, options, host),
        ensures
            result is Ok && (old(self).rope is Some || old(self).piece_table is Some) ==> {
                &&& match options.policy {
                    SaveEncodingPolicy::Preserve => final(self).encoding == old(self).encoding,
                    SaveEncodingPolicy::Convert(wanted) => final(self).encoding == wanted,
                }
                &&& !final(self).dirty
                &&& final(self)@.path == Some(path@)
                &&& final(self)@.content() == old(self)@.content()
            },
            result is Err || !decoded_anew(old(self)@, options) ==> final(self)@.wf(),
            saved(*old(self), path@, options, host, *final(self), result),
    {
        let SaveHost { schedule, encode, replace, report, remove, open, decode } = host;
        let prepared = match self.prepare_save_with_options_and_policy(
            path,
            options,
            Some(CompactionPolicy::default()),
            schedule,
            encode,
        ) {
            Ok(prepared) => prepared,
            Err(error) => {
                return Err(error);
            },
        };
        assert(save_ready(*old(self), path@, options, schedule, encode, prepared));
        let completion = match prepared.execute(replace, report) {
            Ok(completion) => completion,
            Err(error) => {
                return Err(error);
            },
        };
        self.finish_save(
            completion.path,
            completion.reload_after_save,
            completion.encoding,
            remove,
            open,
            decode,
        )
    }

    /// Saves the document to the specified path using an explicit target encoding.
    pub fn save_to_with_encoding<
        S: FnOnce(&PieceTable) -> std::io::Result<()>,
        E: FnOnce(&str, DocumentEncoding) -> Result<Vec<u8>, String>,
        R: FnOnce(&DocPath, &Vec<WriteStep>) -> std::io::Result<()>,
        P: FnOnce(u64),
        C: Fn(&DocPath),
        O: FnOnce(&DocPath) -> Result<FileStorage, StorageOpenError>,
        D: FnOnce(DocPath, DocumentEncoding) -> Result<Document, DocumentError>,
    >(
        &mut self,
        path: &DocPath,
        encoding: DocumentEncoding,
        host: SaveHost<S, E, R, P, C, O, D>,
    ) -> (result: Result<(), DocumentError>)
        requires
            old(self)@.wf(),
            host_callable(
                *old(self),
                path@,
                (DocumentSaveOptions { policy: SaveEncodingPolicy::Convert(encoding) }),
                host,
            ),
        ensures
            result is Ok && (old(self).rope is Some || old(self).piece_table is Some) ==> {
                &&& final(self).encoding == encoding
                &&& !final(self).dirty
                &&& final(self)@.path == Some(path@)
                &&& final(self)@.content() == old(self)@.content()
            },
            result is Err || !decoded_anew(
                old(self)@,
                (DocumentSaveOptions { policy: SaveEncodingPolicy::Convert(encoding) }),
            ) ==> final(self)@.wf(),
            saved(
                *old(self),
                path@,
                (DocumentSaveOptions { policy: SaveEncodingPolicy::Convert(encoding) }),
                host,
                *final(self),
                result,
            ),
    {
        self.save_to_with_options(path, DocumentSaveOptions::new().with_encoding(encoding), host)
    }
}

/// What a save asks of its surroundings.
pub struct SaveHost<S, E, R, P, C, O, D> {
    /// Has the session store take note of a compacted piece table.
    pub schedule: S,
    /// Takes text to an encoding, or says why it cannot.
    pub encode: E,
    /// Puts the writes into a file beside the path, reporting the progress of each,
    /// and moves the file to the path at once.
    pub replace: R,
    /// Takes note of the number of bytes once the file is in place.
    pub report: P,
    /// Deletes a sidecar, where it is there.
    pub remove: C,
    /// Opens a UTF-8 file.
    pub open: O,
    /// Opens a file in another encoding as a document.
    pub decode: D,
}

/// `save` is what preparing a save of `before` to `path` with `options`, and with the
/// default compaction policy, came to.
pub open spec fn save_ready<
    S: FnOnce(&PieceTable) -> std::io::Result<()>,
    E: FnOnce(&str, DocumentEncoding) -> Result<Vec<u8>, String>,
>(
    before: Document,
    path: Seq<u8>,
    options: DocumentSaveOptions,
    schedule: S,
    encode: E,
    save: PreparedSave,
) -> bool {
    exists|ready: Document, prepared: Result<PreparedSave, DocumentError>|
        {
            &&& #[trigger] save_prepared_with_options(
                before,
                path,
                options,
                Some(compaction::default_policy()),
                schedule,
                encode,
                ready,
                prepared,
            )
            &&& prepared == Ok::<PreparedSave, DocumentError>(save)
        }
}

/// What a save of `before` to `path` with `options` may call: what preparing it
/// calls, behind that what writing the prepared save calls, and behind that, once the
/// file is in place, what ending the save calls.
pub open spec fn host_callable<
    S: FnOnce(&PieceTable) -> std::io::Result<()>,
    E: FnOnce(&str, DocumentEncoding) -> Result<Vec<u8>, String>,
    R: FnOnce(&DocPath, &Vec<WriteStep>) -> std::io::Result<()>,
    P: FnOnce(u64),
    C: Fn(&DocPath),
    O: FnOnce(&DocPath) -> Result<FileStorage, StorageOpenError>,
    D: FnOnce(DocPath, DocumentEncoding) -> Result<Document, DocumentError>,
>(
    before: Document,
    path: Seq<u8>,
    options: DocumentSaveOptions,
    host: SaveHost<S, E, R, P, C, O, D>,
) -> bool {
    &&& prepare_callable_with_options(
        before,
        options,
        Some(compaction::default_policy()),
        host.schedule,
        host.encode,
    )
    &&& forall|save: PreparedSave| #[trigger]
        save_ready(before, path, options, host.schedule, host.encode, save)
            ==> execute_callable(save, host.replace, host.report)
    &&& forall|save: PreparedSave, completion: Result<SaveCompletion, DocumentError>|
        {
            &&& save_ready(before, path, options, host.schedule, host.encode, save)
            &&& #[trigger] executed(save, host.replace, host.report, completion)
            &&& completion is Ok
        } ==> finish_callable(
            before@.path,
            path,
            save.reload_after_save,
            save.encoding,
            host.remove,
            host.open,
            host.decode,
        )
}

/// What follows once a save is prepared: it is written, and, where that succeeds,
/// ended.
pub open spec fn save_carried_out<
    S: FnOnce(&PieceTable) -> std::io::Result<()>,
    E: FnOnce(&str, DocumentEncoding) -> Result<Vec<u8>, String>,
    R: FnOnce(&DocPath, &Vec<WriteStep>) -> std::io::Result<()>,
    P: FnOnce(u64),
    C: Fn(&DocPath),
    O: FnOnce(&DocPath) -> Result<FileStorage, StorageOpenError>,
    D: FnOnce(DocPath, DocumentEncoding) -> Result<Document, DocumentError>,
>(
    doc: Document,
    save: PreparedSave,
    host: SaveHost<S, E, R, P, C, O, D>,
    after: Document,
    result: Result<(), DocumentError>,
) -> bool {
    exists|completion: Result<SaveCompletion, DocumentError>|
        {
            &&& #[trigger] executed(save, host.replace, host.report, completion)
            &&& match completion {
                Ok(completion) => save_finished(
                    doc,
                    completion.path@,
                    completion.reload_after_save,
                    completion.encoding,
                    host.remove,
                    host.open,
                    host.decode,
                    after,
                    result,
                ),
                Err(error) => after == doc && result == Err::<(), DocumentError>(error),
            }
        }
}

/// A save of `before` to `path` with `options` made `after` of it and answered
/// `result`: it was prepared, with the default compaction policy, written and ended,
/// up to the first of these that failed.
pub open spec fn saved<
    S: FnOnce(&PieceTable) -> std::io::Result<()>,
    E: FnOnce(&str, DocumentEncoding) -> Result<Vec<u8>, String>,
    R: FnOnce(&DocPath, &Vec<WriteStep>) -> std::io::Result<()>,
    P: FnOnce(u64),
    C: Fn(&DocPath),
    O: FnOnce(&DocPath) -> Result<FileStorage, StorageOpenError>,
    D: FnOnce(DocPath, DocumentEncoding) -> Result<Document, DocumentError>,
>(
    before: Document,
    path: Seq<u8>,
    options: DocumentSaveOptions,
    host: SaveHost<S, E, R, P, C, O, D>,
    after: Document,
    result: Result<(), DocumentError>,
) -> bool {
    exists|ready: Document, prepared: Result<PreparedSave, DocumentError>|
        {
            &&& #[trigger] save_prepared_with_options(
                before,
                path,
                options,
                Some(compaction::default_policy()),
                host.schedule,
                host.encode,
                ready,
                prepared,
            )
            &&& match prepared {
                Ok(save) => save_carried_out(ready, save, host, after, result),
                Err(error) => after == ready && result == Err::<(), DocumentError>(error),
            }
        }
}

} // verus!
