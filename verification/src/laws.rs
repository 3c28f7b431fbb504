//! What holds of the library as a whole.
use crate::compaction;
use crate::compaction::{CompactionPolicy, CompactionUrgency};
use crate::document;
use crate::document::{Document, DocumentView};
use crate::encoding::{DocumentEncoding, DocumentSaveOptions};
use crate::error::{DocumentError, StorageOpenError};
use crate::parts;
use crate::path;
use crate::path::DocPath;
use crate::persistence;
use crate::persistence::{PreparedSave, SaveCompletion, SaveHost};
use crate::piece_table;
use crate::piece_table::{PieceTable, TableView};
use crate::rope;
use crate::storage::{FileStorage, StorageView};
use crate::stream;
use crate::stream::{SnapshotView, WriteStep};
use crate::text;
use vstd::prelude::*;
use vstd::utf8::*;

pub mod compacting;
pub mod reading;
pub mod saving;
pub mod streaming;
pub mod undoing;

verus! {

/// A compaction changes the document at no entry of the history: whichever entry
/// an undo or a redo goes to afterwards, the bytes there are what they were.
pub proof fn law_compaction_keeps_every_entry(table: TableView, j: int)
    requires
        table.wf(),
        table.add.len() + table.content().len() <= usize::MAX,
        0 <= j < table.roots.len(),
    ensures
        compaction::compacted(table).wf(),
        compaction::compacted(table).content() == table.content(),
        compaction::compacted(table).at(j).content() == table.at(j).content(),
{
    compaction::lemma_compacted(table);
    let after = compaction::compacted(table);
    assert(after.entry_bytes(table.current) == table.entry_bytes(table.current));
    assert(after.entry_bytes(j) == table.entry_bytes(j));
}

/// A compaction makes no undo step: the history has the same entries, but for the
/// one at which the document stands, and undo and redo go where they went.
pub proof fn law_compaction_adds_no_undo_step(table: TableView)
    requires
        table.wf(),
    ensures
        compaction::compacted(table).roots.len() == table.roots.len(),
        compaction::compacted(table).current == table.current,
        forall|j: int|
            0 <= j < table.roots.len() && j != table.current ==> #[trigger] compaction::compacted(
                table,
            ).roots[j] == table.roots[j],
        persistence::undo_target(compaction::compacted(table)) == persistence::undo_target(table),
        persistence::redo_target(compaction::compacted(table)) == persistence::redo_target(table),
{
}

/// After a compaction there is nothing left to compact.
pub proof fn law_compaction_settles(table: TableView)
    requires
        table.wf(),
    ensures
        !compaction::can_compact(compaction::compacted(table)),
{
}

/// A compaction changes neither the bytes that a save writes nor the text that a
/// save encodes.
pub proof fn law_compaction_keeps_what_is_saved(doc: DocumentView)
    requires
        doc.wf(),
        doc.piece_table is Some,
        doc.piece_table->0.add.len() + doc.piece_table->0.content().len() <= usize::MAX,
    ensures
        compaction::compacted_document(doc).wf(),
        compaction::compacted_document(doc).content() == doc.content(),
        compaction::compacted_document(doc).text() == doc.text(),
        persistence::snapshot_of(compaction::compacted_document(doc)).content()
            == persistence::snapshot_of(doc).content(),
{
    law_compaction_keeps_every_entry(doc.piece_table->0, doc.piece_table->0.current);
}

/// Redo undoes undo: the piece table is what it was.
pub proof fn law_redo_reverts_undo(doc: DocumentView)
    requires
        doc.wf(),
        persistence::undo_target_of(doc) is Some,
    ensures
        ({
            let undone = persistence::moved_to(doc, persistence::undo_target_of(doc)->0);
            &&& undone.wf()
            &&& persistence::redo_target_of(undone) is Some
            &&& persistence::moved_to(
                undone,
                persistence::redo_target_of(undone)->0,
            ).piece_table == doc.piece_table
        }),
{
}

/// Undo undoes redo: the piece table is what it was.
pub proof fn law_undo_reverts_redo(doc: DocumentView)
    requires
        doc.wf(),
        persistence::redo_target_of(doc) is Some,
    ensures
        ({
            let redone = persistence::moved_to(doc, persistence::redo_target_of(doc)->0);
            &&& redone.wf()
            &&& persistence::undo_target_of(redone) is Some
            &&& persistence::moved_to(
                redone,
                persistence::undo_target_of(redone)->0,
            ).piece_table == doc.piece_table
        }),
{
}

/// The writes of a snapshot write its bytes, all of them, once and in order.
pub proof fn law_writes_are_the_content(snapshot: SnapshotView)
    ensures
        parts::join(snapshot.writes()) == snapshot.content(),
{
    match snapshot {
        SnapshotView::Empty => {},
        SnapshotView::Bytes(bytes) => {
            stream::lemma_chunk_writes_join(bytes, stream::chunk_count(bytes.len()) as int);
        },
        SnapshotView::Mmap(storage) => {
            let bytes = storage.bytes;
            stream::lemma_chunk_writes_join(bytes, stream::chunk_count(bytes.len()) as int);
        },
        SnapshotView::Rope { chunks, line_ending } => {
            stream::lemma_rope_writes_join(chunks, line_ending);
        },
        SnapshotView::PieceTable { original, add, pieces } => {
            stream::lemma_piece_writes_join(original.bytes, add, pieces);
        },
    }
}

/// Steps that stream a snapshot write its bytes.
pub proof fn law_steps_write_the_content(
    steps: Seq<WriteStep>,
    snapshot: SnapshotView,
    total: u64,
)
    requires
        stream::streams(steps, snapshot.writes(), total),
    ensures
        stream::streamed(steps) == snapshot.content(),
{
    let bytes = Seq::new(steps.len(), |i: int| steps[i].bytes@);
    assert forall|i: int| 0 <= i < steps.len() implies bytes[i] == snapshot.writes()[i] by {
        assert(steps[i].bytes@ == snapshot.writes()[i]);
    }
    assert(bytes =~= snapshot.writes());
    law_writes_are_the_content(snapshot);
}

/// Steps that were carried out wrote their bytes, once each and in order, and the
/// progress noted last is that of the last of them. `held` is what the file holds and
/// `noted` the progress noted, for a `write` that puts the bytes that it takes behind
/// what the file holds and a `report` that takes note.
pub proof fn law_carried_out_steps_write_their_bytes<
    T,
    W: Fn(T, &[u8]) -> (T, std::io::Result<()>),
    P: Fn(T, u64) -> T,
>(
    outs: Seq<T>,
    steps: Seq<WriteStep>,
    n: int,
    write: W,
    report: P,
    held: spec_fn(T) -> Seq<u8>,
    noted: spec_fn(T) -> u64,
)
    requires
        0 <= n <= steps.len(),
        stream::went_through(outs, steps, n, write, report),
        forall|to: T, bytes: &[u8], written: T| #[trigger]
            call_ensures(write, (to, bytes), (written, Ok::<(), std::io::Error>(())))
                ==> held(written) == held(to) + bytes@,
        forall|to: T, progress: u64, after: T| #[trigger]
            call_ensures(report, (to, progress), after) ==> held(after) == held(to) && noted(
                after,
            ) == progress,
    ensures
        held(outs[n]) == held(outs[0]) + stream::streamed(steps.take(n)),
        n > 0 ==> noted(outs[n]) == steps[n - 1].progress,
    decreases n,
{
    if n == 0 {
        assert(stream::streamed(steps.take(0)) =~= Seq::empty());
    } else {
        let before = outs.drop_last();
        assert forall|i: int| 0 <= i < n - 1 implies stream::step_done(
            before[i],
            #[trigger] steps[i],
            write,
            report,
            before[i + 1],
        ) by {
            assert(stream::step_done(outs[i], steps[i], write, report, outs[i + 1]));
        }
        law_carried_out_steps_write_their_bytes(
            before,
            steps,
            n - 1,
            write,
            report,
            held,
            noted,
        );
        let step = steps[n - 1];
        assert(stream::step_done(outs[n - 1], step, write, report, outs[n]));
        let bytes = Seq::new((n - 1) as nat, |i: int| steps.take(n - 1)[i].bytes@);
        assert(Seq::new(n as nat, |i: int| steps.take(n)[i].bytes@) =~= bytes.push(step.bytes@));
        parts::lemma_join_push(bytes, step.bytes@);
        assert(held(outs[n]) =~= held(outs[0]) + stream::streamed(steps.take(n)));
    }
}

/// The progress of a save never falls, never passes the total, and, where the total
/// is the number of bytes, ends there.
pub proof fn law_progress(steps: Seq<WriteStep>, writes: Seq<Seq<u8>>, total: u64)
    requires
        stream::streams(steps, writes, total),
    ensures
        forall|i: int, j: int|
            0 <= i <= j < steps.len() ==> (#[trigger] steps[i]).progress <= (
            #[trigger] steps[j]).progress <= total,
        steps.len() > 0 && total == parts::join(writes).len() ==> steps.last().progress == total,
{
    assert forall|i: int, j: int| 0 <= i <= j < steps.len() implies (
    #[trigger] steps[i]).progress <= (#[trigger] steps[j]).progress <= total by {
        parts::lemma_join_take(writes.take(j + 1), i + 1);
        assert(writes.take(j + 1).take(i + 1) =~= writes.take(i + 1));
    }
    if steps.len() > 0 {
        assert(writes.take(writes.len() as int) =~= writes);
        assert(steps[steps.len() - 1].bytes@ == writes[writes.len() - 1]);
    }
}

/// A write of bytes that could be written at once is not empty and has at most the
/// number of bytes that a write may have. All but the last have that number.
pub proof fn law_chunks_are_bounded(bytes: Seq<u8>, i: int)
    requires
        0 <= i < stream::chunk_writes(bytes).len(),
    ensures
        0 < stream::chunk_writes(bytes)[i].len() <= stream::SAVE_STREAM_CHUNK_BYTES,
        i + 1 < stream::chunk_writes(bytes).len() ==> stream::chunk_writes(bytes)[i].len()
            == stream::SAVE_STREAM_CHUNK_BYTES,
{
    stream::lemma_chunk_count(bytes.len(), i);
    stream::lemma_chunk_count(bytes.len(), i + 1);
}

/// What a save writes of a document that stays UTF-8 is the document, and the total
/// that it reports is the number of its bytes.
pub proof fn law_snapshot_is_the_document(doc: DocumentView)
    requires
        doc.wf(),
    ensures
        persistence::snapshot_of(doc).wf(),
        persistence::snapshot_of(doc).content() == doc.content(),
{
    if doc.piece_table is Some {
        let table = doc.piece_table->0;
        assert(table.roots[table.current].wf(table.original.bytes, table.add));
    }
}

/// A rope is saved as the UTF-8 of the text that is rendered of it.
pub proof fn law_rope_is_saved_as_its_text(doc: DocumentView)
    requires
        doc.wf(),
        doc.one_buffer(),
        doc.rope is Some,
    ensures
        encode_utf8(doc.text()) == doc.content(),
{
}

/// Line endings are applied the same way to text and to the bytes that it is saved
/// as, and `\n` leaves both as they are.
pub proof fn law_line_endings(chunks: Seq<Seq<char>>, ending: text::LineEnding)
    ensures
        rope::rope_bytes(chunks, ending) == text::rewrite_newlines(
            encode_utf8(parts::join(chunks)),
            ending.bytes(),
        ),
        rope::rope_bytes(chunks, text::LineEnding::Lf) == encode_utf8(parts::join(chunks)),
{
    text::lemma_line_endings_in_utf8(parts::join(chunks), ending.chars());
    text::lemma_with_line_ending_lf(parts::join(chunks));
}

/// A document that is read back from the bytes that its save wrote has the bytes
/// that it had, and is clean.
pub proof fn law_reload_gives_back_what_was_saved(
    doc: DocumentView,
    path: Seq<u8>,
    storage: StorageView,
)
    requires
        doc.wf(),
        storage.bytes == parts::join(persistence::snapshot_of(doc).writes()),
    ensures
        document::fresh(path, storage).wf(),
        document::fresh(path, storage).content() == doc.content(),
        document::fresh(path, storage).path == Some(path),
        !document::fresh(path, storage).dirty,
{
    law_writes_are_the_content(persistence::snapshot_of(doc));
    law_snapshot_is_the_document(doc);
}

/// A document that is saved from its edit buffer keeps its bytes, its text and its
/// history, and is clean, with the path and the encoding of the save.
pub proof fn law_save_in_place_keeps_the_document(
    doc: DocumentView,
    path: Seq<u8>,
    encoding: DocumentEncoding,
)
    requires
        doc.wf(),
    ensures
        ({
            let after = persistence::saved_in_place(doc, path, encoding);
            &&& after.wf()
            &&& after.content() == doc.content()
            &&& after.text() == doc.text()
            &&& after.piece_table == doc.piece_table
            &&& after.path == Some(path)
            &&& after.encoding == encoding
            &&& !after.dirty
        }),
{
}

/// What prepares a save leaves the document as it is, or compacted.
pub proof fn law_preparing_keeps_the_document<
    S: FnOnce(&PieceTable) -> std::io::Result<()>,
    E: FnOnce(&str, DocumentEncoding) -> Result<Vec<u8>, String>,
>(
    before: Document,
    path: Seq<u8>,
    options: DocumentSaveOptions,
    policy: Option<CompactionPolicy>,
    schedule: S,
    encode: E,
    after: Document,
    result: Result<PreparedSave, DocumentError>,
)
    requires
        before@.wf(),
        persistence::save_prepared_with_options(
            before,
            path,
            options,
            policy,
            schedule,
            encode,
            after,
            result,
        ),
    ensures
        after@ == before@ || after@ == compaction::compacted_document(before@),
        after@.wf(),
        after@.content() == before@.content(),
        after@.text() == before@.text(),
{
    if after@ != before@ {
        assert(compaction::document_can_compact(before@));
        let table = after.piece_table->0;
        assert(table.add.len() == table.add@.len());
        assert(table@.add == before@.piece_table->0.add + before@.piece_table->0.content());
        law_compaction_keeps_what_is_saved(before@);
    }
}

/// Takes a save apart: the document once the save was prepared, and what preparing it
/// came to.
proof fn lemma_prepared<
    S: FnOnce(&PieceTable) -> std::io::Result<()>,
    E: FnOnce(&str, DocumentEncoding) -> Result<Vec<u8>, String>,
    R: FnOnce(&DocPath, &Vec<WriteStep>) -> std::io::Result<()>,
    P: FnOnce(u64),
    C: Fn(&DocPath),
    O: FnOnce(&DocPath) -> Result<FileStorage, StorageOpenError>,
    D: FnOnce(DocPath, DocumentEncoding) -> Result<Document, DocumentError>,
>(
    before: Document,
    path: Seq<u8>,
    options: DocumentSaveOptions,
    host: SaveHost<S, E, R, P, C, O, D>,
    after: Document,
    result: Result<(), DocumentError>,
) -> (parts: (Document, Result<PreparedSave, DocumentError>))
    requires
        before@.wf(),
        persistence::saved(before, path, options, host, after, result),
    ensures
        persistence::save_prepared_with_options(
            before,
            path,
            options,
            Some(compaction::default_policy()),
            host.schedule,
            host.encode,
            parts.0,
            parts.1,
        ),
        match parts.1 {
            Ok(save) => persistence::save_carried_out(parts.0, save, host, after, result),
            Err(error) => after == parts.0 && result == Err::<(), DocumentError>(error),
        },
        parts.0@ == before@ || parts.0@ == compaction::compacted_document(before@),
        parts.0@.wf(),
        parts.0@.content() == before@.content(),
        parts.0@.text() == before@.text(),
{
    let (ready, prepared): (Document, Result<PreparedSave, DocumentError>) =
        choose|ready: Document, prepared: Result<PreparedSave, DocumentError>|
        {
            &&& #[trigger] persistence::save_prepared_with_options(
                before,
                path,
                options,
                Some(compaction::default_policy()),
                host.schedule,
                host.encode,
                ready,
                prepared,
            )
            &&& match prepared {
                Ok(save) => persistence::save_carried_out(ready, save, host, after, result),
                Err(error) => after == ready && result == Err::<(), DocumentError>(error),
            }
        };
    law_preparing_keeps_the_document(
        before,
        path,
        options,
        Some(compaction::default_policy()),
        host.schedule,
        host.encode,
        ready,
        prepared,
    );
    (ready, prepared)
}

/// Takes a save that succeeded apart: the steps that were handed to the host for the
/// prepared save, and the completion that the save was ended with.
proof fn lemma_carried_out<
    S: FnOnce(&PieceTable) -> std::io::Result<()>,
    E: FnOnce(&str, DocumentEncoding) -> Result<Vec<u8>, String>,
    R: FnOnce(&DocPath, &Vec<WriteStep>) -> std::io::Result<()>,
    P: FnOnce(u64),
    C: Fn(&DocPath),
    O: FnOnce(&DocPath) -> Result<FileStorage, StorageOpenError>,
    D: FnOnce(DocPath, DocumentEncoding) -> Result<Document, DocumentError>,
>(
    ready: Document,
    save: PreparedSave,
    host: SaveHost<S, E, R, P, C, O, D>,
    after: Document,
) -> (parts: (Vec<WriteStep<'static>>, SaveCompletion))
    requires
        persistence::save_carried_out(ready, save, host, after, Ok(())),
    ensures
        stream::streamed(parts.0@) == save.snapshot@.content(),
        call_ensures(host.replace, (&save.path, &parts.0), Ok::<(), std::io::Error>(())),
        persistence::completed(save, Ok(()), Ok(parts.1)),
        persistence::save_finished(
            ready,
            parts.1.path@,
            parts.1.reload_after_save,
            parts.1.encoding,
            host.remove,
            host.open,
            host.decode,
            after,
            Ok(()),
        ),
{
    let result: Result<(), DocumentError> = Ok(());
    let completion = choose|completion: Result<SaveCompletion, DocumentError>|
        {
            &&& #[trigger] persistence::executed(save, host.replace, host.report, completion)
            &&& match completion {
                Ok(completion) => persistence::save_finished(
                    ready,
                    completion.path@,
                    completion.reload_after_save,
                    completion.encoding,
                    host.remove,
                    host.open,
                    host.decode,
                    after,
                    result,
                ),
                Err(error) => after == ready && result == Err::<(), DocumentError>(error),
            }
        };
    let (steps, replaced): (Vec<WriteStep>, std::io::Result<()>) =
        choose|steps: Vec<WriteStep>, replaced: std::io::Result<()>|
        {
            &&& stream::streams(steps@, save.snapshot@.writes(), save.total_bytes)
            &&& #[trigger] call_ensures(host.replace, (&save.path, &steps), replaced)
            &&& replaced is Ok ==> call_ensures(host.report, (save.total_bytes,), ())
            &&& persistence::completed(save, replaced, completion)
        };
    law_steps_write_the_content(steps@, save.snapshot@, save.total_bytes);
    assert(replaced is Ok);
    assert(replaced->Ok_0 == ());
    (steps, completion->Ok_0)
}

/// A save that succeeds has put the document in place: a UTF-8 document that is
/// saved as UTF-8 has been handed to the host as writes that are its bytes, for the
/// path of the save, and the host said that they are in place. A document in an
/// edit buffer has kept its bytes, is clean and has the path of the save.
pub proof fn law_save_writes_the_document<
    S: FnOnce(&PieceTable) -> std::io::Result<()>,
    E: FnOnce(&str, DocumentEncoding) -> Result<Vec<u8>, String>,
    R: FnOnce(&DocPath, &Vec<WriteStep>) -> std::io::Result<()>,
    P: FnOnce(u64),
    C: Fn(&DocPath),
    O: FnOnce(&DocPath) -> Result<FileStorage, StorageOpenError>,
    D: FnOnce(DocPath, DocumentEncoding) -> Result<Document, DocumentError>,
>(
    before: Document,
    path: Seq<u8>,
    options: DocumentSaveOptions,
    host: SaveHost<S, E, R, P, C, O, D>,
    after: Document,
)
    requires
        before@.wf(),
        before@.encoding == DocumentEncoding::Utf8,
        persistence::target_encoding(before@, options) == Some(DocumentEncoding::Utf8),
        persistence::saved(before, path, options, host, after, Ok(())),
    ensures
        exists|at: DocPath, steps: Vec<WriteStep>|
            {
                &&& at@ == path
                &&& stream::streamed(steps@) == before@.content()
                &&& #[trigger] call_ensures(
                    host.replace,
                    (&at, &steps),
                    Ok::<(), std::io::Error>(()),
                )
            },
        before@.has_edit_buffer() ==> {
            &&& after@.wf()
            &&& after@.content() == before@.content()
            &&& after@.text() == before@.text()
            &&& after@.path == Some(path)
            &&& !after@.dirty
        },
{
    let (ready, prepared) = lemma_prepared(before, path, options, host, after, Ok(()));
    let save = prepared->Ok_0;
    law_snapshot_is_the_document(ready@);
    assert(persistence::is_save_of(
        save,
        ready@,
        path,
        DocumentEncoding::Utf8,
        persistence::snapshot_of(ready@),
    ));
    let (steps, done) = lemma_carried_out(ready, save, host, after);
    assert(call_ensures(host.replace, (&save.path, &steps), Ok::<(), std::io::Error>(())));
}

/// A UTF-8 document without an edit buffer is, after a save that succeeds, what the
/// host opened at the path of the save, and what the host put there before is the
/// document as it was. So where the file gives back what was put into it, the
/// document has the bytes that it had. It is clean and has the path of the save.
pub proof fn law_save_reloads_the_document<
    S: FnOnce(&PieceTable) -> std::io::Result<()>,
    E: FnOnce(&str, DocumentEncoding) -> Result<Vec<u8>, String>,
    R: FnOnce(&DocPath, &Vec<WriteStep>) -> std::io::Result<()>,
    P: FnOnce(u64),
    C: Fn(&DocPath),
    O: FnOnce(&DocPath) -> Result<FileStorage, StorageOpenError>,
    D: FnOnce(DocPath, DocumentEncoding) -> Result<Document, DocumentError>,
>(
    before: Document,
    path: Seq<u8>,
    options: DocumentSaveOptions,
    host: SaveHost<S, E, R, P, C, O, D>,
    after: Document,
)
    requires
        before@.wf(),
        !before@.has_edit_buffer(),
        before@.encoding == DocumentEncoding::Utf8,
        persistence::target_encoding(before@, options) == Some(DocumentEncoding::Utf8),
        persistence::saved(before, path, options, host, after, Ok(())),
    ensures
        after@.wf(),
        after@.path == Some(path),
        !after@.dirty,
        exists|to: DocPath, steps: Vec<WriteStep>, from: DocPath, storage: FileStorage|
            {
                &&& to@ == path
                &&& stream::streamed(steps@) == before@.content()
                &&& #[trigger] call_ensures(
                    host.replace,
                    (&to, &steps),
                    Ok::<(), std::io::Error>(()),
                )
                &&& from@ == path
                &&& #[trigger] call_ensures(
                    host.open,
                    (&from,),
                    Ok::<FileStorage, StorageOpenError>(storage),
                )
                &&& after@ == document::fresh(path, storage@)
                &&& storage@.bytes == stream::streamed(steps@) ==> after@.content()
                    == before@.content()
            },
{
    let (ready, prepared) = lemma_prepared(before, path, options, host, after, Ok(()));
    let result: Result<(), DocumentError> = Ok(());
    let save = prepared->Ok_0;
    assert(ready@ == before@);
    law_snapshot_is_the_document(ready@);
    let (steps, done) = lemma_carried_out(ready, save, host, after);
    let (from, opened): (DocPath, Result<FileStorage, StorageOpenError>) =
        choose|from: DocPath, opened: Result<FileStorage, StorageOpenError>|
        {
            &&& from@ == path
            &&& #[trigger] call_ensures(host.open, (&from,), opened)
            &&& persistence::reloaded(ready@, path, opened, after@, result)
        };
    assert(opened is Ok);
    assert(call_ensures(host.replace, (&save.path, &steps), Ok::<(), std::io::Error>(())));
    assert(call_ensures(
        host.open,
        (&from,),
        Ok::<FileStorage, StorageOpenError>(opened->Ok_0),
    ));
}

/// A save that succeeds in another encoding, or from one, has put in place what the
/// codec made of the text of the document.
pub proof fn law_conversion_writes_what_the_codec_made<
    S: FnOnce(&PieceTable) -> std::io::Result<()>,
    E: FnOnce(&str, DocumentEncoding) -> Result<Vec<u8>, String>,
    R: FnOnce(&DocPath, &Vec<WriteStep>) -> std::io::Result<()>,
    P: FnOnce(u64),
    C: Fn(&DocPath),
    O: FnOnce(&DocPath) -> Result<FileStorage, StorageOpenError>,
    D: FnOnce(DocPath, DocumentEncoding) -> Result<Document, DocumentError>,
>(
    before: Document,
    path: Seq<u8>,
    options: DocumentSaveOptions,
    host: SaveHost<S, E, R, P, C, O, D>,
    after: Document,
    encoding: DocumentEncoding,
)
    requires
        before@.wf(),
        persistence::target_encoding(before@, options) == Some(encoding),
        before@.encoding != DocumentEncoding::Utf8 || encoding != DocumentEncoding::Utf8,
        persistence::saved(before, path, options, host, after, Ok(())),
    ensures
        exists|made: &str, bytes: Vec<u8>, at: DocPath, steps: Vec<WriteStep>|
            {
                &&& made@ == before@.text()
                &&& #[trigger] call_ensures(
                    host.encode,
                    (made, encoding),
                    Ok::<Vec<u8>, String>(bytes),
                )
                &&& at@ == path
                &&& stream::streamed(steps@) == bytes@
                &&& #[trigger] call_ensures(
                    host.replace,
                    (&at, &steps),
                    Ok::<(), std::io::Error>(()),
                )
            },
{
    let (ready, prepared) = lemma_prepared(before, path, options, host, after, Ok(()));
    let save = prepared->Ok_0;
    assert(ready@.encoding == before@.encoding);
    assert(persistence::snapshot_taken(ready@, path, encoding, host.encode, prepared));
    let taken = choose|bytes: Result<Vec<u8>, DocumentError>|
        {
            &&& #[trigger] persistence::text_encoded(ready@, path, encoding, host.encode, bytes)
            &&& match bytes {
                Ok(bytes) => prepared matches Ok(save) && persistence::is_save_of(
                    save,
                    ready@,
                    path,
                    encoding,
                    SnapshotView::Bytes(bytes@),
                ),
                Err(error) => prepared == Err::<PreparedSave, DocumentError>(error),
            }
        };
    let bytes = taken->Ok_0;
    let (made, encoded): (&str, Result<Vec<u8>, String>) =
        choose|made: &str, encoded: Result<Vec<u8>, String>|
        {
            &&& made@ == ready@.text()
            &&& #[trigger] call_ensures(host.encode, (made, encoding), encoded)
            &&& persistence::encoding_answer(path, encoding, encoded, taken)
        };
    assert(encoded == Ok::<Vec<u8>, String>(bytes));
    let (steps, done) = lemma_carried_out(ready, save, host, after);
    assert(call_ensures(host.replace, (&save.path, &steps), Ok::<(), std::io::Error>(())));
}

/// A save that fails, at whatever point, leaves the document with its bytes, its
/// text, its path and its encoding, and as dirty as it was.
pub proof fn law_failed_save_keeps_the_document<
    S: FnOnce(&PieceTable) -> std::io::Result<()>,
    E: FnOnce(&str, DocumentEncoding) -> Result<Vec<u8>, String>,
    R: FnOnce(&DocPath, &Vec<WriteStep>) -> std::io::Result<()>,
    P: FnOnce(u64),
    C: Fn(&DocPath),
    O: FnOnce(&DocPath) -> Result<FileStorage, StorageOpenError>,
    D: FnOnce(DocPath, DocumentEncoding) -> Result<Document, DocumentError>,
>(
    before: Document,
    path: Seq<u8>,
    options: DocumentSaveOptions,
    host: SaveHost<S, E, R, P, C, O, D>,
    after: Document,
    error: DocumentError,
)
    requires
        before@.wf(),
        persistence::saved(before, path, options, host, after, Err(error)),
    ensures
        after@.wf(),
        after@.content() == before@.content(),
        after@.text() == before@.text(),
        after@.path == before@.path,
        after@.encoding == before@.encoding,
        after@.dirty == before@.dirty,
{
    let (ready, prepared) = lemma_prepared(before, path, options, host, after, Err(error));
    assert(after@ == ready@ || after@ == persistence::not_indexing(ready@));
}

/// A save that is refused calls nothing: it may be asked of any host, and of one none
/// of whose functions may be called. So the file at the path and the sidecars are
/// left alone.
pub proof fn law_refused_save_calls_nothing<
    S: FnOnce(&PieceTable) -> std::io::Result<()>,
    E: FnOnce(&str, DocumentEncoding) -> Result<Vec<u8>, String>,
    R: FnOnce(&DocPath, &Vec<WriteStep>) -> std::io::Result<()>,
    P: FnOnce(u64),
    C: Fn(&DocPath),
    O: FnOnce(&DocPath) -> Result<FileStorage, StorageOpenError>,
    D: FnOnce(DocPath, DocumentEncoding) -> Result<Document, DocumentError>,
>(
    before: Document,
    path: Seq<u8>,
    options: DocumentSaveOptions,
    host: SaveHost<S, E, R, P, C, O, D>,
)
    requires
        persistence::target_encoding(before@, options) is None,
    ensures
        persistence::host_callable(before, path, options, host),
{
}

/// A save calls nothing behind a forced compaction that fails: where the session store
/// takes no note, nothing else of the host need be callable.
pub proof fn law_save_stops_where_forced_compaction_fails<
    S: FnOnce(&PieceTable) -> std::io::Result<()>,
    E: FnOnce(&str, DocumentEncoding) -> Result<Vec<u8>, String>,
    R: FnOnce(&DocPath, &Vec<WriteStep>) -> std::io::Result<()>,
    P: FnOnce(u64),
    C: Fn(&DocPath),
    O: FnOnce(&DocPath) -> Result<FileStorage, StorageOpenError>,
    D: FnOnce(DocPath, DocumentEncoding) -> Result<Document, DocumentError>,
>(
    before: Document,
    path: Seq<u8>,
    options: DocumentSaveOptions,
    host: SaveHost<S, E, R, P, C, O, D>,
)
    requires
        persistence::compaction_forced(before@, compaction::default_policy()),
        compaction::document_can_compact(before@),
        compaction::compaction_callable(before@, host.schedule),
        forall|table: &PieceTable, stored: std::io::Result<()>| #[trigger]
            call_ensures(host.schedule, (table,), stored) ==> stored is Err,
    ensures
        persistence::host_callable(before, path, options, host),
{
    let policy = compaction::default_policy();
    assert forall|after: Document, ran: Result<bool, DocumentError>| #[trigger]
        persistence::compacted_before_save(
            before,
            policy,
            host.schedule,
            after,
            ran,
        ) implies ran is Err by {
        let stepped = choose|stepped: std::io::Result<bool>| #[trigger]
            compaction::compaction_ran(before, host.schedule, after, stepped)
                && persistence::step_answer(before@.sidecar(), stepped, ran);
        assert(piece_table::scheduled(host.schedule, after.piece_table->0, stepped));
        assert(stepped is Err);
    }
}

/// A save calls nothing behind a codec that refuses the text: where the codec makes
/// no bytes, neither the file nor the sidecars are touched, and what would touch them
/// need not be callable.
pub proof fn law_save_stops_where_the_codec_refuses<
    S: FnOnce(&PieceTable) -> std::io::Result<()>,
    E: FnOnce(&str, DocumentEncoding) -> Result<Vec<u8>, String>,
    R: FnOnce(&DocPath, &Vec<WriteStep>) -> std::io::Result<()>,
    P: FnOnce(u64),
    C: Fn(&DocPath),
    O: FnOnce(&DocPath) -> Result<FileStorage, StorageOpenError>,
    D: FnOnce(DocPath, DocumentEncoding) -> Result<Document, DocumentError>,
>(
    before: Document,
    path: Seq<u8>,
    options: DocumentSaveOptions,
    host: SaveHost<S, E, R, P, C, O, D>,
    encoding: DocumentEncoding,
)
    requires
        persistence::target_encoding(before@, options) == Some(encoding),
        before@.encoding != DocumentEncoding::Utf8 || encoding != DocumentEncoding::Utf8,
        persistence::prepare_callable_with_options(
            before,
            options,
            Some(compaction::default_policy()),
            host.schedule,
            host.encode,
        ),
        forall|text: &str, encoded: Result<Vec<u8>, String>| #[trigger]
            call_ensures(host.encode, (text, encoding), encoded) ==> encoded is Err,
    ensures
        persistence::host_callable(before, path, options, host),
{
}

/// A save calls nothing behind a file that could not be put in place: where the host
/// puts none there, `report`, `remove`, `open` and `decode` need not be callable, so
/// the sidecars are left alone.
pub proof fn law_save_stops_where_the_file_is_not_replaced<
    S: FnOnce(&PieceTable) -> std::io::Result<()>,
    E: FnOnce(&str, DocumentEncoding) -> Result<Vec<u8>, String>,
    R: FnOnce(&DocPath, &Vec<WriteStep>) -> std::io::Result<()>,
    P: FnOnce(u64),
    C: Fn(&DocPath),
    O: FnOnce(&DocPath) -> Result<FileStorage, StorageOpenError>,
    D: FnOnce(DocPath, DocumentEncoding) -> Result<Document, DocumentError>,
>(
    before: Document,
    path: Seq<u8>,
    options: DocumentSaveOptions,
    host: SaveHost<S, E, R, P, C, O, D>,
)
    requires
        persistence::prepare_callable_with_options(
            before,
            options,
            Some(compaction::default_policy()),
            host.schedule,
            host.encode,
        ),
        forall|save: PreparedSave, at: &DocPath, steps: &Vec<WriteStep>|
            persistence::save_ready(before, path, options, host.schedule, host.encode, save)
                && at@ == save.path@ && #[trigger] stream::streams(
                steps@,
                save.snapshot@.writes(),
                save.total_bytes,
            ) ==> #[trigger] call_requires(host.replace, (at, steps)),
        forall|at: &DocPath, steps: &Vec<WriteStep>, replaced: std::io::Result<()>| #[trigger]
            call_ensures(host.replace, (at, steps), replaced) ==> replaced is Err,
    ensures
        persistence::host_callable(before, path, options, host),
{
}

/// What the end of a save deletes is the sidecar of the old path or of the new one. It
/// is never the saved file, unless that was saved over the sidecar of the old path.
pub proof fn law_save_deletes_sidecars_only<C: Fn(&DocPath)>(
    remove: C,
    old_path: Option<Seq<u8>>,
    path: Seq<u8>,
    sidecar: Seq<u8>,
)
    requires
        persistence::may_remove(remove, old_path, path, sidecar),
    ensures
        sidecar == path::editlog_of(path) || (old_path is Some && sidecar == path::editlog_of(
            old_path->0,
        )),
        old_path is None || path != path::editlog_of(old_path->0) ==> sidecar != path,
{
    path::lemma_editlog_is_longer(path);
}

/// The end of a save from an edit buffer reads nothing anew: it calls nothing but
/// `remove`, with the two sidecars.
pub proof fn law_save_in_place_opens_nothing<
    C: Fn(&DocPath),
    O: FnOnce(&DocPath) -> Result<FileStorage, StorageOpenError>,
    D: FnOnce(DocPath, DocumentEncoding) -> Result<Document, DocumentError>,
>(
    old_path: Option<Seq<u8>>,
    path: Seq<u8>,
    encoding: DocumentEncoding,
    remove: C,
    open: O,
    decode: D,
)
    requires
        forall|sidecar: &DocPath|
            persistence::may_remove(remove, old_path, path, sidecar@)
                ==> #[trigger] call_requires(remove, (sidecar,)),
    ensures
        persistence::finish_callable(old_path, path, false, encoding, remove, open, decode),
{
}

/// An idle pass changes nothing but the form of the pieces, and nothing at all where
/// a forced compaction is due.
pub proof fn law_idle_pass_leaves_forced_compaction<
    S: FnOnce(&PieceTable) -> std::io::Result<()>,
>(
    before: Document,
    policy: CompactionPolicy,
    schedule: S,
    after: Document,
    result: std::io::Result<compaction::IdleCompactionOutcome>,
)
    requires
        before@.wf(),
        compaction::idle_pass(before, policy, schedule, after, result),
    ensures
        after@ == before@ || after@ == compaction::compacted_document(before@),
        compaction::recommended_for(before@, policy) matches Some(recommendation)
            && recommendation.urgency == CompactionUrgency::Forced ==> after == before,
{
}

} // verus!
