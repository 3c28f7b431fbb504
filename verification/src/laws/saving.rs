//! What a save is for: the document at the path, in the encoding that was asked for,
//! and nothing done beyond what a failure allows.
use crate::compaction;
use crate::compaction::{CompactionPolicy, CompactionUrgency};
use crate::document::{Document, DocumentView};
use crate::encoding::{DocumentEncoding, DocumentSaveOptions, SaveEncodingPolicy};
use crate::error::{DocumentError, StorageOpenError};
use crate::laws;
use crate::path::DocPath;
use crate::persistence;
use crate::persistence::{PreparedSave, SaveCompletion, SaveHost};
use crate::piece_table;
use crate::piece_table::PieceTable;
use crate::storage::FileStorage;
use crate::stream;
use crate::stream::WriteStep;
use vstd::prelude::*;
use vstd::utf8::*;

verus! {

/// A prepared save is in the encoding of the document, where that is to be preserved,
/// and in the given one, where it is to be converted. It is for the path, counts the
/// bytes that it writes, and is read back where no edit buffer holds the document.
pub proof fn law_prepared_save<
    S: FnOnce(&PieceTable) -> std::io::Result<()>,
    E: FnOnce(&str, DocumentEncoding) -> Result<Vec<u8>, String>,
>(
    before: Document,
    path: Seq<u8>,
    options: DocumentSaveOptions,
    policy: Option<CompactionPolicy>,
    schedule: S,
    encode: E,
    after: Document,
    result: Result<PreparedSave, DocumentError>,
)
    requires
        before@.wf(),
        persistence::save_prepared_with_options(
            before,
            path,
            options,
            policy,
            schedule,
            encode,
            after,
            result,
        ),
        result is Ok,
    ensures
        ({
            let save = result->Ok_0;
            &&& options.policy == SaveEncodingPolicy::Preserve ==> save.encoding
                == before.encoding
            &&& options.policy matches SaveEncodingPolicy::Convert(wanted) ==> save.encoding
                == wanted
            &&& save.path@ == path
            &&& save.total_bytes == save.snapshot@.content().len()
            &&& save.reload_after_save <==> before.rope is None && before.piece_table is None
            &&& save.snapshot@.wf()
        }),
{
    laws::law_preparing_keeps_the_document(
        before,
        path,
        options,
        policy,
        schedule,
        encode,
        after,
        result,
    );
    laws::law_snapshot_is_the_document(after@);
}

/// What a prepared save writes: the bytes of the document, where it is UTF-8 and stays
/// so, and else what the codec made of the text of the document in the encoding of the
/// save.
pub proof fn law_prepared_bytes<
    S: FnOnce(&PieceTable) -> std::io::Result<()>,
    E: FnOnce(&str, DocumentEncoding) -> Result<Vec<u8>, String>,
>(
    before: Document,
    path: Seq<u8>,
    options: DocumentSaveOptions,
    policy: Option<CompactionPolicy>,
    schedule: S,
    encode: E,
    after: Document,
    result: Result<PreparedSave, DocumentError>,
)
    requires
        before@.wf(),
        persistence::save_prepared_with_options(
            before,
            path,
            options,
            policy,
            schedule,
            encode,
            after,
            result,
        ),
        result is Ok,
    ensures
        ({
            let save = result->Ok_0;
            if before.encoding == DocumentEncoding::Utf8 && save.encoding
                == DocumentEncoding::Utf8 {
                save.snapshot@.content() == before@.content()
            } else {
                exists|text: &str, bytes: Vec<u8>|
                    {
                        &&& text@ == before@.text()
                        &&& #[trigger] call_ensures(
                            encode,
                            (text, save.encoding),
                            Ok::<Vec<u8>, String>(bytes),
                        )
                        &&& save.snapshot@.content() == bytes@
                    }
            }
        }),
{
    laws::law_preparing_keeps_the_document(
        before,
        path,
        options,
        policy,
        schedule,
        encode,
        after,
        result,
    );
    laws::law_snapshot_is_the_document(after@);
    law_prepared_save(before, path, options, policy, schedule, encode, after, result);
    let save = result->Ok_0;
    assert(after@.encoding == before@.encoding);
    assert(persistence::snapshot_taken(after@, path, save.encoding, encode, result));
    if !(before.encoding == DocumentEncoding::Utf8 && save.encoding == DocumentEncoding::Utf8) {
        let taken = choose|bytes: Result<Vec<u8>, DocumentError>|
            {
                &&& #[trigger] persistence::text_encoded(
                    after@,
                    path,
                    save.encoding,
                    encode,
                    bytes,
                )
                &&& match bytes {
                    Ok(bytes) => result matches Ok(save) && persistence::is_save_of(
                        save,
                        after@,
                        path,
                        save.encoding,
                        stream::SnapshotView::Bytes(bytes@),
                    ),
                    Err(error) => result == Err::<PreparedSave, DocumentError>(error),
                }
            };
        let (text, encoded): (&str, Result<Vec<u8>, String>) =
            choose|text: &str, encoded: Result<Vec<u8>, String>|
            {
                &&& text@ == after@.text()
                &&& #[trigger] call_ensures(encode, (text, save.encoding), encoded)
                &&& persistence::encoding_answer(path, save.encoding, encoded, taken)
            };
        assert(encoded == Ok::<Vec<u8>, String>(taken->Ok_0));
    }
}

/// A save that is to preserve an encoding in which text cannot be saved back is
/// refused, with the encoding of the document, and nothing has happened. No other save
/// is refused before the document is looked at.
pub proof fn law_refused_save<
    S: FnOnce(&PieceTable) -> std::io::Result<()>,
    E: FnOnce(&str, DocumentEncoding) -> Result<Vec<u8>, String>,
>(
    before: Document,
    path: Seq<u8>,
    options: DocumentSaveOptions,
    policy: Option<CompactionPolicy>,
    schedule: S,
    encode: E,
    after: Document,
    result: Result<PreparedSave, DocumentError>,
)
    requires
        before@.wf(),
        persistence::save_prepared_with_options(
            before,
            path,
            options,
            policy,
            schedule,
            encode,
            after,
            result,
        ),
    ensures
        ({
            let refused = options.policy == SaveEncodingPolicy::Preserve && before.encoding is Other
            && !before.encoding->roundtrip;
            &&& refused ==> {
                &&& after == before
                &&& result matches Err(error)
                &&& error matches DocumentError::Encoding {
                    path: at,
                    operation,
                    encoding,
                    message,
                }
                &&& at@ == path
                &&& operation@ == "save"@
                &&& encoding == before.encoding
                &&& message@
                    == "preserve-save is not yet supported for this encoding; use DocumentSaveOptions::with_encoding(...) to convert to a supported target"@
            }
            &&& persistence::target_encoding(before@, options) is None <==> refused
        }),
{
}

/// Where a UTF-8 document is to stay UTF-8 and no compaction is forced, preparing a
/// save succeeds and leaves the document alone.
pub proof fn law_utf8_saves_are_prepared<
    S: FnOnce(&PieceTable) -> std::io::Result<()>,
    E: FnOnce(&str, DocumentEncoding) -> Result<Vec<u8>, String>,
>(
    before: Document,
    path: Seq<u8>,
    options: DocumentSaveOptions,
    policy: Option<CompactionPolicy>,
    schedule: S,
    encode: E,
    after: Document,
    result: Result<PreparedSave, DocumentError>,
)
    requires
        before@.wf(),
        persistence::save_prepared_with_options(
            before,
            path,
            options,
            policy,
            schedule,
            encode,
            after,
            result,
        ),
        before.encoding == DocumentEncoding::Utf8,
        options.policy == SaveEncodingPolicy::Preserve || options.policy
            == SaveEncodingPolicy::Convert(DocumentEncoding::Utf8),
        policy matches Some(policy) ==> {
            ||| compaction::recommended_for(before@, policy) is None
            ||| compaction::recommended_for(before@, policy)->0.urgency
                == CompactionUrgency::Deferred
        },
    ensures
        result is Ok,
        after == before,
{
}

/// A save compacts the document first where the policy forces it, and only there. A
/// forced compaction leaves at most one piece, indexed in full, and the bytes of the
/// document as they were; where the session store does not take note of it, the save
/// is not prepared.
pub proof fn law_compaction_before_a_save<
    S: FnOnce(&PieceTable) -> std::io::Result<()>,
    E: FnOnce(&str, DocumentEncoding) -> Result<Vec<u8>, String>,
>(
    before: Document,
    path: Seq<u8>,
    options: DocumentSaveOptions,
    policy: Option<CompactionPolicy>,
    schedule: S,
    encode: E,
    after: Document,
    result: Result<PreparedSave, DocumentError>,
)
    requires
        before@.wf(),
        persistence::save_prepared_with_options(
            before,
            path,
            options,
            policy,
            schedule,
            encode,
            after,
            result,
        ),
        !(options.policy == SaveEncodingPolicy::Preserve && before.encoding is Other
            && !before.encoding->roundtrip),
    ensures
        ({
            let forced = policy is Some && compaction::recommended_for(
                before@,
                policy->0,
            ) is Some && compaction::recommended_for(before@, policy->0)->0.urgency
                == CompactionUrgency::Forced;
            &&& !forced ==> after == before
            &&& forced ==> {
                let was = before.piece_table->0@.roots[before.piece_table->0@.current];
                let is = after.piece_table->0@.roots[after.piece_table->0@.current];
                &&& is.pieces.len() <= 1
                &&& is.full_index
                &&& after@.content() == before@.content()
                &&& after@ == (DocumentView { piece_table: after@.piece_table, ..before@ })
                &&& !(was.pieces.len() <= 1 && was.full_index) ==> {
                    ||| call_ensures(
                        schedule,
                        (&after.piece_table->0,),
                        Ok::<(), std::io::Error>(()),
                    )
                    ||| {
                        &&& result matches Err(error)
                        &&& error matches DocumentError::Write { path: at, source }
                        &&& at@ == match before.path {
                            Some(own) => own@,
                            None => before.piece_table->0.original.path@,
                        } + encode_utf8(".qem.editlog"@)
                        &&& call_ensures(
                            schedule,
                            (&after.piece_table->0,),
                            Err::<(), std::io::Error>(source),
                        )
                    }
                }
            }
        }),
{
    if policy is Some && persistence::compaction_forced(before@, policy->0) {
        let answered = choose|answered: Result<bool, DocumentError>|
            {
                &&& #[trigger] persistence::compacted_before_save(
                    before,
                    policy->0,
                    schedule,
                    after,
                    answered,
                )
                &&& answered matches Err(error) ==> result == Err::<PreparedSave, DocumentError>(
                    error,
                )
            };
        let ran = choose|ran: std::io::Result<bool>| #[trigger]
            compaction::compaction_ran(before, schedule, after, ran) && persistence::step_answer(
                before@.sidecar(),
                ran,
                answered,
            );
        laws::compacting::law_compaction_leaves_one_piece(before, schedule, after, ran);
        laws::undoing::law_sidecar_of_a_document(before);
        if ran != Ok::<bool, std::io::Error>(false) {
            laws::compacting::law_compaction_rewrites_one_entry(
                before,
                schedule,
                after,
                ran,
                before.piece_table->0@.current,
            );
        }
        assert(after@ =~= (DocumentView { piece_table: after@.piece_table, ..before@ }));
    }
}

/// Why preparing a save fails: it was refused, or the session store did not take note
/// of a forced compaction, or the codec could not take the text to the encoding.
pub proof fn law_failed_preparation<
    S: FnOnce(&PieceTable) -> std::io::Result<()>,
    E: FnOnce(&str, DocumentEncoding) -> Result<Vec<u8>, String>,
>(
    before: Document,
    path: Seq<u8>,
    options: DocumentSaveOptions,
    policy: Option<CompactionPolicy>,
    schedule: S,
    encode: E,
    after: Document,
    result: Result<PreparedSave, DocumentError>,
    target: DocumentEncoding,
)
    requires
        before@.wf(),
        persistence::save_prepared_with_options(
            before,
            path,
            options,
            policy,
            schedule,
            encode,
            after,
            result,
        ),
        result is Err,
        match options.policy {
            SaveEncodingPolicy::Preserve => target == before.encoding,
            SaveEncodingPolicy::Convert(wanted) => target == wanted,
        },
        !(options.policy == SaveEncodingPolicy::Preserve && before.encoding is Other
            && !before.encoding->roundtrip),
    ensures
        ({
            match result->Err_0 {
                DocumentError::Write { path: at, source } => {
                    &&& at@ == match before.path {
                        Some(own) => own@,
                        None => before.piece_table->0.original.path@,
                    } + encode_utf8(".qem.editlog"@)
                    &&& call_ensures(
                        schedule,
                        (&after.piece_table->0,),
                        Err::<(), std::io::Error>(source),
                    )
                },
                DocumentError::Encoding { path: at, operation, encoding, message } => {
                    &&& at@ == path
                    &&& operation@ == "save"@
                    &&& encoding == target
                    &&& before.encoding != DocumentEncoding::Utf8 || target
                        != DocumentEncoding::Utf8
                    &&& exists|text: &str, why: String|
                        {
                            &&& text@ == before@.text()
                            &&& why@ == message@
                            &&& #[trigger] call_ensures(
                                encode,
                                (text, target),
                                Err::<Vec<u8>, String>(why),
                            )
                        }
                },
                _ => false,
            }
        }),
{
    laws::law_preparing_keeps_the_document(
        before,
        path,
        options,
        policy,
        schedule,
        encode,
        after,
        result,
    );
    let error = result->Err_0;
    if persistence::snapshot_taken(after@, path, target, encode, result) {
        let taken = choose|bytes: Result<Vec<u8>, DocumentError>|
            {
                &&& #[trigger] persistence::text_encoded(after@, path, target, encode, bytes)
                &&& match bytes {
                    Ok(bytes) => result matches Ok(save) && persistence::is_save_of(
                        save,
                        after@,
                        path,
                        target,
                        stream::SnapshotView::Bytes(bytes@),
                    ),
                    Err(error) => result == Err::<PreparedSave, DocumentError>(error),
                }
            };
        let (text, encoded): (&str, Result<Vec<u8>, String>) =
            choose|text: &str, encoded: Result<Vec<u8>, String>|
            {
                &&& text@ == after@.text()
                &&& #[trigger] call_ensures(encode, (text, target), encoded)
                &&& persistence::encoding_answer(path, target, encoded, taken)
            };
        assert(encoded == Err::<Vec<u8>, String>(encoded->Err_0));
    } else {
        let answered = choose|answered: Result<bool, DocumentError>|
            {
                &&& #[trigger] persistence::compacted_before_save(
                    before,
                    policy->0,
                    schedule,
                    after,
                    answered,
                )
                &&& answered is Err && result == Err::<PreparedSave, DocumentError>(
                    answered->Err_0,
                )
            };
        let ran = choose|ran: std::io::Result<bool>| #[trigger]
            compaction::compaction_ran(before, schedule, after, ran) && persistence::step_answer(
                before@.sidecar(),
                ran,
                answered,
            );
        laws::compacting::law_compaction_leaves_one_piece(before, schedule, after, ran);
        laws::undoing::law_sidecar_of_a_document(before);
    }
}

/// What writing a prepared save comes to. Where it succeeds, the host put writes that
/// are the bytes of the save at its path, and was told the number of bytes. Where it
/// fails, it is with a write error that names the path and has the host's own reason.
pub proof fn law_written_save<
    R: FnOnce(&DocPath, &Vec<WriteStep>) -> std::io::Result<()>,
    P: FnOnce(u64),
>(
    save: PreparedSave,
    replace: R,
    report: P,
    result: Result<SaveCompletion, DocumentError>,
)
    requires
        persistence::executed(save, replace, report, result),
    ensures
        match result {
            Ok(done) => {
                &&& done.path@ == save.path@
                &&& done.reload_after_save == save.reload_after_save
                &&& done.encoding == save.encoding
                &&& call_ensures(report, (save.total_bytes,), ())
                &&& exists|steps: Vec<WriteStep>|
                    {
                        &&& stream::streamed(steps@) == save.snapshot@.content()
                        &&& #[trigger] call_ensures(
                            replace,
                            (&save.path, &steps),
                            Ok::<(), std::io::Error>(()),
                        )
                    }
            },
            Err(error) => {
                &&& error matches DocumentError::Write { path: at, source }
                &&& at@ == save.path@
                &&& exists|steps: Vec<WriteStep>|
                    {
                        &&& stream::streamed(steps@) == save.snapshot@.content()
                        &&& #[trigger] call_ensures(
                            replace,
                            (&save.path, &steps),
                            Err::<(), std::io::Error>(source),
                        )
                    }
            },
        },
{
    let (steps, replaced): (Vec<WriteStep>, std::io::Result<()>) =
        choose|steps: Vec<WriteStep>, replaced: std::io::Result<()>|
        {
            &&& stream::streams(steps@, save.snapshot@.writes(), save.total_bytes)
            &&& #[trigger] call_ensures(replace, (&save.path, &steps), replaced)
            &&& replaced is Ok ==> call_ensures(report, (save.total_bytes,), ())
            &&& persistence::completed(save, replaced, result)
        };
    laws::law_steps_write_the_content(steps@, save.snapshot@, save.total_bytes);
    if replaced is Ok {
        assert(replaced->Ok_0 == ());
        assert(call_ensures(replace, (&save.path, &steps), Ok::<(), std::io::Error>(())));
    } else {
        assert(call_ensures(
            replace,
            (&save.path, &steps),
            Err::<(), std::io::Error>(replaced->Err_0),
        ));
    }
}

/// The end of a save, whatever it comes to, has the sidecar of the path deleted and
/// that of the path that the document had, whether or not the two are the same.
pub proof fn law_end_of_a_save_clears_sidecars<
    C: Fn(&DocPath),
    O: FnOnce(&DocPath) -> Result<FileStorage, StorageOpenError>,
    D: FnOnce(DocPath, DocumentEncoding) -> Result<Document, DocumentError>,
>(
    before: Document,
    path: Seq<u8>,
    reload_after_save: bool,
    encoding: DocumentEncoding,
    remove: C,
    open: O,
    decode: D,
    after: Document,
    result: Result<(), DocumentError>,
)
    requires
        persistence::save_finished(
            before,
            path,
            reload_after_save,
            encoding,
            remove,
            open,
            decode,
            after,
            result,
        ),
    ensures
        exists|sidecar: DocPath|
            sidecar@ == path + encode_utf8(".qem.editlog"@) && #[trigger] call_ensures(
                remove,
                (&sidecar,),
                (),
            ),
        before.path matches Some(old) ==> exists|sidecar: DocPath|
            sidecar@ == old@ + encode_utf8(".qem.editlog"@) && #[trigger] call_ensures(
                remove,
                (&sidecar,),
                (),
            ),
{
    assert(persistence::sidecar_cleared(remove, path));
    if before.path is Some {
        assert(persistence::sidecar_cleared(remove, before.path->0@));
    }
}

/// A save that does not read the document back succeeds once the file is in place: the
/// document has the path and the encoding of the save, is clean, was decoded without
/// errors and is no longer being indexed, and is otherwise what it was.
pub proof fn law_end_of_a_save_in_place<
    C: Fn(&DocPath),
    O: FnOnce(&DocPath) -> Result<FileStorage, StorageOpenError>,
    D: FnOnce(DocPath, DocumentEncoding) -> Result<Document, DocumentError>,
>(
    before: Document,
    path: Seq<u8>,
    reload_after_save: bool,
    encoding: DocumentEncoding,
    remove: C,
    open: O,
    decode: D,
    after: Document,
    result: Result<(), DocumentError>,
)
    requires
        persistence::save_finished(
            before,
            path,
            reload_after_save,
            encoding,
            remove,
            open,
            decode,
            after,
            result,
        ),
        !reload_after_save,
    ensures
        result == Ok::<(), DocumentError>(()),
        after@.path == Some(path),
        after.encoding == encoding,
        !after.dirty,
        !after.decoding_had_errors,
        !after.indexing,
        after.line_ending == before.line_ending,
        after@.piece_table == before@.piece_table,
        after@.rope == before@.rope,
        after@.storage == before@.storage,
{
}

/// A UTF-8 save that reads the document back comes to what the host opens at the path:
/// that file, clean and with no edit buffer, or, where it cannot be opened or brought
/// into memory, that error and the document as it was, no longer being indexed.
pub proof fn law_end_of_a_save_with_reload<
    C: Fn(&DocPath),
    O: FnOnce(&DocPath) -> Result<FileStorage, StorageOpenError>,
    D: FnOnce(DocPath, DocumentEncoding) -> Result<Document, DocumentError>,
>(
    before: Document,
    path: Seq<u8>,
    reload_after_save: bool,
    encoding: DocumentEncoding,
    remove: C,
    open: O,
    decode: D,
    after: Document,
    result: Result<(), DocumentError>,
)
    requires
        persistence::save_finished(
            before,
            path,
            reload_after_save,
            encoding,
            remove,
            open,
            decode,
            after,
            result,
        ),
        reload_after_save,
        encoding == DocumentEncoding::Utf8,
    ensures
        exists|at: DocPath, opened: Result<FileStorage, StorageOpenError>|
            {
                &&& at@ == path
                &&& #[trigger] call_ensures(open, (&at,), opened)
                &&& match opened {
                    Ok(storage) => {
                        &&& result == Ok::<(), DocumentError>(())
                        &&& after@.path == Some(path)
                        &&& after@.storage == Some(storage@)
                        &&& after@.content() == storage@.bytes
                        &&& after.rope is None
                        &&& after.piece_table is None
                        &&& after.encoding == DocumentEncoding::Utf8
                        &&& !after.dirty
                        &&& !after.decoding_had_errors
                        &&& !after.indexing
                    },
                    Err(StorageOpenError::Open(why)) => {
                        &&& after@ == (DocumentView { indexing: false, ..before@ })
                        &&& result matches Err(error)
                        &&& error matches DocumentError::Open { path: named, source }
                        &&& named@ == path
                        &&& source == why
                    },
                    Err(StorageOpenError::MapFile(why)) => {
                        &&& after@ == (DocumentView { indexing: false, ..before@ })
                        &&& result matches Err(error)
                        &&& error matches DocumentError::MapFile { path: named, source }
                        &&& named@ == path
                        &&& source == why
                    },
                }
            },
{
    let (at, opened): (DocPath, Result<FileStorage, StorageOpenError>) =
        choose|at: DocPath, opened: Result<FileStorage, StorageOpenError>|
        {
            &&& at@ == path
            &&& #[trigger] call_ensures(open, (&at,), opened)
            &&& persistence::reloaded(before@, path, opened, after@, result)
        };
    assert(call_ensures(open, (&at,), opened));
}

/// A save in another encoding that reads the document back comes to what the codec
/// reads at the path in that encoding, or to its error, with the document as it was,
/// no longer being indexed.
pub proof fn law_end_of_a_save_with_decoding<
    C: Fn(&DocPath),
    O: FnOnce(&DocPath) -> Result<FileStorage, StorageOpenError>,
    D: FnOnce(DocPath, DocumentEncoding) -> Result<Document, DocumentError>,
>(
    before: Document,
    path: Seq<u8>,
    reload_after_save: bool,
    encoding: DocumentEncoding,
    remove: C,
    open: O,
    decode: D,
    after: Document,
    result: Result<(), DocumentError>,
)
    requires
        persistence::save_finished(
            before,
            path,
            reload_after_save,
            encoding,
            remove,
            open,
            decode,
            after,
            result,
        ),
        reload_after_save,
        encoding != DocumentEncoding::Utf8,
    ensures
        exists|at: DocPath, decoded: Result<Document, DocumentError>|
            {
                &&& at@ == path
                &&& #[trigger] call_ensures(decode, (at, encoding), decoded)
                &&& match decoded {
                    Ok(doc) => after == doc && result == Ok::<(), DocumentError>(()),
                    Err(error) => {
                        &&& after@ == (DocumentView { indexing: false, ..before@ })
                        &&& result == Err::<(), DocumentError>(error)
                    },
                }
            },
{
    let (at, decoded): (DocPath, Result<Document, DocumentError>) =
        choose|at: DocPath, decoded: Result<Document, DocumentError>|
        {
            &&& at@ == path
            &&& #[trigger] call_ensures(decode, (at, encoding), decoded)
            &&& persistence::redecoded(before@, decoded, after, result)
        };
    assert(call_ensures(decode, (at, encoding), decoded));
}

/// What a save that succeeds has done about the encoding. It was not to preserve one
/// that cannot be saved back. The codec, where it was needed, was handed the text and
/// the encoding of the document, where that is preserved, and the given one, where it
/// is converted: `target`. The same encoding is that of a document saved from its edit
/// buffer, and that in which a document is read back.
pub proof fn law_save_keeps_or_converts_the_encoding<
    S: FnOnce(&PieceTable) -> std::io::Result<()>,
    E: FnOnce(&str, DocumentEncoding) -> Result<Vec<u8>, String>,
    R: FnOnce(&DocPath, &Vec<WriteStep>) -> std::io::Result<()>,
    P: FnOnce(u64),
    C: Fn(&DocPath),
    O: FnOnce(&DocPath) -> Result<FileStorage, StorageOpenError>,
    D: FnOnce(DocPath, DocumentEncoding) -> Result<Document, DocumentError>,
>(
    before: Document,
    path: Seq<u8>,
    options: DocumentSaveOptions,
    host: SaveHost<S, E, R, P, C, O, D>,
    after: Document,
    target: DocumentEncoding,
)
    requires
        before@.wf(),
        persistence::saved(before, path, options, host, after, Ok(())),
        match options.policy {
            SaveEncodingPolicy::Preserve => target == before.encoding,
            SaveEncodingPolicy::Convert(wanted) => target == wanted,
        },
    ensures
        ({
            &&& !(options.policy == SaveEncodingPolicy::Preserve && before.encoding is Other
            && !before.encoding->roundtrip)
            &&& before.rope is Some || before.piece_table is Some ==> after.encoding == target
            &&& before.encoding != DocumentEncoding::Utf8 || target != DocumentEncoding::Utf8
                ==> exists|text: &str, bytes: Vec<u8>|
                text@ == before@.text() && #[trigger] call_ensures(
                    host.encode,
                    (text, target),
                    Ok::<Vec<u8>, String>(bytes),
                )
            &&& before.rope is None && before.piece_table is None && target
                == DocumentEncoding::Utf8 ==> after.encoding == target
            &&& before.rope is None && before.piece_table is None && target
                != DocumentEncoding::Utf8 ==> exists|at: DocPath|
                at@ == path && #[trigger] call_ensures(
                    host.decode,
                    (at, target),
                    Ok::<Document, DocumentError>(after),
                )
        }),
{
    let policy = Some(compaction::default_policy());
    let result: Result<(), DocumentError> = Ok(());
    let (ready, prepared) = laws::lemma_prepared(before, path, options, host, after, result);
    let save = prepared->Ok_0;
    law_refused_save(
        before,
        path,
        options,
        policy,
        host.schedule,
        host.encode,
        ready,
        prepared,
    );
    law_prepared_save(
        before,
        path,
        options,
        policy,
        host.schedule,
        host.encode,
        ready,
        prepared,
    );
    law_prepared_bytes(
        before,
        path,
        options,
        policy,
        host.schedule,
        host.encode,
        ready,
        prepared,
    );
    let (steps, done) = laws::lemma_carried_out(ready, save, host, after);
    if before.rope is None && before.piece_table is None {
        if save.encoding == DocumentEncoding::Utf8 {
            law_end_of_a_save_with_reload(
                ready,
                done.path@,
                done.reload_after_save,
                done.encoding,
                host.remove,
                host.open,
                host.decode,
                after,
                result,
            );
        } else {
            law_end_of_a_save_with_decoding(
                ready,
                done.path@,
                done.reload_after_save,
                done.encoding,
                host.remove,
                host.open,
                host.decode,
                after,
                result,
            );
            let (at, decoded): (DocPath, Result<Document, DocumentError>) =
                choose|at: DocPath, decoded: Result<Document, DocumentError>|
                {
                    &&& at@ == path
                    &&& #[trigger] call_ensures(host.decode, (at, save.encoding), decoded)
                    &&& decoded == Ok::<Document, DocumentError>(after)
                };
            assert(call_ensures(
                host.decode,
                (at, save.encoding),
                Ok::<Document, DocumentError>(after),
            ));
        }
    }
}

/// A save that succeeds has had the sidecar of the path deleted, and that of the path
/// that the document had, whether it was saved to that path or to another.
pub proof fn law_save_clears_sidecars<
    S: FnOnce(&PieceTable) -> std::io::Result<()>,
    E: FnOnce(&str, DocumentEncoding) -> Result<Vec<u8>, String>,
    R: FnOnce(&DocPath, &Vec<WriteStep>) -> std::io::Result<()>,
    P: FnOnce(u64),
    C: Fn(&DocPath),
    O: FnOnce(&DocPath) -> Result<FileStorage, StorageOpenError>,
    D: FnOnce(DocPath, DocumentEncoding) -> Result<Document, DocumentError>,
>(
    before: Document,
    path: Seq<u8>,
    options: DocumentSaveOptions,
    host: SaveHost<S, E, R, P, C, O, D>,
    after: Document,
)
    requires
        before@.wf(),
        persistence::saved(before, path, options, host, after, Ok(())),
    ensures
        exists|sidecar: DocPath|
            sidecar@ == path + encode_utf8(".qem.editlog"@) && #[trigger] call_ensures(
                host.remove,
                (&sidecar,),
                (),
            ),
        before.path matches Some(old) ==> exists|sidecar: DocPath|
            sidecar@ == old@ + encode_utf8(".qem.editlog"@) && #[trigger] call_ensures(
                host.remove,
                (&sidecar,),
                (),
            ),
{
    let result: Result<(), DocumentError> = Ok(());
    let (ready, prepared) = laws::lemma_prepared(before, path, options, host, after, result);
    let save = prepared->Ok_0;
    law_prepared_save(
        before,
        path,
        options,
        Some(compaction::default_policy()),
        host.schedule,
        host.encode,
        ready,
        prepared,
    );
    let (steps, done) = laws::lemma_carried_out(ready, save, host, after);
    assert(ready@.path == before@.path);
    law_end_of_a_save_clears_sidecars(
        ready,
        done.path@,
        done.reload_after_save,
        done.encoding,
        host.remove,
        host.open,
        host.decode,
        after,
        result,
    );
}

/// A save that succeeds has put writes at the path and told the host the number of
/// their bytes. A document in an edit buffer is clean, at the path, decoded without
/// errors and not being indexed, with its text, bytes and line ending as they were.
pub proof fn law_successful_save<
    S: FnOnce(&PieceTable) -> std::io::Result<()>,
    E: FnOnce(&str, DocumentEncoding) -> Result<Vec<u8>, String>,
    R: FnOnce(&DocPath, &Vec<WriteStep>) -> std::io::Result<()>,
    P: FnOnce(u64),
    C: Fn(&DocPath),
    O: FnOnce(&DocPath) -> Result<FileStorage, StorageOpenError>,
    D: FnOnce(DocPath, DocumentEncoding) -> Result<Document, DocumentError>,
>(
    before: Document,
    path: Seq<u8>,
    options: DocumentSaveOptions,
    host: SaveHost<S, E, R, P, C, O, D>,
    after: Document,
)
    requires
        before@.wf(),
        persistence::saved(before, path, options, host, after, Ok(())),
    ensures
        exists|at: DocPath, steps: Vec<WriteStep>, total: u64|
            {
                &&& at@ == path
                &&& total == stream::streamed(steps@).len()
                &&& #[trigger] call_ensures(
                    host.replace,
                    (&at, &steps),
                    Ok::<(), std::io::Error>(()),
                )
                &&& #[trigger] call_ensures(host.report, (total,), ())
            },
        before.rope is Some || before.piece_table is Some ==> {
            &&& after@.path == Some(path)
            &&& !after.dirty
            &&& !after.decoding_had_errors
            &&& !after.indexing
            &&& after.line_ending == before.line_ending
            &&& after@.rope == before@.rope
            &&& after@.storage == before@.storage
            &&& after@.content() == before@.content()
            &&& after@.text() == before@.text()
        },
        before.rope is None && before.piece_table is None ==> {
            ||| exists|at: DocPath, storage: FileStorage|
                {
                    &&& at@ == path
                    &&& #[trigger] call_ensures(
                        host.open,
                        (&at,),
                        Ok::<FileStorage, StorageOpenError>(storage),
                    )
                    &&& after@.path == Some(path)
                    &&& after@.content() == storage@.bytes
                    &&& !after.dirty
                }
            ||| exists|at: DocPath, encoding: DocumentEncoding|
                {
                    &&& at@ == path
                    &&& encoding != DocumentEncoding::Utf8
                    &&& #[trigger] call_ensures(
                        host.decode,
                        (at, encoding),
                        Ok::<Document, DocumentError>(after),
                    )
                }
        },
{
    let result: Result<(), DocumentError> = Ok(());
    let (ready, prepared) = laws::lemma_prepared(before, path, options, host, after, result);
    let save = prepared->Ok_0;
    law_prepared_save(
        before,
        path,
        options,
        Some(compaction::default_policy()),
        host.schedule,
        host.encode,
        ready,
        prepared,
    );
    let completion = choose|completion: Result<SaveCompletion, DocumentError>|
        {
            &&& #[trigger] persistence::executed(save, host.replace, host.report, completion)
            &&& match completion {
                Ok(completion) => persistence::save_finished(
                    ready,
                    completion.path@,
                    completion.reload_after_save,
                    completion.encoding,
                    host.remove,
                    host.open,
                    host.decode,
                    after,
                    result,
                ),
                Err(error) => after == ready && result == Err::<(), DocumentError>(error),
            }
        };
    law_written_save(save, host.replace, host.report, completion);
    let done = completion->Ok_0;
    if save.reload_after_save {
        if save.encoding == DocumentEncoding::Utf8 {
            law_end_of_a_save_with_reload(
                ready,
                done.path@,
                done.reload_after_save,
                done.encoding,
                host.remove,
                host.open,
                host.decode,
                after,
                result,
            );
            let (at, opened): (DocPath, Result<FileStorage, StorageOpenError>) =
                choose|at: DocPath, opened: Result<FileStorage, StorageOpenError>|
                {
                    &&& at@ == path
                    &&& #[trigger] call_ensures(host.open, (&at,), opened)
                    &&& opened is Ok
                    &&& after@.path == Some(path)
                    &&& after@.content() == opened->Ok_0@.bytes
                    &&& !after.dirty
                };
            assert(call_ensures(
                host.open,
                (&at,),
                Ok::<FileStorage, StorageOpenError>(opened->Ok_0),
            ));
        } else {
            law_save_keeps_or_converts_the_encoding(
                before,
                path,
                options,
                host,
                after,
                save.encoding,
            );
        }
    } else {
        law_end_of_a_save_in_place(
            ready,
            done.path@,
            done.reload_after_save,
            done.encoding,
            host.remove,
            host.open,
            host.decode,
            after,
            result,
        );
        assert(after@.text() == ready@.text());
        assert(after@.content() == ready@.content());
    }
}

/// The end of a save calls no more than this: `remove`, with the sidecars of the two
/// paths, and where the document is read back `open` or `decode`, as the encoding
/// says, at the path.
pub proof fn law_end_of_a_save_calls<
    C: Fn(&DocPath),
    O: FnOnce(&DocPath) -> Result<FileStorage, StorageOpenError>,
    D: FnOnce(DocPath, DocumentEncoding) -> Result<Document, DocumentError>,
>(
    old_path: Option<Seq<u8>>,
    path: Seq<u8>,
    reload_after_save: bool,
    encoding: DocumentEncoding,
    remove: C,
    open: O,
    decode: D,
)
    requires
        forall|sidecar: &DocPath|
            sidecar@ == path + encode_utf8(".qem.editlog"@) || (old_path is Some && sidecar@
                == old_path->0 + encode_utf8(".qem.editlog"@)) ==> #[trigger] call_requires(
                remove,
                (sidecar,),
            ),
        forall|at: &DocPath|
            reload_after_save && encoding == DocumentEncoding::Utf8 && at@ == path
                ==> #[trigger] call_requires(open, (at,)),
        forall|at: DocPath|
            reload_after_save && encoding != DocumentEncoding::Utf8 && at@ == path
                ==> #[trigger] call_requires(decode, (at, encoding)),
    ensures
        persistence::finish_callable(
            old_path,
            path,
            reload_after_save,
            encoding,
            remove,
            open,
            decode,
        ),
{
}

/// The end of a save reads nothing back before both sidecars are deleted, nor deletes
/// that of the new path before that of the old one: where `remove` never comes back,
/// nothing but the first deletion need be possible.
pub proof fn law_sidecars_go_first<
    C: Fn(&DocPath),
    O: FnOnce(&DocPath) -> Result<FileStorage, StorageOpenError>,
    D: FnOnce(DocPath, DocumentEncoding) -> Result<Document, DocumentError>,
>(
    old_path: Option<Seq<u8>>,
    path: Seq<u8>,
    reload_after_save: bool,
    encoding: DocumentEncoding,
    remove: C,
    open: O,
    decode: D,
)
    requires
        forall|sidecar: &DocPath|
            sidecar@ == (match old_path {
                Some(old) => old,
                None => path,
            }) + encode_utf8(".qem.editlog"@) ==> #[trigger] call_requires(remove, (sidecar,)),
        forall|sidecar: &DocPath| !#[trigger] call_ensures(remove, (sidecar,), ()),
    ensures
        persistence::finish_callable(
            old_path,
            path,
            reload_after_save,
            encoding,
            remove,
            open,
            decode,
        ),
{
}

/// Writing a prepared save calls no more than this: `replace`, with the path and steps
/// that write the bytes of the save, and, once that succeeded, `report`, with their
/// number.
pub proof fn law_writing_a_save_calls<
    R: FnOnce(&DocPath, &Vec<WriteStep>) -> std::io::Result<()>,
    P: FnOnce(u64),
>(save: PreparedSave, replace: R, report: P)
    requires
        forall|at: &DocPath, steps: &Vec<WriteStep>|
            at@ == save.path@ && stream::streamed(steps@) == save.snapshot@.content()
                ==> #[trigger] call_requires(replace, (at, steps)),
        (exists|steps: Vec<WriteStep>| #[trigger]
            call_ensures(replace, (&save.path, &steps), Ok::<(), std::io::Error>(())))
            ==> call_requires(report, (save.total_bytes,)),
    ensures
        persistence::execute_callable(save, replace, report),
{
    assert forall|at: &DocPath, steps: &Vec<WriteStep>|
        at@ == save.path@ && stream::streams(
            steps@,
            save.snapshot@.writes(),
            save.total_bytes,
        ) implies #[trigger] call_requires(replace, (at, steps)) by {
        laws::law_steps_write_the_content(steps@, save.snapshot@, save.total_bytes);
    }
}

/// Preparing a save calls no more than this: the session store, where the policy
/// forces a compaction that has something to do, and the codec, with the text of the
/// document and the encoding of the save, where the document does not stay UTF-8.
pub proof fn law_preparing_a_save_calls<
    S: FnOnce(&PieceTable) -> std::io::Result<()>,
    E: FnOnce(&str, DocumentEncoding) -> Result<Vec<u8>, String>,
>(
    before: Document,
    options: DocumentSaveOptions,
    policy: Option<CompactionPolicy>,
    schedule: S,
    encode: E,
)
    requires
        before@.wf(),
        forall|dense: &PieceTable|
            {
                &&& policy is Some
                &&& compaction::recommended_for(before@, policy->0) is Some
                &&& compaction::recommended_for(before@, policy->0)->0.urgency
                    == CompactionUrgency::Forced
                &&& before.piece_table is Some
                &&& !(before.piece_table->0@.root().pieces.len() <= 1
                    && before.piece_table->0@.root().full_index)
                &&& dense@.root().pieces.len() <= 1
            } ==> #[trigger] call_requires(schedule, (dense,)),
        forall|text: &str, target: DocumentEncoding|
            {
                &&& text@ == before@.text()
                &&& before.encoding != DocumentEncoding::Utf8 || target != DocumentEncoding::Utf8
                &&& match options.policy {
                    SaveEncodingPolicy::Preserve => target == before.encoding,
                    SaveEncodingPolicy::Convert(wanted) => target == wanted,
                }
            } ==> #[trigger] call_requires(encode, (text, target)),
    ensures
        persistence::prepare_callable_with_options(before, options, policy, schedule, encode),
{
}

/// A save has the codec read the document anew unless an edit buffer holds the document
/// or the save is to UTF-8.
pub proof fn law_saves_that_decode(before: Document, options: DocumentSaveOptions)
    ensures
        persistence::decoded_anew(before@, options) <==> {
            &&& before.rope is None
            &&& before.piece_table is None
            &&& match options.policy {
                SaveEncodingPolicy::Preserve => before.encoding != DocumentEncoding::Utf8,
                SaveEncodingPolicy::Convert(wanted) => wanted != DocumentEncoding::Utf8,
            }
        },
{
}

} // verus!
