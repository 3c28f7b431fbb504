//! What undo and redo are for: a step through the history that changes where the
//! document stands, and nothing in the history.
use crate::document::{Document, DocumentView};
use crate::error::DocumentError;
use crate::persistence;
use crate::piece_table;
use crate::piece_table::{PieceTable, TableView};
use vstd::prelude::*;
use vstd::utf8::*;

verus! {

/// The document of a table is made of the pieces of the entry at which it stands.
pub proof fn law_document_of_a_table(table: TableView, j: int)
    ensures
        table.content() == piece_table::pieces_bytes(
            table.original.bytes,
            table.add,
            table.roots[table.current].pieces,
        ),
        table.at(j).content() == piece_table::pieces_bytes(
            table.original.bytes,
            table.add,
            table.roots[j].pieces,
        ),
        table.root() == table.roots[table.current],
{
}

/// The session of a document is kept beside its path, or, where it has none, beside
/// the file that its pieces are of, under that name with `.qem.editlog` behind it.
pub proof fn law_sidecar_of_a_document(doc: Document)
    requires
        doc.piece_table is Some,
    ensures
        doc.path matches Some(path) ==> doc@.sidecar() == path@ + encode_utf8(".qem.editlog"@),
        doc.path is None ==> doc@.sidecar() == doc.piece_table->0.original.path@ + encode_utf8(
            ".qem.editlog"@,
        ),
{
}

/// A step that the session store was told of changed the document as such a step does.
proof fn lemma_stepped<S: FnOnce(&PieceTable) -> std::io::Result<()>>(
    before: Document,
    by: int,
    schedule: S,
    after: Document,
    result: Result<bool, DocumentError>,
)
    requires
        before.piece_table is Some,
        persistence::history_moved(
            before,
            Some(before.piece_table->0@.current + by),
            schedule,
            after,
            result,
        ),
    ensures
        after.piece_table is Some,
        after.piece_table->0@.current == before.piece_table->0@.current + by,
        match result {
            Ok(moved) => moved && call_ensures(
                schedule,
                (&after.piece_table->0,),
                Ok::<(), std::io::Error>(()),
            ),
            Err(error) => {
                &&& error matches DocumentError::Write { path, source }
                &&& path@ == before@.sidecar()
                &&& call_ensures(
                    schedule,
                    (&after.piece_table->0,),
                    Err::<(), std::io::Error>(source),
                )
            },
        },
{
    let answer = choose|answer: std::io::Result<bool>| #[trigger]
        piece_table::scheduled(schedule, after.piece_table->0, answer) && persistence::step_answer(
            before@.sidecar(),
            answer,
            result,
        );
    let stored = choose|stored: std::io::Result<()>| #[trigger]
        call_ensures(schedule, (&after.piece_table->0,), stored) && answer
            == piece_table::changed(stored);
    if stored is Ok {
        assert(stored->Ok_0 == ());
    }
}

/// What an undo does. Without a piece table, or at the oldest entry, it answers
/// `false` and does nothing. Else the document stands at the entry before, is dirty,
/// whichever entry that is and whatever the session store answers, and is otherwise
/// what it was.
pub proof fn law_undo<S: FnOnce(&PieceTable) -> std::io::Result<()>>(
    before: Document,
    schedule: S,
    after: Document,
    result: Result<bool, DocumentError>,
)
    requires
        before@.wf(),
        persistence::history_moved(
            before,
            persistence::undo_target_of(before@),
            schedule,
            after,
            result,
        ),
    ensures
        result == Ok::<bool, DocumentError>(false) <==> before.piece_table is None
            || before.piece_table->0.pieces.current == 0,
        result == Ok::<bool, DocumentError>(false) ==> after == before,
        result != Ok::<bool, DocumentError>(false) ==> {
            let was = before.piece_table->0@;
            let is = after.piece_table->0@;
            &&& after.dirty
            &&& after.piece_table is Some
            &&& is.current == was.current - 1
            &&& is.roots == was.roots
            &&& is.add == was.add
            &&& is.original == was.original
            &&& after@ == (DocumentView { piece_table: Some(is), dirty: true, ..before@ })
        },
        after@.piece_table != before@.piece_table ==> after.dirty,
{
    if before.piece_table is Some && before.piece_table->0.pieces.current > 0 {
        lemma_stepped(before, -1, schedule, after, result);
    }
}

/// What a redo does. Without a piece table, or at the newest entry, it answers
/// `false` and does nothing. Else the document stands at the next entry, is dirty,
/// whichever entry that is and whatever the session store answers, and is otherwise
/// what it was.
pub proof fn law_redo<S: FnOnce(&PieceTable) -> std::io::Result<()>>(
    before: Document,
    schedule: S,
    after: Document,
    result: Result<bool, DocumentError>,
)
    requires
        before@.wf(),
        persistence::history_moved(
            before,
            persistence::redo_target_of(before@),
            schedule,
            after,
            result,
        ),
    ensures
        result == Ok::<bool, DocumentError>(false) <==> before.piece_table is None
            || before.piece_table->0.pieces.current + 1
            == before.piece_table->0.pieces.roots@.len(),
        result == Ok::<bool, DocumentError>(false) ==> after == before,
        result != Ok::<bool, DocumentError>(false) ==> {
            let was = before.piece_table->0@;
            let is = after.piece_table->0@;
            &&& after.dirty
            &&& after.piece_table is Some
            &&& is.current == was.current + 1
            &&& is.roots == was.roots
            &&& is.add == was.add
            &&& is.original == was.original
            &&& after@ == (DocumentView { piece_table: Some(is), dirty: true, ..before@ })
        },
        after@.piece_table != before@.piece_table ==> after.dirty,
{
    if before.piece_table is Some && before.piece_table->0.pieces.current + 1
        < before.piece_table->0.pieces.roots@.len() {
        lemma_stepped(before, 1, schedule, after, result);
    }
}

/// The answer of an undo or a redo that moved tells how the session store took it: it
/// is `true` where the store took note, and the write error of the sidecar, with the
/// store's own reason, where it did not.
pub proof fn law_answer_of_a_step<S: FnOnce(&PieceTable) -> std::io::Result<()>>(
    before: Document,
    target: Option<int>,
    schedule: S,
    after: Document,
    result: Result<bool, DocumentError>,
)
    requires
        before@.wf(),
        target == persistence::undo_target_of(before@) || target == persistence::redo_target_of(
            before@,
        ),
        persistence::history_moved(before, target, schedule, after, result),
        result != Ok::<bool, DocumentError>(false),
    ensures
        match result {
            Ok(moved) => moved && call_ensures(
                schedule,
                (&after.piece_table->0,),
                Ok::<(), std::io::Error>(()),
            ),
            Err(error) => {
                &&& error matches DocumentError::Write { path, source }
                &&& before.path matches Some(own) ==> path@ == own@ + encode_utf8(
                    ".qem.editlog"@,
                )
                &&& before.path is None ==> path@ == before.piece_table->0.original.path@
                    + encode_utf8(".qem.editlog"@)
                &&& call_ensures(
                    schedule,
                    (&after.piece_table->0,),
                    Err::<(), std::io::Error>(source),
                )
            },
        },
{
    let by = target->0 - before.piece_table->0@.current;
    lemma_stepped(before, by, schedule, after, result);
    law_sidecar_of_a_document(before);
}

/// A redo behind an undo, and an undo behind a redo, lead back: the table and the bytes
/// are what they were, and the document is dirty all the same.
pub proof fn law_there_and_back<
    S: FnOnce(&PieceTable) -> std::io::Result<()>,
    T: FnOnce(&PieceTable) -> std::io::Result<()>,
>(
    before: Document,
    there: S,
    between: Document,
    first: Result<bool, DocumentError>,
    back: T,
    after: Document,
    second: Result<bool, DocumentError>,
)
    requires
        before@.wf(),
        first != Ok::<bool, DocumentError>(false),
        ({
            ||| {
                &&& persistence::history_moved(
                    before,
                    persistence::undo_target_of(before@),
                    there,
                    between,
                    first,
                )
                &&& persistence::history_moved(
                    between,
                    persistence::redo_target_of(between@),
                    back,
                    after,
                    second,
                )
            }
            ||| {
                &&& persistence::history_moved(
                    before,
                    persistence::redo_target_of(before@),
                    there,
                    between,
                    first,
                )
                &&& persistence::history_moved(
                    between,
                    persistence::undo_target_of(between@),
                    back,
                    after,
                    second,
                )
            }
        }),
    ensures
        second != Ok::<bool, DocumentError>(false),
        after@.piece_table == before@.piece_table,
        after@.content() == before@.content(),
        after.dirty,
{
    assert(after@.piece_table->0 =~= before@.piece_table->0);
}

/// A step through the history calls the session store only where it moves, and only
/// with the same table at the entry next to it.
pub proof fn law_steps_call<S: FnOnce(&PieceTable) -> std::io::Result<()>>(
    doc: Document,
    schedule: S,
)
    requires
        doc@.wf(),
    ensures
        (forall|table: &PieceTable|
            doc.piece_table is Some && doc.piece_table->0.pieces.current > 0 && table@.roots
                == doc.piece_table->0@.roots && table@.current == doc.piece_table->0@.current - 1
                ==> #[trigger] call_requires(schedule, (table,)))
            ==> persistence::history_callable(
            doc@,
            persistence::undo_target_of(doc@),
            schedule,
        ),
        (forall|table: &PieceTable|
            doc.piece_table is Some && doc.piece_table->0.pieces.current + 1
                < doc.piece_table->0.pieces.roots@.len() && table@.roots
                == doc.piece_table->0@.roots && table@.current == doc.piece_table->0@.current + 1
                ==> #[trigger] call_requires(schedule, (table,)))
            ==> persistence::history_callable(
            doc@,
            persistence::redo_target_of(doc@),
            schedule,
        ),
{
}

} // verus!
