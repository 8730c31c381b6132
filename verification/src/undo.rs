//! Reversible edits of a [`Document`]'s tool history and a linear
//! undo/redo stack of them. Edits only ever describe changes to the
//! document, never to resolved geometry: callers recompute afterwards.
use vstd::prelude::*;

use crate::document::{
    copy_kind, copy_record, first_missing, first_user, has_tool, ids_distinct,
    lemma_first_missing_none, lemma_first_missing_same_ids, lemma_first_user_none,
    lemma_tool_index_unique, refs, tool_index, Document, DocumentError, DocumentView, PieceNode,
    ToolKind, ToolKindView, ToolRecord, ToolRecordView,
};
use crate::error::PatternError;
use crate::id::ObjectId;
use crate::scalar::Real;

verus! {

/// One reversible change to a [`Document`]: each variant carries what is
/// needed both to undo it and to apply it again.
#[derive(Debug, Clone, PartialEq)]
pub enum Edit {
    /// A tool was appended. Undo removes it by id; redo appends it again.
    AddTool(ToolRecord),
    /// A tool was removed from position `index`. Undo puts it back there;
    /// redo removes it again.
    RemoveTool { record: ToolRecord, index: usize },
    /// A tool's kind was replaced. Undo restores `old_kind`; redo restores
    /// `new_kind`.
    ModifyFormula { id: ObjectId, old_kind: ToolKind, new_kind: ToolKind },
}

/// The mathematical content of an [`Edit`].
pub enum EditView {
    AddTool(ToolRecordView),
    RemoveTool { record: ToolRecordView, index: int },
    ModifyFormula { id: ObjectId, old_kind: ToolKindView, new_kind: ToolKindView },
}

impl View for Edit {
    type V = EditView;

    open spec fn view(&self) -> EditView {
        match self {
            Edit::AddTool(record) => EditView::AddTool(record@),
            Edit::RemoveTool { record, index } => EditView::RemoveTool {
                record: record@,
                index: *index as int,
            },
            Edit::ModifyFormula { id, old_kind, new_kind } => EditView::ModifyFormula {
                id: *id,
                old_kind: old_kind@,
                new_kind: new_kind@,
            },
        }
    }
}

/// The document after applying `e` again (redo), or the error that stops it.
pub open spec fn applied(e: EditView, d: DocumentView) -> Result<DocumentView, DocumentError> {
    match e {
        EditView::AddTool(record) => d.inserted(d.records.len() as int, record),
        EditView::RemoveTool { record, .. } => match d.removed(record.id) {
            Ok(t) => Ok(t.0),
            Err(x) => Err(x),
        },
        EditView::ModifyFormula { id, new_kind, .. } => match d.replaced(id, new_kind) {
            Ok(t) => Ok(t.0),
            Err(x) => Err(x),
        },
    }
}

/// The document after undoing `e`, or the error that stops it.
pub open spec fn reverted(e: EditView, d: DocumentView) -> Result<DocumentView, DocumentError> {
    match e {
        EditView::AddTool(record) => match d.removed(record.id) {
            Ok(t) => Ok(t.0),
            Err(x) => Err(x),
        },
        EditView::RemoveTool { record, index } => d.inserted(index, record),
        EditView::ModifyFormula { id, old_kind, .. } => match d.replaced(id, old_kind) {
            Ok(t) => Ok(t.0),
            Err(x) => Err(x),
        },
    }
}

/// Whether applying `e` to `d` runs without a panic.
pub open spec fn can_apply(e: EditView, d: DocumentView) -> bool {
    match e {
        EditView::AddTool(record) => d.can_insert(d.records.len() as int, record),
        _ => true,
    }
}

/// Whether undoing `e` on `d` runs without a panic.
pub open spec fn can_revert(e: EditView, d: DocumentView) -> bool {
    match e {
        EditView::RemoveTool { record, index } => d.can_insert(index, record),
        _ => true,
    }
}

/// `d` is the state right after `e`: undoing `e` takes it back.
pub open spec fn done_in(e: EditView, d: DocumentView) -> bool {
    match e {
        EditView::AddTool(record) => {
            &&& d.records.len() > 0
            &&& d.records.last() == record
            &&& first_user(d.records, record.id) is None
        },
        EditView::RemoveTool { record, index } => {
            &&& !has_tool(d.records, record.id)
            &&& 0 <= index <= d.records.len()
            &&& record.id.0 < d.next_id
            &&& first_user(d.records, record.id) is None
        },
        EditView::ModifyFormula { id, old_kind, new_kind } => {
            &&& has_tool(d.records, id)
            &&& d.records[tool_index(d.records, id)].kind == new_kind
            &&& first_missing(d.records, refs(old_kind)) is None
            &&& first_missing(d.records, refs(new_kind)) is None
        },
    }
}

/// `d` is the state right before `e`: applying `e` leads on from it.
pub open spec fn pending_in(e: EditView, d: DocumentView) -> bool {
    match e {
        EditView::AddTool(record) => {
            &&& !has_tool(d.records, record.id)
            &&& record.id.0 < d.next_id
            &&& first_user(d.records, record.id) is None
        },
        EditView::RemoveTool { record, index } => {
            &&& 0 <= index < d.records.len()
            &&& d.records[index] == record
            &&& first_user(d.records, record.id) is None
        },
        EditView::ModifyFormula { id, old_kind, new_kind } => {
            &&& has_tool(d.records, id)
            &&& d.records[tool_index(d.records, id)].kind == old_kind
            &&& first_missing(d.records, refs(old_kind)) is None
            &&& first_missing(d.records, refs(new_kind)) is None
        },
    }
}

/// Re-applies `edit` to `doc` (the redo direction).
fn apply_edit(edit: &Edit, doc: &mut Document) -> (r: Result<(), DocumentError>)
    requires
        old(doc)@.wf(),
        can_apply(edit@, old(doc)@),
    ensures
        final(doc)@.wf(),
        match applied(edit@, old(doc)@) {
            Ok(d) => r is Ok && final(doc)@ == d,
            Err(e) => r == Err::<(), DocumentError>(e) && final(doc)@ == old(doc)@,
        },
{
    match edit {
        Edit::AddTool(record) => {
            let end = doc.history().len();
            doc.insert_tool_record_at(end, copy_record(record))
        },
        Edit::RemoveTool { record, .. } => match doc.remove_tool(record.id) {
            Ok(_) => Ok(()),
            Err(e) => Err(e),
        },
        Edit::ModifyFormula { id, new_kind, .. } => match doc.replace_tool_kind(
            *id,
            copy_kind(new_kind),
        ) {
            Ok(_) => Ok(()),
            Err(e) => Err(e),
        },
    }
}

/// Reverts `edit` on `doc` (the undo direction).
fn revert_edit(edit: &Edit, doc: &mut Document) -> (r: Result<(), DocumentError>)
    requires
        old(doc)@.wf(),
        can_revert(edit@, old(doc)@),
    ensures
        final(doc)@.wf(),
        match reverted(edit@, old(doc)@) {
            Ok(d) => r is Ok && final(doc)@ == d,
            Err(e) => r == Err::<(), DocumentError>(e) && final(doc)@ == old(doc)@,
        },
{
    match edit {
        Edit::AddTool(record) => match doc.remove_tool(record.id) {
            Ok(_) => Ok(()),
            Err(e) => Err(e),
        },
        Edit::RemoveTool { record, index } => doc.insert_tool_record_at(*index, copy_record(record)),
        Edit::ModifyFormula { id, old_kind, .. } => match doc.replace_tool_kind(
            *id,
            copy_kind(old_kind),
        ) {
            Ok(_) => Ok(()),
            Err(e) => Err(e),
        },
    }
}

/// The tool kinds the drafting canvas can build and commit.
pub open spec fn canvas_kind(k: ToolKindView) -> bool {
    match k {
        ToolKindView::BasePoint { .. } | ToolKindView::Line { .. } | ToolKindView::Midpoint { .. }
        | ToolKindView::EndLine { .. } | ToolKindView::AlongLine { .. } | ToolKindView::Normal {
            ..
        } | ToolKindView::Bisector { .. } | ToolKindView::Height { .. } => true,
        _ => false,
    }
}

/// The mathematical content of an [`UndoStack`]: the undoable edits and
/// the redoable ones, most recent last.
pub struct UndoStackView {
    pub undo: Seq<EditView>,
    pub redo: Seq<EditView>,
}

impl UndoStackView {
    /// The stack after recording `e`: it becomes the most recent undoable
    /// edit and the redo stack is emptied.
    pub open spec fn recorded(self, e: EditView) -> UndoStackView {
        UndoStackView { undo: self.undo.push(e), redo: Seq::empty() }
    }
}

/// The views of a sequence of edits.
pub open spec fn edits_view(s: Seq<Edit>) -> Seq<EditView> {
    s.map_values(|e: Edit| e@)
}

/// A linear undo/redo history of [`Edit`]s. It holds no document: each
/// call replays edits against the document it is handed, which must be
/// the one the edits were recorded against.
#[derive(Debug, Clone, PartialEq)]
pub struct UndoStack {
    undo: Vec<Edit>,
    redo: Vec<Edit>,
}

impl View for UndoStack {
    type V = UndoStackView;

    closed spec fn view(&self) -> UndoStackView {
        UndoStackView { undo: edits_view(self.undo@), redo: edits_view(self.redo@) }
    }
}

impl UndoStack {
    /// An empty stack.
    pub fn new() -> (r: UndoStack)
        ensures
            r@.undo == Seq::<EditView>::empty(),
            r@.redo == Seq::<EditView>::empty(),
    {
        let r = UndoStack { undo: Vec::new(), redo: Vec::new() };
        proof {
            assert(edits_view(r.undo@) =~= Seq::<EditView>::empty());
            assert(edits_view(r.redo@) =~= Seq::<EditView>::empty());
        }
        r
    }

    /// Records `edit` as the most recent undoable edit and clears the redo
    /// stack: a new edit replaces whatever future was redoable.
    pub fn record(&mut self, edit: Edit)
        ensures
            final(self)@ == old(self)@.recorded(edit@),
    {
        let ghost e = edit@;
        self.undo.push(edit);
        self.redo.clear();
        proof {
            assert(edits_view(self.undo@) =~= old(self)@.undo.push(e));
            assert(edits_view(self.redo@) =~= Seq::<EditView>::empty());
        }
    }

    /// Undoes the most recent edit. `Ok(false)` when there is nothing to
    /// undo (the document is untouched); `Ok(true)` when the edit was
    /// undone, which makes it redoable. When undoing fails, the error is
    /// returned, the document is untouched and the edit is dropped. On a
    /// history that matches the document (see [`history_matches`]) undoing
    /// never fails, and the history keeps matching.
    pub fn undo(&mut self, doc: &mut Document) -> (r: Result<bool, DocumentError>)
        requires
            old(doc)@.wf(),
            old(self)@.undo.len() > 0 ==> can_revert(old(self)@.undo.last(), old(doc)@),
        ensures
            final(doc)@.wf(),
            old(self)@.undo.len() == 0 ==> r == Ok::<bool, DocumentError>(false) && final(doc)@
                == old(doc)@ && final(self)@ == old(self)@,
            old(self)@.undo.len() > 0 ==> match reverted(old(self)@.undo.last(), old(doc)@) {
                Ok(d) => r == Ok::<bool, DocumentError>(true) && final(doc)@ == d && final(self)@
                    == (UndoStackView {
                    undo: old(self)@.undo.drop_last(),
                    redo: old(self)@.redo.push(old(self)@.undo.last()),
                }),
                Err(e) => r == Err::<bool, DocumentError>(e) && final(doc)@ == old(doc)@
                    && final(self)@ == (UndoStackView {
                    undo: old(self)@.undo.drop_last(),
                    redo: old(self)@.redo,
                }),
            },
            (final(self)@, final(doc)@) == undo_step(old(self)@, old(doc)@),
            history_matches(old(self)@, old(doc)@) ==> r == Ok::<bool, DocumentError>(
                old(self)@.undo.len() > 0,
            ) && history_matches(final(self)@, final(doc)@),
    {
        let ghost before = self@;
        proof {
            if history_matches(before, doc@) && before.undo.len() > 0 {
                lemma_undo_keeps(before, doc@);
            }
        }
        match self.undo.pop() {
            None => {
                proof {
                    assert(edits_view(self.undo@) =~= before.undo);
                }
                Ok(false)
            },
            Some(edit) => {
                proof {
                    assert(edits_view(self.undo@) =~= before.undo.drop_last());
                    assert(edit@ == before.undo.last());
                }
                match revert_edit(&edit, doc) {
                    Ok(()) => {
                        self.redo.push(edit);
                        proof {
                            assert(edits_view(self.redo@) =~= before.redo.push(before.undo.last()));
                        }
                        Ok(true)
                    },
                    Err(e) => Err(e),
                }
            },
        }
    }

    /// Redoes the most recently undone edit; the mirror of
    /// [`UndoStack::undo`]; on a history that matches the document, redoing
    /// never fails either.
    pub fn redo(&mut self, doc: &mut Document) -> (r: Result<bool, DocumentError>)
        requires
            old(doc)@.wf(),
            old(self)@.redo.len() > 0 ==> can_apply(old(self)@.redo.last(), old(doc)@),
        ensures
            final(doc)@.wf(),
            old(self)@.redo.len() == 0 ==> r == Ok::<bool, DocumentError>(false) && final(doc)@
                == old(doc)@ && final(self)@ == old(self)@,
            old(self)@.redo.len() > 0 ==> match applied(old(self)@.redo.last(), old(doc)@) {
                Ok(d) => r == Ok::<bool, DocumentError>(true) && final(doc)@ == d && final(self)@
                    == (UndoStackView {
                    undo: old(self)@.undo.push(old(self)@.redo.last()),
                    redo: old(self)@.redo.drop_last(),
                }),
                Err(e) => r == Err::<bool, DocumentError>(e) && final(doc)@ == old(doc)@
                    && final(self)@ == (UndoStackView {
                    undo: old(self)@.undo,
                    redo: old(self)@.redo.drop_last(),
                }),
            },
            (final(self)@, final(doc)@) == redo_step(old(self)@, old(doc)@),
            history_matches(old(self)@, old(doc)@) ==> r == Ok::<bool, DocumentError>(
                old(self)@.redo.len() > 0,
            ) && history_matches(final(self)@, final(doc)@),
    {
        let ghost before = self@;
        proof {
            if history_matches(before, doc@) && before.redo.len() > 0 {
                lemma_redo_keeps(before, doc@);
            }
        }
        match self.redo.pop() {
            None => {
                proof {
                    assert(edits_view(self.redo@) =~= before.redo);
                }
                Ok(false)
            },
            Some(edit) => {
                proof {
                    assert(edits_view(self.redo@) =~= before.redo.drop_last());
                    assert(edit@ == before.redo.last());
                }
                match apply_edit(&edit, doc) {
                    Ok(()) => {
                        self.undo.push(edit);
                        proof {
                            assert(edits_view(self.undo@) =~= before.undo.push(before.redo.last()));
                        }
                        Ok(true)
                    },
                    Err(e) => Err(e),
                }
            },
        }
    }

    /// Whether undoing the most recent edit on `doc` can run: true when
    /// there is nothing to undo, or when putting a removed record back would
    /// neither index past the end of the history nor exhaust the id counter.
    pub fn can_undo_on(&self, doc: &Document) -> (r: bool)
        requires
            doc@.wf(),
        ensures
            r == (self@.undo.len() > 0 ==> can_revert(self@.undo.last(), doc@)),
    {
        if self.undo.len() == 0 {
            return true;
        }
        let last = self.undo.len() - 1;
        proof {
            assert(self@.undo.last() == self.undo@[last as int]@);
        }
        match &self.undo[last] {
            Edit::RemoveTool { record, index } => doc.contains(record.id) || (*index
                <= doc.history().len() && record.id.0 < u32::MAX),
            _ => true,
        }
    }

    /// Whether redoing the most recently undone edit on `doc` can run: true
    /// when there is nothing to redo, or when appending a record again would
    /// not exhaust the id counter.
    pub fn can_redo_on(&self, doc: &Document) -> (r: bool)
        requires
            doc@.wf(),
        ensures
            r == (self@.redo.len() > 0 ==> can_apply(self@.redo.last(), doc@)),
    {
        if self.redo.len() == 0 {
            return true;
        }
        let last = self.redo.len() - 1;
        proof {
            assert(self@.redo.last() == self.redo@[last as int]@);
        }
        match &self.redo[last] {
            Edit::AddTool(record) => doc.contains(record.id) || record.id.0 < u32::MAX,
            _ => true,
        }
    }

    /// The number of undoable edits.
    pub fn undo_len(&self) -> (r: usize)
        ensures
            r == self@.undo.len(),
    {
        self.undo.len()
    }

    /// The number of redoable edits.
    pub fn redo_len(&self) -> (r: usize)
        ensures
            r == self@.redo.len(),
    {
        self.redo.len()
    }

    /// Records the addition of the last tool of `doc`, whose id is `id`.
    fn record_added(&mut self, doc: &Document, id: ObjectId)
        requires
            doc@.wf(),
            doc@.records.len() > 0,
            doc@.records.last().id == id,
        ensures
            final(self)@ == old(self)@.recorded(EditView::AddTool(doc@.records.last())),
    {
        proof {
            lemma_tool_index_unique(doc@.records, id, doc@.records.len() - 1);
        }
        if let Some(record) = doc.get_tool(id) {
            self.record(Edit::AddTool(copy_record(record)));
        }
    }

    /// Adds a literal starting point to `doc` and records the edit.
    pub fn do_add_base_point(&mut self, doc: &mut Document, name: &str, x: Real, y: Real) -> (id:
        ObjectId)
        requires
            old(doc)@.wf(),
            old(doc).can_add(),
        ensures
            final(doc)@.wf(),
            id.0 == old(doc)@.next_id,
            final(doc)@ == old(doc)@.with_tool(ToolKindView::BasePoint { name: name@, x, y }),
            final(self)@ == old(self)@.recorded(
                EditView::AddTool(ToolRecordView { id, kind: ToolKindView::BasePoint { name: name@, x, y } }),
            ),
            history_matches(old(self)@, old(doc)@) ==> history_matches(final(self)@, final(doc)@),
    {
        let ghost s0 = self@;
        let ghost d0 = doc@;
        let id = doc.add_base_point(name, x, y);
        proof {
            if history_matches(s0, d0) {
                lemma_add_keeps(s0, d0, doc@.records.last().kind);
            }
        }
        self.record_added(doc, id);
        id
    }

    /// Adds an angle/length point to `doc` and records the edit; a refused addition
    /// records nothing.
    pub fn do_add_end_line(&mut self, doc: &mut Document, name: &str, base_point: ObjectId, angle_formula: &str, length_formula: &str) -> (r: Result<ObjectId, PatternError>)
        requires
            old(doc)@.wf(),
            first_missing(old(doc)@.records, seq![base_point]) is Some || old(doc).can_add(),
        ensures
            final(doc)@.wf(),
            match old(doc)@.add_checked(seq![base_point], ToolKindView::EndLine { name: name@, base_point, angle_formula: angle_formula@, length_formula: length_formula@ }) {
                Err(m) => r matches Err(PatternError::MissingDependency(x)) && x == m && final(doc)@
                    == old(doc)@ && final(self)@ == old(self)@,
                Ok(d) => r matches Ok(id) && id.0 == old(doc)@.next_id && final(doc)@ == d
                    && final(self)@ == old(self)@.recorded(
                    EditView::AddTool(ToolRecordView { id, kind: ToolKindView::EndLine { name: name@, base_point, angle_formula: angle_formula@, length_formula: length_formula@ } }),
                ),
            },
            history_matches(old(self)@, old(doc)@) ==> history_matches(final(self)@, final(doc)@),
    {
        let ghost s0 = self@;
        let ghost d0 = doc@;
        let id = match doc.add_end_line(name, base_point, angle_formula, length_formula) {
            Ok(id) => id,
            Err(e) => {
                return Err(e);
            },
        };
        proof {
            if history_matches(s0, d0) {
                lemma_add_keeps(s0, d0, doc@.records.last().kind);
            }
        }
        self.record_added(doc, id);
        Ok(id)
    }

    /// Adds a line between two existing points to `doc` and records the edit; a refused addition
    /// records nothing.
    pub fn do_add_line(&mut self, doc: &mut Document, p1: ObjectId, p2: ObjectId) -> (r: Result<ObjectId, PatternError>)
        requires
            old(doc)@.wf(),
            first_missing(old(doc)@.records, seq![p1, p2]) is Some || old(doc).can_add(),
        ensures
            final(doc)@.wf(),
            match old(doc)@.add_checked(seq![p1, p2], ToolKindView::Line { p1, p2 }) {
                Err(m) => r matches Err(PatternError::MissingDependency(x)) && x == m && final(doc)@
                    == old(doc)@ && final(self)@ == old(self)@,
                Ok(d) => r matches Ok(id) && id.0 == old(doc)@.next_id && final(doc)@ == d
                    && final(self)@ == old(self)@.recorded(
                    EditView::AddTool(ToolRecordView { id, kind: ToolKindView::Line { p1, p2 } }),
                ),
            },
            history_matches(old(self)@, old(doc)@) ==> history_matches(final(self)@, final(doc)@),
    {
        let ghost s0 = self@;
        let ghost d0 = doc@;
        let id = match doc.add_line(p1, p2) {
            Ok(id) => id,
            Err(e) => {
                return Err(e);
            },
        };
        proof {
            if history_matches(s0, d0) {
                lemma_add_keeps(s0, d0, doc@.records.last().kind);
            }
        }
        self.record_added(doc, id);
        Ok(id)
    }

    /// Adds a point along a line to `doc` and records the edit; a refused addition
    /// records nothing.
    pub fn do_add_along_line(&mut self, doc: &mut Document, name: &str, p1: ObjectId, p2: ObjectId, length_formula: &str) -> (r: Result<ObjectId, PatternError>)
        requires
            old(doc)@.wf(),
            first_missing(old(doc)@.records, seq![p1, p2]) is Some || old(doc).can_add(),
        ensures
            final(doc)@.wf(),
            match old(doc)@.add_checked(seq![p1, p2], ToolKindView::AlongLine { name: name@, p1, p2, length_formula: length_formula@ }) {
                Err(m) => r matches Err(PatternError::MissingDependency(x)) && x == m && final(doc)@
                    == old(doc)@ && final(self)@ == old(self)@,
                Ok(d) => r matches Ok(id) && id.0 == old(doc)@.next_id && final(doc)@ == d
                    && final(self)@ == old(self)@.recorded(
                    EditView::AddTool(ToolRecordView { id, kind: ToolKindView::AlongLine { name: name@, p1, p2, length_formula: length_formula@ } }),
                ),
            },
            history_matches(old(self)@, old(doc)@) ==> history_matches(final(self)@, final(doc)@),
    {
        let ghost s0 = self@;
        let ghost d0 = doc@;
        let id = match doc.add_along_line(name, p1, p2, length_formula) {
            Ok(id) => id,
            Err(e) => {
                return Err(e);
            },
        };
        proof {
            if history_matches(s0, d0) {
                lemma_add_keeps(s0, d0, doc@.records.last().kind);
            }
        }
        self.record_added(doc, id);
        Ok(id)
    }

    /// Adds a point perpendicular to a line to `doc` and records the edit; a refused addition
    /// records nothing.
    pub fn do_add_normal(&mut self, doc: &mut Document, name: &str, p1: ObjectId, p2: ObjectId, length_formula: &str, angle_formula: &str) -> (r: Result<ObjectId, PatternError>)
        requires
            old(doc)@.wf(),
            first_missing(old(doc)@.records, seq![p1, p2]) is Some || old(doc).can_add(),
        ensures
            final(doc)@.wf(),
            match old(doc)@.add_checked(seq![p1, p2], ToolKindView::Normal { name: name@, p1, p2, length_formula: length_formula@, angle_formula: angle_formula@ }) {
                Err(m) => r matches Err(PatternError::MissingDependency(x)) && x == m && final(doc)@
                    == old(doc)@ && final(self)@ == old(self)@,
                Ok(d) => r matches Ok(id) && id.0 == old(doc)@.next_id && final(doc)@ == d
                    && final(self)@ == old(self)@.recorded(
                    EditView::AddTool(ToolRecordView { id, kind: ToolKindView::Normal { name: name@, p1, p2, length_formula: length_formula@, angle_formula: angle_formula@ } }),
                ),
            },
            history_matches(old(self)@, old(doc)@) ==> history_matches(final(self)@, final(doc)@),
    {
        let ghost s0 = self@;
        let ghost d0 = doc@;
        let id = match doc.add_normal(name, p1, p2, length_formula, angle_formula) {
            Ok(id) => id,
            Err(e) => {
                return Err(e);
            },
        };
        proof {
            if history_matches(s0, d0) {
                lemma_add_keeps(s0, d0, doc@.records.last().kind);
            }
        }
        self.record_added(doc, id);
        Ok(id)
    }

    /// Adds a point on an angle bisector to `doc` and records the edit; a refused addition
    /// records nothing.
    pub fn do_add_bisector(&mut self, doc: &mut Document, name: &str, p1: ObjectId, p2: ObjectId, p3: ObjectId, length_formula: &str) -> (r: Result<ObjectId, PatternError>)
        requires
            old(doc)@.wf(),
            first_missing(old(doc)@.records, seq![p1, p2, p3]) is Some || old(doc).can_add(),
        ensures
            final(doc)@.wf(),
            match old(doc)@.add_checked(seq![p1, p2, p3], ToolKindView::Bisector { name: name@, p1, p2, p3, length_formula: length_formula@ }) {
                Err(m) => r matches Err(PatternError::MissingDependency(x)) && x == m && final(doc)@
                    == old(doc)@ && final(self)@ == old(self)@,
                Ok(d) => r matches Ok(id) && id.0 == old(doc)@.next_id && final(doc)@ == d
                    && final(self)@ == old(self)@.recorded(
                    EditView::AddTool(ToolRecordView { id, kind: ToolKindView::Bisector { name: name@, p1, p2, p3, length_formula: length_formula@ } }),
                ),
            },
            history_matches(old(self)@, old(doc)@) ==> history_matches(final(self)@, final(doc)@),
    {
        let ghost s0 = self@;
        let ghost d0 = doc@;
        let id = match doc.add_bisector(name, p1, p2, p3, length_formula) {
            Ok(id) => id,
            Err(e) => {
                return Err(e);
            },
        };
        proof {
            if history_matches(s0, d0) {
                lemma_add_keeps(s0, d0, doc@.records.last().kind);
            }
        }
        self.record_added(doc, id);
        Ok(id)
    }

    /// Adds the foot of a perpendicular to `doc` and records the edit; a refused addition
    /// records nothing.
    pub fn do_add_height(&mut self, doc: &mut Document, name: &str, point: ObjectId, line_p1: ObjectId, line_p2: ObjectId) -> (r: Result<ObjectId, PatternError>)
        requires
            old(doc)@.wf(),
            first_missing(old(doc)@.records, seq![point, line_p1, line_p2]) is Some || old(doc).can_add(),
        ensures
            final(doc)@.wf(),
            match old(doc)@.add_checked(seq![point, line_p1, line_p2], ToolKindView::Height { name: name@, point, line_p1, line_p2 }) {
                Err(m) => r matches Err(PatternError::MissingDependency(x)) && x == m && final(doc)@
                    == old(doc)@ && final(self)@ == old(self)@,
                Ok(d) => r matches Ok(id) && id.0 == old(doc)@.next_id && final(doc)@ == d
                    && final(self)@ == old(self)@.recorded(
                    EditView::AddTool(ToolRecordView { id, kind: ToolKindView::Height { name: name@, point, line_p1, line_p2 } }),
                ),
            },
            history_matches(old(self)@, old(doc)@) ==> history_matches(final(self)@, final(doc)@),
    {
        let ghost s0 = self@;
        let ghost d0 = doc@;
        let id = match doc.add_height(name, point, line_p1, line_p2) {
            Ok(id) => id,
            Err(e) => {
                return Err(e);
            },
        };
        proof {
            if history_matches(s0, d0) {
                lemma_add_keeps(s0, d0, doc@.records.last().kind);
            }
        }
        self.record_added(doc, id);
        Ok(id)
    }

    /// Adds a midpoint to `doc` and records the edit; a refused addition
    /// records nothing.
    pub fn do_add_midpoint(&mut self, doc: &mut Document, name: &str, p1: ObjectId, p2: ObjectId) -> (r: Result<ObjectId, PatternError>)
        requires
            old(doc)@.wf(),
            first_missing(old(doc)@.records, seq![p1, p2]) is Some || old(doc).can_add(),
        ensures
            final(doc)@.wf(),
            match old(doc)@.add_checked(seq![p1, p2], ToolKindView::Midpoint { name: name@, p1, p2 }) {
                Err(m) => r matches Err(PatternError::MissingDependency(x)) && x == m && final(doc)@
                    == old(doc)@ && final(self)@ == old(self)@,
                Ok(d) => r matches Ok(id) && id.0 == old(doc)@.next_id && final(doc)@ == d
                    && final(self)@ == old(self)@.recorded(
                    EditView::AddTool(ToolRecordView { id, kind: ToolKindView::Midpoint { name: name@, p1, p2 } }),
                ),
            },
            history_matches(old(self)@, old(doc)@) ==> history_matches(final(self)@, final(doc)@),
    {
        let ghost s0 = self@;
        let ghost d0 = doc@;
        let id = match doc.add_midpoint(name, p1, p2) {
            Ok(id) => id,
            Err(e) => {
                return Err(e);
            },
        };
        proof {
            if history_matches(s0, d0) {
                lemma_add_keeps(s0, d0, doc@.records.last().kind);
            }
        }
        self.record_added(doc, id);
        Ok(id)
    }

    /// Commits a tool produced by the drafting canvas: the kinds the canvas
    /// can build (base points, lines, midpoints, end lines, along-line,
    /// normal, bisector and height points) are added to `doc` and recorded
    /// as with the matching `do_add_*`; any other kind is left alone.
    pub fn do_add_kind(&mut self, doc: &mut Document, kind: ToolKind) -> (r: Result<(), PatternError>)
        requires
            old(doc)@.wf(),
            first_missing(old(doc)@.records, refs(kind@)) is Some || old(doc).can_add(),
        ensures
            final(doc)@.wf(),
            !canvas_kind(kind@) ==> r is Ok && final(doc)@ == old(doc)@ && final(self)@ == old(self)@,
            canvas_kind(kind@) ==> match old(doc)@.add_checked(refs(kind@), kind@) {
                Err(m) => r matches Err(PatternError::MissingDependency(x)) && x == m && final(doc)@
                    == old(doc)@ && final(self)@ == old(self)@,
                Ok(d) => r is Ok && final(doc)@ == d && final(self)@ == old(self)@.recorded(
                    EditView::AddTool(
                        ToolRecordView { id: ObjectId(old(doc)@.next_id as u32), kind: kind@ },
                    ),
                ),
            },
            history_matches(old(self)@, old(doc)@) ==> history_matches(final(self)@, final(doc)@),
    {
        let outcome = match kind {
            ToolKind::BasePoint { name, x, y } => {
                self.do_add_base_point(doc, name.as_str(), x, y);
                Ok(())
            },
            ToolKind::Line { p1, p2 } => match self.do_add_line(doc, p1, p2) {
                Ok(_) => Ok(()),
                Err(e) => Err(e),
            },
            ToolKind::Midpoint { name, p1, p2 } => match self.do_add_midpoint(doc, name.as_str(), p1, p2) {
                Ok(_) => Ok(()),
                Err(e) => Err(e),
            },
            ToolKind::EndLine { name, base_point, angle_formula, length_formula } => match self.do_add_end_line(
                doc,
                name.as_str(),
                base_point,
                angle_formula.as_str(),
                length_formula.as_str(),
            ) {
                Ok(_) => Ok(()),
                Err(e) => Err(e),
            },
            ToolKind::AlongLine { name, p1, p2, length_formula } => match self.do_add_along_line(
                doc,
                name.as_str(),
                p1,
                p2,
                length_formula.as_str(),
            ) {
                Ok(_) => Ok(()),
                Err(e) => Err(e),
            },
            ToolKind::Normal { name, p1, p2, length_formula, angle_formula } => match self.do_add_normal(
                doc,
                name.as_str(),
                p1,
                p2,
                length_formula.as_str(),
                angle_formula.as_str(),
            ) {
                Ok(_) => Ok(()),
                Err(e) => Err(e),
            },
            ToolKind::Bisector { name, p1, p2, p3, length_formula } => match self.do_add_bisector(
                doc,
                name.as_str(),
                p1,
                p2,
                p3,
                length_formula.as_str(),
            ) {
                Ok(_) => Ok(()),
                Err(e) => Err(e),
            },
            ToolKind::Height { name, point, line_p1, line_p2 } => match self.do_add_height(
                doc,
                name.as_str(),
                point,
                line_p1,
                line_p2,
            ) {
                Ok(_) => Ok(()),
                Err(e) => Err(e),
            },
            _ => Ok(()),
        };
        outcome
    }

    /// Removes the tool `id` from `doc` and records the edit; a refused
    /// removal records nothing.
    pub fn do_remove_tool(&mut self, doc: &mut Document, id: ObjectId) -> (r: Result<
        (),
        DocumentError,
    >)
        requires
            old(doc)@.wf(),
        ensures
            final(doc)@.wf(),
            match old(doc)@.removed(id) {
                Err(e) => r == Err::<(), DocumentError>(e) && final(doc)@ == old(doc)@ && final(self)@ == old(self)@,
                Ok((d, rec, i)) => r is Ok && final(doc)@ == d && final(self)@ == old(self)@.recorded(EditView::RemoveTool { record: rec, index: i }),
            },
            history_matches(old(self)@, old(doc)@) ==> history_matches(final(self)@, final(doc)@),
    {
        let ghost s0 = self@;
        let ghost d0 = doc@;
        match doc.remove_tool(id) {
            Ok((record, index)) => {
                proof {
                    if history_matches(s0, d0) {
                        lemma_remove_keeps(s0, d0, id);
                    }
                }
                self.record(Edit::RemoveTool { record, index });
                Ok(())
            },
            Err(e) => Err(e),
        }
    }

    /// Replaces the kind of tool `id` in `doc` and records the edit with
    /// both kinds; a refused replacement records nothing.
    pub fn do_modify_formula(&mut self, doc: &mut Document, id: ObjectId, new_kind: ToolKind) -> (r:
        Result<(), DocumentError>)
        requires
            old(doc)@.wf(),
        ensures
            final(doc)@.wf(),
            match old(doc)@.replaced(id, new_kind@) {
                Err(e) => r == Err::<(), DocumentError>(e) && final(doc)@ == old(doc)@ && final(self)@ == old(self)@,
                Ok((d, k)) => r is Ok && final(doc)@ == d && final(self)@ == old(self)@.recorded(
                    EditView::ModifyFormula { id, old_kind: k, new_kind: new_kind@ },
                ),
            },
            history_matches(old(self)@, old(doc)@) ==> history_matches(final(self)@, final(doc)@),
    {
        let ghost s0 = self@;
        let ghost d0 = doc@;
        let ghost nk = new_kind@;
        let kept = copy_kind(&new_kind);
        match doc.replace_tool_kind(id, new_kind) {
            Ok(old_kind) => {
                proof {
                    if history_matches(s0, d0) {
                        lemma_modify_keeps(s0, d0, id, nk);
                    }
                }
                self.record(Edit::ModifyFormula { id, old_kind, new_kind: kept });
                Ok(())
            },
            Err(e) => Err(e),
        }
    }
}

impl Default for UndoStack {
    /// An empty stack.
    fn default() -> (r: UndoStack)
        ensures
            r@.undo == Seq::<EditView>::empty(),
            r@.redo == Seq::<EditView>::empty(),
    {
        UndoStack::new()
    }
}

/// The ids held by `h.remove(i)` are those of `h` but `h[i].id`, when ids
/// are distinct.
proof fn lemma_has_tool_remove(h: Seq<ToolRecordView>, i: int, x: ObjectId)
    requires
        ids_distinct(h),
        0 <= i < h.len(),
    ensures
        has_tool(h.remove(i), x) <==> (has_tool(h, x) && x != h[i].id),
{
    let r = h.remove(i);
    if has_tool(r, x) {
        let j = choose|j: int| 0 <= j < r.len() && r[j].id == x;
        let jj = if j < i { j } else { j + 1 };
        assert(h[jj] == r[j]);
    }
    if has_tool(h, x) && x != h[i].id {
        let j = choose|j: int| 0 <= j < h.len() && h[j].id == x;
        let jj = if j < i { j } else { j - 1 };
        assert(r[jj] == h[j]);
    }
}

/// Putting a record back where it was taken from restores the history.
proof fn lemma_remove_insert(h: Seq<ToolRecordView>, i: int)
    requires
        0 <= i < h.len(),
    ensures
        h.remove(i).insert(i, h[i]) == h,
{
    assert(h.remove(i).insert(i, h[i]) =~= h);
}

/// Undoing a removal restores the document exactly: the record returns to
/// the position it was removed from, with the same content, and the
/// counter is unchanged.
pub proof fn law_undo_remove_restores(doc: DocumentView, id: ObjectId)
    requires
        doc.wf(),
        doc.removed(id) is Ok,
    ensures
        ({
            let (d, rec, i) = doc.removed(id)->Ok_0;
            &&& can_revert(EditView::RemoveTool { record: rec, index: i }, d)
            &&& reverted(EditView::RemoveTool { record: rec, index: i }, d) == Ok::<
                DocumentView,
                DocumentError,
            >(doc)
        }),
{
    let (d, rec, i) = doc.removed(id)->Ok_0;
    let h = doc.records;
    assert(i == tool_index(h, id));
    assert(has_tool(h, id));
    assert(h[i].id == id);
    lemma_has_tool_remove(h, i, id);
    lemma_remove_insert(h, i);
    assert(!has_tool(d.records, rec.id));
}

/// Undoing an addition gives back the records and variables the document
/// had before it; only the counter stays advanced, so the id is never
/// reused. This holds whenever no earlier record referenced the id that
/// the addition received.
pub proof fn law_undo_add_restores(doc: DocumentView, kind: ToolKindView)
    requires
        doc.wf(),
        doc.next_id < u32::MAX,
        first_user(doc.records, ObjectId(doc.next_id as u32)) is None,
    ensures
        ({
            let id = ObjectId(doc.next_id as u32);
            let after = doc.with_tool(kind);
            &&& reverted(EditView::AddTool(ToolRecordView { id, kind }), after) == Ok::<
                DocumentView,
                DocumentError,
            >(DocumentView { next_id: doc.next_id + 1, ..doc })
        }),
{
    let id = ObjectId(doc.next_id as u32);
    let rec = ToolRecordView { id, kind };
    let h = doc.records;
    let after = doc.with_tool(kind);
    let g = after.records;
    assert(g == h.push(rec));
    assert(ids_distinct(g)) by {
        assert forall|i: int, j: int| 0 <= i < g.len() && 0 <= j < g.len() && i != j implies g[i].id
            != g[j].id by {
            if i < h.len() && j < h.len() {
                assert(g[i] == h[i] && g[j] == h[j]);
            } else if i == h.len() {
                assert(g[j] == h[j]);
            } else {
                assert(g[i] == h[i]);
            }
        }
    }
    lemma_first_user_none(h, id);
    lemma_first_user_none(g, id);
    assert forall|j: int| 0 <= j < g.len() implies g[j].id == id || !refs(g[j].kind).contains(id) by {
        if j < h.len() {
            assert(g[j] == h[j]);
        }
    }
    lemma_tool_index_unique(g, id, h.len() as int);
    assert(g.remove(h.len() as int) =~= h);
}

/// Undoing a replacement of a tool's kind restores the document exactly,
/// whenever the ids the old kind references are all present.
pub proof fn law_undo_modify_restores(doc: DocumentView, id: ObjectId, kind: ToolKindView)
    requires
        doc.wf(),
        doc.replaced(id, kind) is Ok,
        first_missing(doc.records, refs(doc.records[tool_index(doc.records, id)].kind)) is None,
    ensures
        ({
            let (d, old_kind) = doc.replaced(id, kind)->Ok_0;
            reverted(EditView::ModifyFormula { id, old_kind, new_kind: kind }, d) == Ok::<
                DocumentView,
                DocumentError,
            >(doc)
        }),
{
    let (d, old_kind) = doc.replaced(id, kind)->Ok_0;
    let h = doc.records;
    let i = tool_index(h, id);
    let g = d.records;
    assert(g == h.update(i, ToolRecordView { id, kind }));
    assert forall|x: ObjectId| has_tool(h, x) <==> has_tool(g, x) by {
        if has_tool(h, x) {
            let j = choose|j: int| 0 <= j < h.len() && h[j].id == x;
            assert(g[j].id == x);
        }
        if has_tool(g, x) {
            let j = choose|j: int| 0 <= j < g.len() && g[j].id == x;
            assert(h[j].id == x);
        }
    }
    lemma_first_missing_same_ids(h, g, refs(old_kind));
    assert(ids_distinct(g)) by {
        assert forall|a: int, b: int| 0 <= a < g.len() && 0 <= b < g.len() && a != b implies g[a].id
            != g[b].id by {
            assert(h[a].id != h[b].id);
        }
    }
    lemma_tool_index_unique(g, id, i);
    assert(g.update(i, ToolRecordView { id, kind: old_kind }) =~= h);
}

/// Undo followed by redo restores the document: for an edit whose effect
/// is the current state, undoing it succeeds and applying it again gives
/// that state back.
pub proof fn law_undo_then_redo(e: EditView, d: DocumentView)
    requires
        d.wf(),
        done_in(e, d),
    ensures
        can_revert(e, d),
        reverted(e, d) is Ok,
        reverted(e, d)->Ok_0.wf(),
        can_apply(e, reverted(e, d)->Ok_0),
        applied(e, reverted(e, d)->Ok_0) == Ok::<DocumentView, DocumentError>(d),
{
    let h = d.records;
    match e {
        EditView::AddTool(rec) => {
            let n = h.len() - 1;
            lemma_tool_index_unique(h, rec.id, n);
            let h1 = h.remove(n);
            assert(h1 =~= h.drop_last());
            let d1 = DocumentView { records: h1, ..d };
            assert(reverted(e, d) == Ok::<DocumentView, DocumentError>(d1));
            lemma_has_tool_remove(h, n, rec.id);
            assert(d1.wf()) by {
                assert forall|a: int, b: int|
                    0 <= a < h1.len() && 0 <= b < h1.len() && a != b implies h1[a].id
                    != h1[b].id by {
                    assert(h1[a] == h[a] && h1[b] == h[b]);
                }
                assert forall|a: int| 0 <= a < h1.len() implies h1[a].id.0 < d1.next_id by {
                    assert(h1[a] == h[a]);
                }
            }
            assert(h[n].id.0 < d.next_id);
            assert(h1.insert(h1.len() as int, rec) =~= h);
        },
        EditView::RemoveTool { record: rec, index } => {
            let h1 = h.insert(index, rec);
            let d1 = DocumentView { records: h1, ..d };
            assert(reverted(e, d) == Ok::<DocumentView, DocumentError>(d1));
            assert(h1[index] == rec);
            assert(d1.wf()) by {
                assert forall|a: int, b: int|
                    0 <= a < h1.len() && 0 <= b < h1.len() && a != b implies h1[a].id
                    != h1[b].id by {
                    if a == index && b != index {
                        let bb = if b < index { b } else { b - 1 };
                        assert(h1[b] == h[bb]);
                    } else if b == index && a != index {
                        let aa = if a < index { a } else { a - 1 };
                        assert(h1[a] == h[aa]);
                    } else if a != index && b != index {
                        let aa = if a < index { a } else { a - 1 };
                        let bb = if b < index { b } else { b - 1 };
                        assert(h1[a] == h[aa] && h1[b] == h[bb]);
                    }
                }
                assert forall|a: int| 0 <= a < h1.len() implies h1[a].id.0 < d1.next_id by {
                    if a != index {
                        let aa = if a < index { a } else { a - 1 };
                        assert(h1[a] == h[aa]);
                    }
                }
            }
            lemma_first_user_none(h, rec.id);
            lemma_first_user_none(h1, rec.id);
            assert forall|j: int| 0 <= j < h1.len() implies h1[j].id == rec.id || !refs(
                h1[j].kind,
            ).contains(rec.id) by {
                if j != index {
                    let jj = if j < index { j } else { j - 1 };
                    assert(h1[j] == h[jj]);
                }
            }
            lemma_tool_index_unique(h1, rec.id, index);
            assert(h1.remove(index) =~= h);
        },
        EditView::ModifyFormula { id, old_kind, new_kind } => {
            let i = tool_index(h, id);
            let h1 = h.update(i, ToolRecordView { id, kind: old_kind });
            let d1 = DocumentView { records: h1, ..d };
            assert(h[i].id == id);
            assert forall|x: ObjectId| has_tool(h, x) <==> has_tool(h1, x) by {
                if has_tool(h, x) {
                    let j = choose|j: int| 0 <= j < h.len() && h[j].id == x;
                    assert(h1[j].id == x);
                }
                if has_tool(h1, x) {
                    let j = choose|j: int| 0 <= j < h1.len() && h1[j].id == x;
                    assert(h[j].id == x);
                }
            }
            assert(reverted(e, d) == Ok::<DocumentView, DocumentError>(d1));
            assert(ids_distinct(h1)) by {
                assert forall|a: int, b: int|
                    0 <= a < h1.len() && 0 <= b < h1.len() && a != b implies h1[a].id
                    != h1[b].id by {
                    assert(h[a].id != h[b].id);
                }
            }
            lemma_first_missing_same_ids(h, h1, refs(new_kind));
            lemma_tool_index_unique(h1, id, i);
            assert(h1.update(i, ToolRecordView { id, kind: new_kind }) =~= h);
        },
    }
}

/// Redo followed by undo restores the document: for an edit that leads on
/// from the current state, applying it succeeds and undoing it gives that
/// state back.
pub proof fn law_redo_then_undo(e: EditView, d: DocumentView)
    requires
        d.wf(),
        pending_in(e, d),
    ensures
        can_apply(e, d),
        applied(e, d) is Ok,
        applied(e, d)->Ok_0.wf(),
        can_revert(e, applied(e, d)->Ok_0),
        reverted(e, applied(e, d)->Ok_0) == Ok::<DocumentView, DocumentError>(d),
{
    let h = d.records;
    match e {
        EditView::AddTool(rec) => {
            let h1 = h.push(rec);
            let d1 = DocumentView { records: h1, ..d };
            assert(h.insert(h.len() as int, rec) =~= h1);
            assert(applied(e, d) == Ok::<DocumentView, DocumentError>(d1));
            assert(d1.wf()) by {
                assert forall|a: int, b: int|
                    0 <= a < h1.len() && 0 <= b < h1.len() && a != b implies h1[a].id
                    != h1[b].id by {
                    if a < h.len() && b < h.len() {
                        assert(h1[a] == h[a] && h1[b] == h[b]);
                    } else if a == h.len() {
                        assert(h1[b] == h[b]);
                    } else {
                        assert(h1[a] == h[a]);
                    }
                }
                assert forall|a: int| 0 <= a < h1.len() implies h1[a].id.0 < d1.next_id by {
                    if a < h.len() {
                        assert(h1[a] == h[a]);
                    }
                }
            }
            lemma_first_user_none(h, rec.id);
            lemma_first_user_none(h1, rec.id);
            assert forall|j: int| 0 <= j < h1.len() implies h1[j].id == rec.id || !refs(
                h1[j].kind,
            ).contains(rec.id) by {
                if j < h.len() {
                    assert(h1[j] == h[j]);
                }
            }
            lemma_tool_index_unique(h1, rec.id, h.len() as int);
            assert(h1.remove(h.len() as int) =~= h);
        },
        EditView::RemoveTool { record: rec, index } => {
            lemma_tool_index_unique(h, rec.id, index);
            let h1 = h.remove(index);
            let d1 = DocumentView { records: h1, ..d };
            assert(applied(e, d) == Ok::<DocumentView, DocumentError>(d1));
            assert(d1.wf()) by {
                assert forall|a: int, b: int|
                    0 <= a < h1.len() && 0 <= b < h1.len() && a != b implies h1[a].id
                    != h1[b].id by {
                    let aa = if a < index { a } else { a + 1 };
                    let bb = if b < index { b } else { b + 1 };
                    assert(h1[a] == h[aa] && h1[b] == h[bb]);
                }
                assert forall|a: int| 0 <= a < h1.len() implies h1[a].id.0 < d1.next_id by {
                    let aa = if a < index { a } else { a + 1 };
                    assert(h1[a] == h[aa]);
                }
            }
            lemma_has_tool_remove(h, index, rec.id);
            lemma_remove_insert(h, index);
        },
        EditView::ModifyFormula { id, old_kind, new_kind } => {
            let i = tool_index(h, id);
            let h1 = h.update(i, ToolRecordView { id, kind: new_kind });
            let d1 = DocumentView { records: h1, ..d };
            assert(h[i].id == id);
            assert(applied(e, d) == Ok::<DocumentView, DocumentError>(d1));
            assert forall|x: ObjectId| has_tool(h, x) <==> has_tool(h1, x) by {
                if has_tool(h, x) {
                    let j = choose|j: int| 0 <= j < h.len() && h[j].id == x;
                    assert(h1[j].id == x);
                }
                if has_tool(h1, x) {
                    let j = choose|j: int| 0 <= j < h1.len() && h1[j].id == x;
                    assert(h[j].id == x);
                }
            }
            assert(ids_distinct(h1)) by {
                assert forall|a: int, b: int|
                    0 <= a < h1.len() && 0 <= b < h1.len() && a != b implies h1[a].id
                    != h1[b].id by {
                    assert(h[a].id != h[b].id);
                }
            }
            lemma_first_missing_same_ids(h, h1, refs(old_kind));
            lemma_tool_index_unique(h1, id, i);
            assert(h1.update(i, ToolRecordView { id, kind: old_kind }) =~= h);
        },
    }
}


/// Every reference of every record names a tool of the history.
pub open spec fn refs_resolved(h: Seq<ToolRecordView>) -> bool {
    forall|j: int, x: ObjectId|
        0 <= j < h.len() && #[trigger] refs(h[j].kind).contains(x) ==> has_tool(h, x)
}

/// `d` is a document the undoable edits `u` lead to: it is well-formed,
/// its references resolve, the most recent edit is done in it and undoing
/// it succeeds, and the same holds, recursively, of the earlier edits in
/// the document that undo gives.
pub open spec fn undo_chain(u: Seq<EditView>, d: DocumentView) -> bool
    decreases u.len(),
{
    &&& d.wf()
    &&& refs_resolved(d.records)
    &&& if u.len() == 0 {
        true
    } else {
        &&& done_in(u.last(), d)
        &&& reverted(u.last(), d) is Ok
        &&& undo_chain(u.drop_last(), reverted(u.last(), d)->Ok_0)
    }
}

/// `d` is a document the redoable edits `r` lead on from: the most
/// recently undone edit is pending in it and applying it succeeds, and
/// the same holds, recursively, of the others in the document that redo
/// gives.
pub open spec fn redo_chain(r: Seq<EditView>, d: DocumentView) -> bool
    decreases r.len(),
{
    &&& d.wf()
    &&& refs_resolved(d.records)
    &&& if r.len() == 0 {
        true
    } else {
        &&& pending_in(r.last(), d)
        &&& applied(r.last(), d) is Ok
        &&& redo_chain(r.drop_last(), applied(r.last(), d)->Ok_0)
    }
}

/// The undo history `s` belongs to the document `d`: every undoable edit
/// is done in the document reached by undoing the later ones, and every
/// redoable edit leads on from the document reached by redoing the later
/// ones. Every stack that the `do_*` edits, `undo` and `redo` build from
/// an empty one keeps this.
pub open spec fn history_matches(s: UndoStackView, d: DocumentView) -> bool {
    undo_chain(s.undo, d) && redo_chain(s.redo, d)
}

/// One call of [`UndoStack::undo`] on the stack `s` and the document `d`:
/// the resulting stack and document.
pub open spec fn undo_step(s: UndoStackView, d: DocumentView) -> (UndoStackView, DocumentView) {
    if s.undo.len() == 0 {
        (s, d)
    } else {
        match reverted(s.undo.last(), d) {
            Ok(d1) => (UndoStackView { undo: s.undo.drop_last(), redo: s.redo.push(s.undo.last()) }, d1),
            Err(_) => (UndoStackView { undo: s.undo.drop_last(), redo: s.redo }, d),
        }
    }
}

/// One call of [`UndoStack::redo`] on the stack `s` and the document `d`:
/// the resulting stack and document.
pub open spec fn redo_step(s: UndoStackView, d: DocumentView) -> (UndoStackView, DocumentView) {
    if s.redo.len() == 0 {
        (s, d)
    } else {
        match applied(s.redo.last(), d) {
            Ok(d1) => (UndoStackView { undo: s.undo.push(s.redo.last()), redo: s.redo.drop_last() }, d1),
            Err(_) => (UndoStackView { undo: s.undo, redo: s.redo.drop_last() }, d),
        }
    }
}

/// `k` calls of `undo` in a row.
pub open spec fn undo_steps(s: UndoStackView, d: DocumentView, k: nat) -> (UndoStackView, DocumentView)
    decreases k,
{
    if k == 0 {
        (s, d)
    } else {
        let (s1, d1) = undo_step(s, d);
        undo_steps(s1, d1, (k - 1) as nat)
    }
}

/// `k` calls of `redo` in a row.
pub open spec fn redo_steps(s: UndoStackView, d: DocumentView, k: nat) -> (UndoStackView, DocumentView)
    decreases k,
{
    if k == 0 {
        (s, d)
    } else {
        let (s1, d1) = redo_steps(s, d, (k - 1) as nat);
        redo_step(s1, d1)
    }
}

/// Replacing a record by one with the same id keeps the set of ids.
proof fn lemma_update_same_ids(h: Seq<ToolRecordView>, i: int, r: ToolRecordView)
    requires
        0 <= i < h.len(),
        r.id == h[i].id,
    ensures
        forall|x: ObjectId| has_tool(h, x) <==> #[trigger] has_tool(h.update(i, r), x),
{
    let g = h.update(i, r);
    assert forall|x: ObjectId| has_tool(h, x) <==> #[trigger] has_tool(g, x) by {
        if has_tool(h, x) {
            let j = choose|j: int| 0 <= j < h.len() && h[j].id == x;
            assert(g[j].id == x);
        }
        if has_tool(g, x) {
            let j = choose|j: int| 0 <= j < g.len() && g[j].id == x;
            assert(h[j].id == x);
        }
    }
}

/// In a history whose references resolve, every record's references are
/// all present.
proof fn lemma_resolved_refs_present(h: Seq<ToolRecordView>, j: int)
    requires
        refs_resolved(h),
        0 <= j < h.len(),
    ensures
        first_missing(h, refs(h[j].kind)) is None,
{
    let deps = refs(h[j].kind);
    assert forall|k: int| 0 <= k < deps.len() implies has_tool(h, deps[k]) by {
        assert(deps.contains(deps[k]));
    }
    lemma_first_missing_none(h, deps);
}

/// In a history whose references resolve, nothing uses an absent id.
proof fn lemma_absent_unused(h: Seq<ToolRecordView>, x: ObjectId)
    requires
        refs_resolved(h),
        !has_tool(h, x),
    ensures
        first_user(h, x) is None,
{
    assert forall|j: int| 0 <= j < h.len() implies h[j].id == x || !refs(h[j].kind).contains(x) by {
        if refs(h[j].kind).contains(x) {
            assert(has_tool(h, x));
        }
    }
    lemma_first_user_none(h, x);
}

/// Undoing an edit that is done in `d` leaves a document in which it is
/// pending.
proof fn lemma_done_then_pending(e: EditView, d: DocumentView)
    requires
        d.wf(),
        done_in(e, d),
    ensures
        reverted(e, d) is Ok,
        pending_in(e, reverted(e, d)->Ok_0),
{
    law_undo_then_redo(e, d);
    let d1 = reverted(e, d)->Ok_0;
    let h = d.records;
    let h1 = d1.records;
    match e {
        EditView::AddTool(rec) => {
            let n = h.len() - 1;
            lemma_tool_index_unique(h, rec.id, n);
            assert(h1 == h.remove(n));
            lemma_has_tool_remove(h, n, rec.id);
            lemma_first_user_none(h, rec.id);
            assert forall|j: int| 0 <= j < h1.len() implies h1[j].id == rec.id || !refs(
                h1[j].kind,
            ).contains(rec.id) by {
                assert(h1[j] == h[j]);
            }
            lemma_first_user_none(h1, rec.id);
        },
        EditView::RemoveTool { record: rec, index } => {
            assert(h1 == h.insert(index, rec));
            lemma_first_user_none(h, rec.id);
            assert forall|j: int| 0 <= j < h1.len() implies h1[j].id == rec.id || !refs(
                h1[j].kind,
            ).contains(rec.id) by {
                if j != index {
                    let jj = if j < index { j } else { j - 1 };
                    assert(h1[j] == h[jj]);
                }
            }
            lemma_first_user_none(h1, rec.id);
        },
        EditView::ModifyFormula { id, old_kind, new_kind } => {
            let i = tool_index(h, id);
            assert(h[i].id == id);
            assert(h1 == h.update(i, ToolRecordView { id, kind: old_kind }));
            lemma_update_same_ids(h, i, ToolRecordView { id, kind: old_kind });
            lemma_tool_index_unique(h1, id, i);
            lemma_first_missing_same_ids(h, h1, refs(old_kind));
            lemma_first_missing_same_ids(h, h1, refs(new_kind));
        },
    }
}

/// Redoing an edit that is pending in `d` leaves a document in which it
/// is done.
proof fn lemma_pending_then_done(e: EditView, d: DocumentView)
    requires
        d.wf(),
        pending_in(e, d),
    ensures
        applied(e, d) is Ok,
        done_in(e, applied(e, d)->Ok_0),
{
    law_redo_then_undo(e, d);
    let d1 = applied(e, d)->Ok_0;
    let h = d.records;
    let h1 = d1.records;
    match e {
        EditView::AddTool(rec) => {
            assert(h1 == h.insert(h.len() as int, rec));
            lemma_first_user_none(h, rec.id);
            assert forall|j: int| 0 <= j < h1.len() implies h1[j].id == rec.id || !refs(
                h1[j].kind,
            ).contains(rec.id) by {
                if j < h.len() {
                    assert(h1[j] == h[j]);
                }
            }
            lemma_first_user_none(h1, rec.id);
        },
        EditView::RemoveTool { record: rec, index } => {
            lemma_tool_index_unique(h, rec.id, index);
            assert(h1 == h.remove(index));
            lemma_has_tool_remove(h, index, rec.id);
            lemma_first_user_none(h, rec.id);
            assert forall|j: int| 0 <= j < h1.len() implies h1[j].id == rec.id || !refs(
                h1[j].kind,
            ).contains(rec.id) by {
                let jj = if j < index { j } else { j + 1 };
                assert(h1[j] == h[jj]);
            }
            lemma_first_user_none(h1, rec.id);
        },
        EditView::ModifyFormula { id, old_kind, new_kind } => {
            let i = tool_index(h, id);
            assert(h[i].id == id);
            assert(h1 == h.update(i, ToolRecordView { id, kind: new_kind }));
            lemma_update_same_ids(h, i, ToolRecordView { id, kind: new_kind });
            lemma_tool_index_unique(h1, id, i);
            lemma_first_missing_same_ids(h, h1, refs(old_kind));
            lemma_first_missing_same_ids(h, h1, refs(new_kind));
        },
    }
}

/// A larger id counter keeps a document in the chain of the same edits.
proof fn lemma_undo_chain_bump(u: Seq<EditView>, d: DocumentView, n: nat)
    requires
        undo_chain(u, d),
        d.next_id <= n <= u32::MAX,
    ensures
        undo_chain(u, DocumentView { next_id: n, ..d }),
    decreases u.len(),
{
    let dn = DocumentView { next_id: n, ..d };
    if u.len() > 0 {
        let e = u.last();
        let d1 = reverted(e, d)->Ok_0;
        let d1n = DocumentView { next_id: n, ..d1 };
        assert(d1.next_id == d.next_id);
        assert(reverted(e, dn) == Ok::<DocumentView, DocumentError>(d1n));
        lemma_undo_chain_bump(u.drop_last(), d1, n);
    }
}

/// Undoing on a matching history succeeds, and the history that results
/// matches the document that results.
proof fn lemma_undo_keeps(s: UndoStackView, d: DocumentView)
    requires
        history_matches(s, d),
        s.undo.len() > 0,
    ensures
        can_revert(s.undo.last(), d),
        reverted(s.undo.last(), d) is Ok,
        history_matches(undo_step(s, d).0, undo_step(s, d).1),
{
    let e = s.undo.last();
    law_undo_then_redo(e, d);
    lemma_done_then_pending(e, d);
    let d1 = reverted(e, d)->Ok_0;
    let r1 = s.redo.push(e);
    assert(undo_chain(s.undo.drop_last(), d1));
    assert(d1.wf() && refs_resolved(d1.records));
    assert(applied(e, d1) == Ok::<DocumentView, DocumentError>(d));
    assert(r1.drop_last() =~= s.redo);
    assert(r1.last() == e);
    assert(redo_chain(r1, d1));
    assert(undo_step(s, d) == (UndoStackView { undo: s.undo.drop_last(), redo: r1 }, d1));
}

/// Redoing on a matching history succeeds, and the history that results
/// matches the document that results.
proof fn lemma_redo_keeps(s: UndoStackView, d: DocumentView)
    requires
        history_matches(s, d),
        s.redo.len() > 0,
    ensures
        can_apply(s.redo.last(), d),
        applied(s.redo.last(), d) is Ok,
        history_matches(redo_step(s, d).0, redo_step(s, d).1),
{
    let e = s.redo.last();
    law_redo_then_undo(e, d);
    lemma_pending_then_done(e, d);
    let d1 = applied(e, d)->Ok_0;
    let u1 = s.undo.push(e);
    assert(redo_chain(s.redo.drop_last(), d1));
    assert(d1.wf() && refs_resolved(d1.records));
    assert(reverted(e, d1) == Ok::<DocumentView, DocumentError>(d));
    assert(u1.drop_last() =~= s.undo);
    assert(u1.last() == e);
    assert(undo_chain(u1, d1));
    assert(redo_step(s, d) == (UndoStackView { undo: u1, redo: s.redo.drop_last() }, d1));
}

/// Recording an addition keeps the history matching the document.
proof fn lemma_add_keeps(s: UndoStackView, d: DocumentView, kind: ToolKindView)
    requires
        history_matches(s, d),
        d.next_id < u32::MAX,
        first_missing(d.records, refs(kind)) is None,
        d.with_tool(kind).wf(),
    ensures
        history_matches(
            s.recorded(EditView::AddTool(ToolRecordView { id: ObjectId(d.next_id as u32), kind })),
            d.with_tool(kind),
        ),
{
    let id = ObjectId(d.next_id as u32);
    let rec = ToolRecordView { id, kind };
    let e = EditView::AddTool(rec);
    let h = d.records;
    let d2 = d.with_tool(kind);
    let h2 = d2.records;
    assert(h2 == h.push(rec));
    lemma_first_missing_none(h, refs(kind));
    assert(!has_tool(h, id)) by {
        if has_tool(h, id) {
            let k = choose|k: int| 0 <= k < h.len() && h[k].id == id;
            assert(h[k].id.0 < d.next_id);
        }
    }
    assert forall|j: int, x: ObjectId|
        0 <= j < h2.len() && #[trigger] refs(h2[j].kind).contains(x) implies has_tool(h2, x) by {
        if j < h.len() {
            assert(h2[j] == h[j]);
        } else {
            let k = choose|k: int| 0 <= k < refs(kind).len() && refs(kind)[k] == x;
        }
        assert(has_tool(h, x));
        let m = choose|m: int| 0 <= m < h.len() && h[m].id == x;
        assert(h2[m] == h[m]);
    }
    lemma_absent_unused(h, id);
    law_undo_add_restores(d, kind);
    lemma_first_user_none(h, id);
    assert forall|j: int| 0 <= j < h2.len() implies h2[j].id == id || !refs(h2[j].kind).contains(id) by {
        if j < h.len() {
            assert(h2[j] == h[j]);
        } else if refs(h2[j].kind).contains(id) {
            let k = choose|k: int| 0 <= k < refs(kind).len() && refs(kind)[k] == id;
        }
    }
    lemma_first_user_none(h2, id);
    lemma_undo_chain_bump(s.undo, d, d.next_id + 1);
    let u2 = s.undo.push(e);
    assert(u2.drop_last() =~= s.undo);
    assert(u2.last() == e);
}

/// Recording a removal keeps the history matching the document.
proof fn lemma_remove_keeps(s: UndoStackView, d: DocumentView, id: ObjectId)
    requires
        history_matches(s, d),
        d.removed(id) is Ok,
        d.removed(id)->Ok_0.0.wf(),
    ensures
        ({
            let (d2, rec, i) = d.removed(id)->Ok_0;
            history_matches(s.recorded(EditView::RemoveTool { record: rec, index: i }), d2)
        }),
{
    let (d2, rec, i) = d.removed(id)->Ok_0;
    let e = EditView::RemoveTool { record: rec, index: i };
    let h = d.records;
    let h2 = d2.records;
    law_undo_remove_restores(d, id);
    assert(i == tool_index(h, id));
    assert(h[i].id == id);
    lemma_first_user_none(h, id);
    assert forall|j: int, x: ObjectId|
        0 <= j < h2.len() && #[trigger] refs(h2[j].kind).contains(x) implies has_tool(h2, x) by {
        let jj = if j < i { j } else { j + 1 };
        assert(h2[j] == h[jj]);
        assert(refs(h[jj].kind).contains(x));
        assert(h[jj].id != id);
        lemma_has_tool_remove(h, i, x);
    }
    lemma_has_tool_remove(h, i, id);
    lemma_absent_unused(h2, id);
    let u2 = s.undo.push(e);
    assert(u2.drop_last() =~= s.undo);
    assert(u2.last() == e);
}

/// Recording a replacement of a tool's kind keeps the history matching
/// the document.
proof fn lemma_modify_keeps(s: UndoStackView, d: DocumentView, id: ObjectId, kind: ToolKindView)
    requires
        history_matches(s, d),
        d.replaced(id, kind) is Ok,
        d.replaced(id, kind)->Ok_0.0.wf(),
    ensures
        ({
            let (d2, old_kind) = d.replaced(id, kind)->Ok_0;
            history_matches(
                s.recorded(EditView::ModifyFormula { id, old_kind, new_kind: kind }),
                d2,
            )
        }),
{
    let (d2, old_kind) = d.replaced(id, kind)->Ok_0;
    let e = EditView::ModifyFormula { id, old_kind, new_kind: kind };
    let h = d.records;
    let h2 = d2.records;
    let i = tool_index(h, id);
    assert(h[i].id == id);
    assert(h2 == h.update(i, ToolRecordView { id, kind }));
    lemma_update_same_ids(h, i, ToolRecordView { id, kind });
    lemma_resolved_refs_present(h, i);
    law_undo_modify_restores(d, id, kind);
    lemma_first_missing_none(h, refs(kind));
    assert forall|j: int, x: ObjectId|
        0 <= j < h2.len() && #[trigger] refs(h2[j].kind).contains(x) implies has_tool(h2, x) by {
        if j == i {
            let k = choose|k: int| 0 <= k < refs(kind).len() && refs(kind)[k] == x;
            assert(has_tool(h, x));
        } else {
            assert(h2[j] == h[j]);
            assert(refs(h[j].kind).contains(x));
            assert(has_tool(h, x));
        }
    }
    lemma_tool_index_unique(h2, id, i);
    lemma_first_missing_same_ids(h, h2, refs(old_kind));
    lemma_first_missing_same_ids(h, h2, refs(kind));
    let u2 = s.undo.push(e);
    assert(u2.drop_last() =~= s.undo);
    assert(u2.last() == e);
}

/// An empty history matches every well-formed document whose references
/// resolve, such as a new document.
pub proof fn law_empty_history_matches(d: DocumentView)
    requires
        d.wf(),
        refs_resolved(d.records),
    ensures
        history_matches(UndoStackView { undo: Seq::empty(), redo: Seq::empty() }, d),
{
}

/// Redo after undo: on a history that matches its document, an undo
/// succeeds, and a redo right after it gives back exactly the stack and
/// the document from before the undo.
pub proof fn law_redo_after_undo(s: UndoStackView, d: DocumentView)
    requires
        history_matches(s, d),
        s.undo.len() > 0,
    ensures
        reverted(s.undo.last(), d) is Ok,
        history_matches(undo_step(s, d).0, undo_step(s, d).1),
        redo_step(undo_step(s, d).0, undo_step(s, d).1) == (s, d),
{
    let e = s.undo.last();
    lemma_undo_keeps(s, d);
    law_undo_then_redo(e, d);
    let (s1, d1) = undo_step(s, d);
    assert(s1.redo.last() == e);
    assert(s1.undo.push(e) =~= s.undo);
    assert(s1.redo.drop_last() =~= s.redo);
}

/// Undo all, then redo all: on a history that matches its document, `k`
/// undos (no more than there are undoable edits) followed by `k` redos
/// give back exactly the stack and the document they started from, and
/// every intermediate history matches its document.
pub proof fn law_undo_k_then_redo_k(s: UndoStackView, d: DocumentView, k: nat)
    requires
        history_matches(s, d),
        k <= s.undo.len(),
    ensures
        history_matches(undo_steps(s, d, k).0, undo_steps(s, d, k).1),
        redo_steps(undo_steps(s, d, k).0, undo_steps(s, d, k).1, k) == (s, d),
    decreases k,
{
    if k > 0 {
        law_redo_after_undo(s, d);
        let (s1, d1) = undo_step(s, d);
        law_undo_k_then_redo_k(s1, d1, (k - 1) as nat);
        let (s2, d2) = undo_steps(s, d, k);
        assert((s2, d2) == undo_steps(s1, d1, (k - 1) as nat));
        assert(redo_steps(s2, d2, (k - 1) as nat) == (s1, d1));
    }
}

} // verus!
