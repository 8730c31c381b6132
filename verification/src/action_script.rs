//! Action scripts: a list of drafting instructions that name points by the
//! names earlier instructions gave them, replayed against a document.
//! Reading the script and the files it refers to is left to the caller;
//! this module resolves names and applies the instructions.
use vstd::prelude::*;

use crate::document::{
    has_tool, tool_index, Document, DocumentError, DocumentView, PieceNode, ToolKind,
    ToolKindView, ToolRecordView, records_view,
};
use crate::error::PatternError;
use crate::id::ObjectId;
use crate::scalar::Real;
use crate::text::str_equals;
use crate::variable::{table_without_kind, VariableKind, VariableView};
use crate::document::with_measurements;

verus! {

/// One instruction of an action script, naming points by the names
/// earlier actions (or a loaded pattern) gave them; ids are assigned when
/// the script runs.
#[derive(Debug, Clone, PartialEq)]
pub enum Action {
    /// Adds a literal starting point.
    AddBasePoint { name: String, x: Real, y: Real },
    /// Adds a point at an angle and length from a named point.
    AddEndLine { name: String, base_point: String, angle_formula: String, length_formula: String },
    /// Adds a line between two named points; it introduces no name.
    AddLine { p1: String, p2: String },
    /// Adds a point along the direction from `p1` toward `p2`.
    AddAlongLine { name: String, p1: String, p2: String, length_formula: String },
    /// Adds a point perpendicular to the line `p1`-`p2`.
    AddNormal { name: String, p1: String, p2: String, length_formula: String, angle_formula: String },
    /// Adds a point on the bisector of the angle `p1`-`p2`-`p3`.
    AddBisector { name: String, p1: String, p2: String, p3: String, length_formula: String },
    /// Adds the foot of the perpendicular from `point` onto a line.
    AddHeight { name: String, point: String, line_p1: String, line_p2: String },
    /// Adds the midpoint of two named points.
    AddMidpoint { name: String, p1: String, p2: String },
    /// Removes the named tool from the document in place.
    RemoveTool { name: String },
    /// Moves the named base point; an absent coordinate keeps its current value.
    ModifyBasePoint { name: String, x: Option<Real>, y: Option<Real> },
    /// Changes the named end-line point's formulas; an absent one keeps its current text.
    ModifyEndLine { name: String, angle_formula: Option<String>, length_formula: Option<String> },
    /// Adds a shoulder point.
    AddShoulderPoint { name: String, p1_line: String, p2_line: String, shoulder: String, length_formula: String },
    /// Adds the crossing of two lines.
    AddLineIntersect { name: String, p1_line1: String, p2_line1: String, p1_line2: String, p2_line2: String },
    /// Adds the point with `p1`'s x and `p2`'s y.
    AddPointOfIntersection { name: String, p1: String, p2: String },
    /// Adds the right-angle point of a hypotenuse on an axis.
    AddTriangle { name: String, axis_p1: String, axis_p2: String, hypotenuse_p1: String, hypotenuse_p2: String },
    /// Adds where a circle around `center` crosses the segment `p1`-`p2`.
    AddPointOfContact { name: String, center: String, p1: String, p2: String, radius_formula: String },
    /// Adds a piece through the named points, in order; no node is excluded from the seam allowance.
    AddPiece { name: String, points: Vec<String>, seam_allowance_formula: String },
}

/// The mathematical content of an [`Action`].
pub enum ActionView {
    AddBasePoint { name: Seq<char>, x: Real, y: Real },
    AddEndLine { name: Seq<char>, base_point: Seq<char>, angle_formula: Seq<char>, length_formula: Seq<char> },
    AddLine { p1: Seq<char>, p2: Seq<char> },
    AddAlongLine { name: Seq<char>, p1: Seq<char>, p2: Seq<char>, length_formula: Seq<char> },
    AddNormal { name: Seq<char>, p1: Seq<char>, p2: Seq<char>, length_formula: Seq<char>, angle_formula: Seq<char> },
    AddBisector { name: Seq<char>, p1: Seq<char>, p2: Seq<char>, p3: Seq<char>, length_formula: Seq<char> },
    AddHeight { name: Seq<char>, point: Seq<char>, line_p1: Seq<char>, line_p2: Seq<char> },
    AddMidpoint { name: Seq<char>, p1: Seq<char>, p2: Seq<char> },
    RemoveTool { name: Seq<char> },
    ModifyBasePoint { name: Seq<char>, x: Option<Real>, y: Option<Real> },
    ModifyEndLine { name: Seq<char>, angle_formula: Option<Seq<char>>, length_formula: Option<Seq<char>> },
    AddShoulderPoint { name: Seq<char>, p1_line: Seq<char>, p2_line: Seq<char>, shoulder: Seq<char>, length_formula: Seq<char> },
    AddLineIntersect { name: Seq<char>, p1_line1: Seq<char>, p2_line1: Seq<char>, p1_line2: Seq<char>, p2_line2: Seq<char> },
    AddPointOfIntersection { name: Seq<char>, p1: Seq<char>, p2: Seq<char> },
    AddTriangle { name: Seq<char>, axis_p1: Seq<char>, axis_p2: Seq<char>, hypotenuse_p1: Seq<char>, hypotenuse_p2: Seq<char> },
    AddPointOfContact { name: Seq<char>, center: Seq<char>, p1: Seq<char>, p2: Seq<char>, radius_formula: Seq<char> },
    AddPiece { name: Seq<char>, points: Seq<Seq<char>>, seam_allowance_formula: Seq<char> },
}

impl View for Action {
    type V = ActionView;

    open spec fn view(&self) -> ActionView {
        match self {
            Action::AddBasePoint { name, x, y } => ActionView::AddBasePoint { name: name@, x: *x, y: *y },
            Action::AddEndLine { name, base_point, angle_formula, length_formula } => ActionView::AddEndLine { name: name@, base_point: base_point@, angle_formula: angle_formula@, length_formula: length_formula@ },
            Action::AddLine { p1, p2 } => ActionView::AddLine { p1: p1@, p2: p2@ },
            Action::AddAlongLine { name, p1, p2, length_formula } => ActionView::AddAlongLine { name: name@, p1: p1@, p2: p2@, length_formula: length_formula@ },
            Action::AddNormal { name, p1, p2, length_formula, angle_formula } => ActionView::AddNormal { name: name@, p1: p1@, p2: p2@, length_formula: length_formula@, angle_formula: angle_formula@ },
            Action::AddBisector { name, p1, p2, p3, length_formula } => ActionView::AddBisector { name: name@, p1: p1@, p2: p2@, p3: p3@, length_formula: length_formula@ },
            Action::AddHeight { name, point, line_p1, line_p2 } => ActionView::AddHeight { name: name@, point: point@, line_p1: line_p1@, line_p2: line_p2@ },
            Action::AddMidpoint { name, p1, p2 } => ActionView::AddMidpoint { name: name@, p1: p1@, p2: p2@ },
            Action::RemoveTool { name } => ActionView::RemoveTool { name: name@ },
            Action::ModifyBasePoint { name, x, y } => ActionView::ModifyBasePoint { name: name@, x: *x, y: *y },
            Action::ModifyEndLine { name, angle_formula, length_formula } => ActionView::ModifyEndLine { name: name@, angle_formula: match angle_formula { Some(s) => Some(s@), None => None }, length_formula: match length_formula { Some(s) => Some(s@), None => None } },
            Action::AddShoulderPoint { name, p1_line, p2_line, shoulder, length_formula } => ActionView::AddShoulderPoint { name: name@, p1_line: p1_line@, p2_line: p2_line@, shoulder: shoulder@, length_formula: length_formula@ },
            Action::AddLineIntersect { name, p1_line1, p2_line1, p1_line2, p2_line2 } => ActionView::AddLineIntersect { name: name@, p1_line1: p1_line1@, p2_line1: p2_line1@, p1_line2: p1_line2@, p2_line2: p2_line2@ },
            Action::AddPointOfIntersection { name, p1, p2 } => ActionView::AddPointOfIntersection { name: name@, p1: p1@, p2: p2@ },
            Action::AddTriangle { name, axis_p1, axis_p2, hypotenuse_p1, hypotenuse_p2 } => ActionView::AddTriangle { name: name@, axis_p1: axis_p1@, axis_p2: axis_p2@, hypotenuse_p1: hypotenuse_p1@, hypotenuse_p2: hypotenuse_p2@ },
            Action::AddPointOfContact { name, center, p1, p2, radius_formula } => ActionView::AddPointOfContact { name: name@, center: center@, p1: p1@, p2: p2@, radius_formula: radius_formula@ },
            Action::AddPiece { name, points, seam_allowance_formula } => ActionView::AddPiece { name: name@, points: strings_view(points@), seam_allowance_formula: seam_allowance_formula@ },
        }
    }
}

/// One action's effect on the document and the name table, or the
/// failure that stops the script. A new name is checked for a clash first,
/// then the referenced names are resolved in order, then the document's
/// own checks run.
#[verifier::opaque]
pub open spec fn step_spec(
    doc: DocumentView,
    names: Seq<(Seq<char>, ObjectId)>,
    a: ActionView,
) -> Result<(DocumentView, Seq<(Seq<char>, ObjectId)>), ScriptFailure> {
    match a {
        ActionView::AddBasePoint { name, x, y } => if has_key(names, name) {
            Err(ScriptFailure::DuplicateName(name))
        } else {
            add_named(doc, names, Some(name), ToolKindView::BasePoint { name, x, y })
        },
        ActionView::AddEndLine { name, base_point, angle_formula, length_formula } => if has_key(names, name) {
            Err(ScriptFailure::DuplicateName(name))
        } else {
            match resolve_all(names, seq![base_point]) {
                Err(f) => Err(f),
                Ok(ids) => add_named(doc, names, Some(name), ToolKindView::EndLine { name, base_point: ids[0], angle_formula, length_formula }),
            }
        },
        ActionView::AddLine { p1, p2 } => match resolve_all(names, seq![p1, p2]) {
                Err(f) => Err(f),
                Ok(ids) => add_named(doc, names, None, ToolKindView::Line { p1: ids[0], p2: ids[1] }),
            },
        ActionView::AddAlongLine { name, p1, p2, length_formula } => if has_key(names, name) {
            Err(ScriptFailure::DuplicateName(name))
        } else {
            match resolve_all(names, seq![p1, p2]) {
                Err(f) => Err(f),
                Ok(ids) => add_named(doc, names, Some(name), ToolKindView::AlongLine { name, p1: ids[0], p2: ids[1], length_formula }),
            }
        },
        ActionView::AddNormal { name, p1, p2, length_formula, angle_formula } => if has_key(names, name) {
            Err(ScriptFailure::DuplicateName(name))
        } else {
            match resolve_all(names, seq![p1, p2]) {
                Err(f) => Err(f),
                Ok(ids) => add_named(doc, names, Some(name), ToolKindView::Normal { name, p1: ids[0], p2: ids[1], length_formula, angle_formula }),
            }
        },
        ActionView::AddBisector { name, p1, p2, p3, length_formula } => if has_key(names, name) {
            Err(ScriptFailure::DuplicateName(name))
        } else {
            match resolve_all(names, seq![p1, p2, p3]) {
                Err(f) => Err(f),
                Ok(ids) => add_named(doc, names, Some(name), ToolKindView::Bisector { name, p1: ids[0], p2: ids[1], p3: ids[2], length_formula }),
            }
        },
        ActionView::AddHeight { name, point, line_p1, line_p2 } => if has_key(names, name) {
            Err(ScriptFailure::DuplicateName(name))
        } else {
            match resolve_all(names, seq![point, line_p1, line_p2]) {
                Err(f) => Err(f),
                Ok(ids) => add_named(doc, names, Some(name), ToolKindView::Height { name, point: ids[0], line_p1: ids[1], line_p2: ids[2] }),
            }
        },
        ActionView::AddMidpoint { name, p1, p2 } => if has_key(names, name) {
            Err(ScriptFailure::DuplicateName(name))
        } else {
            match resolve_all(names, seq![p1, p2]) {
                Err(f) => Err(f),
                Ok(ids) => add_named(doc, names, Some(name), ToolKindView::Midpoint { name, p1: ids[0], p2: ids[1] }),
            }
        },
        ActionView::RemoveTool { name } => match lookup(names, name) {
            None => Err(ScriptFailure::UnknownPointName(name)),
            Some(id) => match doc.removed(id) {
                Err(e) => Err(ScriptFailure::Document(e)),
                Ok(t) => Ok((t.0, name_removed(names, name))),
            },
        },
        ActionView::ModifyBasePoint { name, x, y } => match lookup(names, name) {
            None => Err(ScriptFailure::UnknownPointName(name)),
            Some(id) => if !has_tool(doc.records, id) {
                Err(ScriptFailure::Document(DocumentError::ToolNotFound(id)))
            } else {
                let current = doc.records[tool_index(doc.records, id)].kind;
                match current {
                    ToolKindView::BasePoint { name: n, x: cx, y: cy } => match doc.replaced(
                        id,
                        ToolKindView::BasePoint { name: n, x: or_keep(x, cx), y: or_keep(y, cy) },
                    ) {
                        Err(e) => Err(ScriptFailure::Document(e)),
                        Ok(t) => Ok((t.0, names)),
                    },
                    _ => Err(
                        ScriptFailure::WrongToolType {
                            name,
                            expected: "BasePoint"@,
                            found: variant_name(current),
                        },
                    ),
                }
            },
        },
        ActionView::ModifyEndLine { name, angle_formula, length_formula } => match lookup(names, name) {
            None => Err(ScriptFailure::UnknownPointName(name)),
            Some(id) => if !has_tool(doc.records, id) {
                Err(ScriptFailure::Document(DocumentError::ToolNotFound(id)))
            } else {
                let current = doc.records[tool_index(doc.records, id)].kind;
                match current {
                    ToolKindView::EndLine { name: n, base_point, angle_formula: ca, length_formula: cl } =>
                        match doc.replaced(
                        id,
                        ToolKindView::EndLine {
                            name: n,
                            base_point,
                            angle_formula: or_keep(angle_formula, ca),
                            length_formula: or_keep(length_formula, cl),
                        },
                    ) {
                        Err(e) => Err(ScriptFailure::Document(e)),
                        Ok(t) => Ok((t.0, names)),
                    },
                    _ => Err(
                        ScriptFailure::WrongToolType {
                            name,
                            expected: "EndLine"@,
                            found: variant_name(current),
                        },
                    ),
                }
            },
        },
        ActionView::AddShoulderPoint { name, p1_line, p2_line, shoulder, length_formula } => if has_key(names, name) {
            Err(ScriptFailure::DuplicateName(name))
        } else {
            match resolve_all(names, seq![p1_line, p2_line, shoulder]) {
                Err(f) => Err(f),
                Ok(ids) => add_named(doc, names, Some(name), ToolKindView::ShoulderPoint { name, p1_line: ids[0], p2_line: ids[1], shoulder: ids[2], length_formula }),
            }
        },
        ActionView::AddLineIntersect { name, p1_line1, p2_line1, p1_line2, p2_line2 } => if has_key(names, name) {
            Err(ScriptFailure::DuplicateName(name))
        } else {
            match resolve_all(names, seq![p1_line1, p2_line1, p1_line2, p2_line2]) {
                Err(f) => Err(f),
                Ok(ids) => add_named(doc, names, Some(name), ToolKindView::LineIntersect { name, p1_line1: ids[0], p2_line1: ids[1], p1_line2: ids[2], p2_line2: ids[3] }),
            }
        },
        ActionView::AddPointOfIntersection { name, p1, p2 } => if has_key(names, name) {
            Err(ScriptFailure::DuplicateName(name))
        } else {
            match resolve_all(names, seq![p1, p2]) {
                Err(f) => Err(f),
                Ok(ids) => add_named(doc, names, Some(name), ToolKindView::PointOfIntersection { name, p1: ids[0], p2: ids[1] }),
            }
        },
        ActionView::AddTriangle { name, axis_p1, axis_p2, hypotenuse_p1, hypotenuse_p2 } => if has_key(names, name) {
            Err(ScriptFailure::DuplicateName(name))
        } else {
            match resolve_all(names, seq![axis_p1, axis_p2, hypotenuse_p1, hypotenuse_p2]) {
                Err(f) => Err(f),
                Ok(ids) => add_named(doc, names, Some(name), ToolKindView::Triangle { name, axis_p1: ids[0], axis_p2: ids[1], hypotenuse_p1: ids[2], hypotenuse_p2: ids[3] }),
            }
        },
        ActionView::AddPointOfContact { name, center, p1, p2, radius_formula } => if has_key(names, name) {
            Err(ScriptFailure::DuplicateName(name))
        } else {
            match resolve_all(names, seq![center, p1, p2]) {
                Err(f) => Err(f),
                Ok(ids) => add_named(doc, names, Some(name), ToolKindView::PointOfContact { name, center: ids[0], p1: ids[1], p2: ids[2], radius_formula }),
            }
        },
        ActionView::AddPiece { name, points, seam_allowance_formula } => if has_key(names, name) {
            Err(ScriptFailure::DuplicateName(name))
        } else {
            match resolve_all(names, points) {
                Err(f) => Err(f),
                Ok(ids) => add_named(doc, names, Some(name), ToolKindView::Piece { name, nodes: as_nodes(ids), seam_allowance_formula }),
            }
        },
    }
}
/// A whole action script: optional paths of a measurement file and of a
/// pattern to start from, and the actions to replay in order.
#[derive(Debug, Clone, PartialEq)]
pub struct ActionScript {
    /// Measurements applied before any action runs.
    pub measurements_path: Option<String>,
    /// A pattern to start from instead of an empty document.
    pub load_pattern_path: Option<String>,
    /// The actions, in order; later ones may name points earlier ones made.
    pub actions: Vec<Action>,
}

impl ActionScript {
    /// The measurement file to apply: the script's own path when it has
    /// one, otherwise the one the loaded pattern refers to.
    pub fn measurements_source(&self, embedded: Option<String>) -> (r: Option<String>)
        ensures
            match self.measurements_path {
                Some(p) => r matches Some(q) && q@ == p@,
                None => r == embedded,
            },
    {
        match &self.measurements_path {
            Some(p) => Some(p.clone()),
            None => embedded,
        }
    }
}

/// Everything that can stop an action script once its files are read.
#[derive(Debug, Clone, PartialEq)]
pub enum ActionScriptError {
    /// An action named a point no earlier action (or the loaded pattern)
    /// defined.
    UnknownPointName(String),
    /// An action introduces a name that is already in use.
    DuplicateName(String),
    /// The document refused to add a tool.
    Pattern(PatternError),
    /// The document refused to remove or modify a tool.
    Document(DocumentError),
    /// A `modify_*` action named a tool of another kind.
    WrongToolType { name: String, expected: String, found: String },
}

/// The failures of a script, as values.
pub enum ScriptFailure {
    UnknownPointName(Seq<char>),
    DuplicateName(Seq<char>),
    MissingDependency(ObjectId),
    Document(DocumentError),
    WrongToolType { name: Seq<char>, expected: Seq<char>, found: Seq<char> },
}

/// `e` is the error value reporting failure `f`.
pub open spec fn fails_with(e: ActionScriptError, f: ScriptFailure) -> bool {
    match f {
        ScriptFailure::UnknownPointName(n) => e matches ActionScriptError::UnknownPointName(s)
            && s@ == n,
        ScriptFailure::DuplicateName(n) => e matches ActionScriptError::DuplicateName(s) && s@
            == n,
        ScriptFailure::MissingDependency(m) => e matches ActionScriptError::Pattern(
            PatternError::MissingDependency(x),
        ) && x == m,
        ScriptFailure::Document(d) => e matches ActionScriptError::Document(g) && g == d,
        ScriptFailure::WrongToolType { name, expected, found } => e matches ActionScriptError::WrongToolType {
            name: a,
            expected: b,
            found: c,
        } && a@ == name && b@ == expected && c@ == found,
    }
}

// ---------------------------------------------------------------------------
// The name table: (name, id) entries with distinct names.
// ---------------------------------------------------------------------------

/// The views of a name table's entries.
pub open spec fn names_view(t: Seq<(String, ObjectId)>) -> Seq<(Seq<char>, ObjectId)> {
    t.map_values(|e: (String, ObjectId)| (e.0@, e.1))
}

/// No two entries share a name.
pub open spec fn keys_distinct(t: Seq<(Seq<char>, ObjectId)>) -> bool {
    forall|i: int, j: int| 0 <= i < t.len() && 0 <= j < t.len() && i != j ==> t[i].0 != t[j].0
}

/// Whether some entry is named `k`.
pub open spec fn has_key(t: Seq<(Seq<char>, ObjectId)>, k: Seq<char>) -> bool {
    exists|i: int| 0 <= i < t.len() && t[i].0 == k
}

/// The index of the entry named `k` (meaningful when `has_key`).
pub open spec fn key_index(t: Seq<(Seq<char>, ObjectId)>, k: Seq<char>) -> int {
    choose|i: int| 0 <= i < t.len() && t[i].0 == k
}

/// The id stored under `k`, if any.
pub open spec fn lookup(t: Seq<(Seq<char>, ObjectId)>, k: Seq<char>) -> Option<ObjectId> {
    if has_key(t, k) {
        Some(t[key_index(t, k)].1)
    } else {
        None
    }
}

/// The table after storing `id` under `k` (overwriting in place, or
/// appending a new entry).
pub open spec fn name_set(t: Seq<(Seq<char>, ObjectId)>, k: Seq<char>, id: ObjectId) -> Seq<
    (Seq<char>, ObjectId),
> {
    if has_key(t, k) {
        t.update(key_index(t, k), (k, id))
    } else {
        t.push((k, id))
    }
}

/// The table without the entry named `k`.
pub open spec fn name_removed(t: Seq<(Seq<char>, ObjectId)>, k: Seq<char>) -> Seq<
    (Seq<char>, ObjectId),
> {
    if has_key(t, k) {
        t.remove(key_index(t, k))
    } else {
        t
    }
}

/// The ids of the names `ns`, or the first (in order) that is unknown.
pub open spec fn resolve_all(t: Seq<(Seq<char>, ObjectId)>, ns: Seq<Seq<char>>) -> Result<
    Seq<ObjectId>,
    ScriptFailure,
>
    decreases ns.len(),
{
    if ns.len() == 0 {
        Ok(Seq::empty())
    } else {
        match lookup(t, ns[0]) {
            None => Err(ScriptFailure::UnknownPointName(ns[0])),
            Some(id) => match resolve_all(t, ns.drop_first()) {
                Err(f) => Err(f),
                Ok(rest) => Ok(seq![id] + rest),
            },
        }
    }
}

/// `p` followed by the outcome `r`.
pub open spec fn after_prefix(p: Seq<ObjectId>, r: Result<Seq<ObjectId>, ScriptFailure>) -> Result<
    Seq<ObjectId>,
    ScriptFailure,
> {
    match r {
        Ok(rest) => Ok(p + rest),
        Err(f) => Err(f),
    }
}

/// The piece nodes of `ids`, none excluded from the seam allowance.
pub open spec fn as_nodes(ids: Seq<ObjectId>) -> Seq<PieceNode> {
    ids.map_values(|id: ObjectId| PieceNode { point: id, excluded_from_seam_allowance: false })
}

/// The value given, or `current` when none was.
pub open spec fn or_keep<T>(o: Option<T>, current: T) -> T {
    match o {
        Some(v) => v,
        None => current,
    }
}

/// Adding `kind` with the document's own checks, then recording `name`
/// (if any) for the new id.
pub open spec fn add_named(
    doc: DocumentView,
    names: Seq<(Seq<char>, ObjectId)>,
    name: Option<Seq<char>>,
    kind: ToolKindView,
) -> Result<(DocumentView, Seq<(Seq<char>, ObjectId)>), ScriptFailure> {
    match doc.add_checked(crate::document::refs(kind), kind) {
        Err(m) => Err(ScriptFailure::MissingDependency(m)),
        Ok(d) => Ok(
            (
                d,
                match name {
                    Some(n) => name_set(names, n, ObjectId(doc.next_id as u32)),
                    None => names,
                },
            ),
        ),
    }
}

/// The bare variant name of a tool kind.
pub open spec fn variant_name(k: ToolKindView) -> Seq<char> {
    match k {
        ToolKindView::BasePoint { .. } => "BasePoint"@,
        ToolKindView::EndLine { .. } => "EndLine"@,
        ToolKindView::Line { .. } => "Line"@,
        ToolKindView::AlongLine { .. } => "AlongLine"@,
        ToolKindView::Normal { .. } => "Normal"@,
        ToolKindView::Bisector { .. } => "Bisector"@,
        ToolKindView::Height { .. } => "Height"@,
        ToolKindView::Midpoint { .. } => "Midpoint"@,
        ToolKindView::Piece { .. } => "Piece"@,
        ToolKindView::ShoulderPoint { .. } => "ShoulderPoint"@,
        ToolKindView::LineIntersect { .. } => "LineIntersect"@,
        ToolKindView::PointOfIntersection { .. } => "PointOfIntersection"@,
        ToolKindView::Triangle { .. } => "Triangle"@,
        ToolKindView::PointOfContact { .. } => "PointOfContact"@,
        ToolKindView::Arc { .. } => "Arc"@,
        ToolKindView::Spline { .. } => "Spline"@,
    }
}

/// The user-facing name of a tool kind; a line has none.
pub open spec fn name_of(k: ToolKindView) -> Option<Seq<char>> {
    match k {
        ToolKindView::BasePoint { name, .. } => Some(name),
        ToolKindView::EndLine { name, .. } => Some(name),
        ToolKindView::Line { .. } => None,
        ToolKindView::AlongLine { name, .. } => Some(name),
        ToolKindView::Normal { name, .. } => Some(name),
        ToolKindView::Bisector { name, .. } => Some(name),
        ToolKindView::Height { name, .. } => Some(name),
        ToolKindView::Midpoint { name, .. } => Some(name),
        ToolKindView::Piece { name, .. } => Some(name),
        ToolKindView::ShoulderPoint { name, .. } => Some(name),
        ToolKindView::LineIntersect { name, .. } => Some(name),
        ToolKindView::PointOfIntersection { name, .. } => Some(name),
        ToolKindView::Triangle { name, .. } => Some(name),
        ToolKindView::PointOfContact { name, .. } => Some(name),
        ToolKindView::Arc { name, .. } => Some(name),
        ToolKindView::Spline { name, .. } => Some(name),
    }
}

/// The name table of a loaded history: every named tool in order, a
/// later tool taking over a name an earlier one had.
pub open spec fn history_names(h: Seq<ToolRecordView>) -> Seq<(Seq<char>, ObjectId)>
    decreases h.len(),
{
    if h.len() == 0 {
        Seq::empty()
    } else {
        let t = history_names(h.drop_last());
        match name_of(h.last().kind) {
            Some(n) => name_set(t, n, h.last().id),
            None => t,
        }
    }
}

/// Running `actions` in order from `doc` and `names`: the final document,
/// or the failure of the first action that fails.
pub open spec fn run_all(
    doc: DocumentView,
    names: Seq<(Seq<char>, ObjectId)>,
    actions: Seq<ActionView>,
) -> Result<DocumentView, ScriptFailure>
    decreases actions.len(),
{
    if actions.len() == 0 {
        Ok(doc)
    } else {
        match step_spec(doc, names, actions[0]) {
            Err(f) => Err(f),
            Ok((d, n)) => run_all(d, n, actions.drop_first()),
        }
    }
}

/// The views of a list of actions.
pub open spec fn actions_view(s: Seq<Action>) -> Seq<ActionView> {
    s.map_values(|a: Action| a@)
}

/// The empty document.
pub open spec fn empty_document() -> DocumentView {
    DocumentView {
        records: Seq::empty(),
        vars: Seq::empty(),
        next_id: 0,
    }
}

/// The outcome of a whole script: start from the loaded document (its
/// named tools become the initial names) or an empty one, replace the
/// measurements when some were read, then run the actions.
pub open spec fn script_outcome(
    actions: Seq<ActionView>,
    loaded: Option<DocumentView>,
    measurements: Option<Seq<(Seq<char>, Real)>>,
) -> Result<DocumentView, ScriptFailure> {
    let start = match loaded {
        Some(d) => d,
        None => empty_document(),
    };
    let names = match loaded {
        Some(d) => history_names(d.records),
        None => Seq::empty(),
    };
    let measured = match measurements {
        Some(ms) => DocumentView {
            vars: with_measurements(table_without_kind(start.vars, VariableKind::Measurement), ms),
            ..start
        },
        None => start,
    };
    run_all(measured, names, actions)
}

// ---------------------------------------------------------------------------
// Executable parts.
// ---------------------------------------------------------------------------

/// Finds the entry named `name`.
fn find_name(t: &Vec<(String, ObjectId)>, name: &str) -> (r: Option<usize>)
    requires
        keys_distinct(names_view(t@)),
    ensures
        match r {
            Some(i) => i < t@.len() && has_key(names_view(t@), name@) && key_index(
                names_view(t@),
                name@,
            ) == i,
            None => !has_key(names_view(t@), name@),
        },
{
    let ghost tv = names_view(t@);
    let mut i: usize = 0;
    while i < t.len()
        invariant
            tv == names_view(t@),
            keys_distinct(tv),
            i <= t@.len(),
            forall|j: int| 0 <= j < i ==> tv[j].0 != name@,
        decreases t@.len() - i,
    {
        assert(tv[i as int] == (t@[i as int].0@, t@[i as int].1));
        if str_equals(t[i].0.as_str(), name) {
            proof {
                assert(has_key(tv, name@));
                let k = key_index(tv, name@);
                assert(tv[k].0 == name@);
            }
            return Some(i);
        }
        i = i + 1;
    }
    None
}

/// The id stored under `name`, or `UnknownPointName(name)`.
fn resolve_name(t: &Vec<(String, ObjectId)>, name: &str) -> (r: Result<ObjectId, ActionScriptError>)
    requires
        keys_distinct(names_view(t@)),
    ensures
        match lookup(names_view(t@), name@) {
            Some(id) => r == Ok::<ObjectId, ActionScriptError>(id),
            None => r matches Err(e) && fails_with(e, ScriptFailure::UnknownPointName(name@)),
        },
{
    match find_name(t, name) {
        Some(i) => {
            assert(names_view(t@)[i as int] == (t@[i as int].0@, t@[i as int].1));
            Ok(t[i].1)
        },
        None => Err(ActionScriptError::UnknownPointName(name.to_string())),
    }
}

/// `DuplicateName(name)` when `name` is already taken.
fn reject_if_duplicate(t: &Vec<(String, ObjectId)>, name: &str) -> (r: Result<(), ActionScriptError>)
    requires
        keys_distinct(names_view(t@)),
    ensures
        has_key(names_view(t@), name@) ==> (r matches Err(e) && fails_with(
            e,
            ScriptFailure::DuplicateName(name@),
        )),
        !has_key(names_view(t@), name@) ==> r is Ok,
{
    match find_name(t, name) {
        Some(_) => Err(ActionScriptError::DuplicateName(name.to_string())),
        None => Ok(()),
    }
}

/// Stores `id` under `name`.
fn set_name(t: &mut Vec<(String, ObjectId)>, name: &str, id: ObjectId)
    requires
        keys_distinct(names_view(old(t)@)),
    ensures
        names_view(final(t)@) == name_set(names_view(old(t)@), name@, id),
        keys_distinct(names_view(final(t)@)),
{
    let ghost tv = names_view(t@);
    match find_name(t, name) {
        Some(i) => {
            let entry = (name.to_string(), id);
            t.set(i, entry);
            proof {
                assert(names_view(t@) =~= tv.update(i as int, (name@, id)));
            }
        },
        None => {
            t.push((name.to_string(), id));
            proof {
                assert(names_view(t@) =~= tv.push((name@, id)));
                assert forall|a: int, b: int|
                    0 <= a < names_view(t@).len() && 0 <= b < names_view(t@).len() && a != b
                        implies names_view(t@)[a].0 != names_view(t@)[b].0 by {
                    if a < tv.len() && b < tv.len() {
                    } else if a == tv.len() {
                        assert(!(tv[b].0 == name@));
                    } else {
                        assert(!(tv[a].0 == name@));
                    }
                }
            }
        },
    }
}

/// Drops the entry named `name`, if any.
fn remove_name(t: &mut Vec<(String, ObjectId)>, name: &str)
    requires
        keys_distinct(names_view(old(t)@)),
    ensures
        names_view(final(t)@) == name_removed(names_view(old(t)@), name@),
        keys_distinct(names_view(final(t)@)),
{
    let ghost tv = names_view(t@);
    if let Some(i) = find_name(t, name) {
        t.remove(i);
        proof {
            let u = tv.remove(i as int);
            assert(names_view(t@) =~= u);
            assert forall|a: int, b: int|
                0 <= a < u.len() && 0 <= b < u.len() && a != b implies u[a].0 != u[b].0 by {
                let aa = if a < i { a } else { a + 1 };
                let bb = if b < i { b } else { b + 1 };
                assert(u[a] == tv[aa] && u[b] == tv[bb]);
            }
        }
    }
}

proof fn lemma_resolve_all_len(t: Seq<(Seq<char>, ObjectId)>, ns: Seq<Seq<char>>)
    ensures
        resolve_all(t, ns) matches Ok(ids) ==> ids.len() == ns.len(),
    decreases ns.len(),
{
    if ns.len() > 0 {
        lemma_resolve_all_len(t, ns.drop_first());
    }
}

/// The ids of `ns`, in order, or the first unknown name.
fn resolve_names(t: &Vec<(String, ObjectId)>, ns: &Vec<String>) -> (r: Result<
    Vec<ObjectId>,
    ActionScriptError,
>)
    requires
        keys_distinct(names_view(t@)),
    ensures
        match resolve_all(names_view(t@), strings_view(ns@)) {
            Ok(ids) => r matches Ok(v) && v@ == ids && v@.len() == ns@.len(),
            Err(f) => r matches Err(e) && fails_with(e, f),
        },
{
    let ghost tv = names_view(t@);
    let ghost nv = strings_view(ns@);
    let mut out: Vec<ObjectId> = Vec::new();
    let mut i: usize = 0;
    proof {
        assert(nv.subrange(0, nv.len() as int) =~= nv);
        assert(out@ + Seq::<ObjectId>::empty() =~= out@);
    }
    while i < ns.len()
        invariant
            tv == names_view(t@),
            keys_distinct(tv),
            nv == strings_view(ns@),
            i <= ns@.len(),
            resolve_all(tv, nv) == after_prefix(out@, resolve_all(tv, nv.subrange(i as int, nv.len() as int))),
        decreases ns@.len() - i,
    {
        let ghost rest = nv.subrange(i as int, nv.len() as int);
        proof {
            assert(rest[0] == ns@[i as int]@);
            assert(rest.drop_first() =~= nv.subrange(i + 1, nv.len() as int));
        }
        match resolve_name(t, ns[i].as_str()) {
            Ok(id) => {
                let ghost before = out@;
                out.push(id);
                proof {
                    match resolve_all(tv, rest.drop_first()) {
                        Ok(more) => {
                            assert(before + (seq![id] + more) =~= out@ + more);
                        },
                        Err(_) => {},
                    }
                }
            },
            Err(e) => {
                return Err(e);
            },
        }
        i = i + 1;
    }
    proof {
        assert(nv.subrange(i as int, nv.len() as int) =~= Seq::<Seq<char>>::empty());
        assert(out@ + Seq::<ObjectId>::empty() =~= out@);
        lemma_resolve_all_len(tv, nv);
    }
    Ok(out)
}

/// The texts of a list of strings.
pub open spec fn strings_view(s: Seq<String>) -> Seq<Seq<char>> {
    s.map_values(|x: String| x@)
}

/// A one-name reference list.
fn refs1(a: &String) -> (r: Vec<String>)
    ensures
        strings_view(r@) == seq![a@],
{
    let r = vec![a.clone()];
    proof {
        assert(strings_view(r@) =~= seq![a@]);
    }
    r
}

/// A two-name reference list.
fn refs2(a: &String, b: &String) -> (r: Vec<String>)
    ensures
        strings_view(r@) == seq![a@, b@],
{
    let r = vec![a.clone(), b.clone()];
    proof {
        assert(strings_view(r@) =~= seq![a@, b@]);
    }
    r
}

/// A three-name reference list.
fn refs3(a: &String, b: &String, c: &String) -> (r: Vec<String>)
    ensures
        strings_view(r@) == seq![a@, b@, c@],
{
    let r = vec![a.clone(), b.clone(), c.clone()];
    proof {
        assert(strings_view(r@) =~= seq![a@, b@, c@]);
    }
    r
}

/// A four-name reference list.
fn refs4(a: &String, b: &String, c: &String, d: &String) -> (r: Vec<String>)
    ensures
        strings_view(r@) == seq![a@, b@, c@, d@],
{
    let r = vec![a.clone(), b.clone(), c.clone(), d.clone()];
    proof {
        assert(strings_view(r@) =~= seq![a@, b@, c@, d@]);
    }
    r
}

/// The piece nodes of `ids`, none excluded from the seam allowance.
fn nodes_of(ids: &Vec<ObjectId>) -> (r: Vec<PieceNode>)
    ensures
        r@ == as_nodes(ids@),
{
    let mut out: Vec<PieceNode> = Vec::new();
    let mut i: usize = 0;
    while i < ids.len()
        invariant
            i <= ids@.len(),
            out@ == as_nodes(ids@.subrange(0, i as int)),
        decreases ids@.len() - i,
    {
        out.push(PieceNode { point: ids[i], excluded_from_seam_allowance: false });
        proof {
            assert(as_nodes(ids@.subrange(0, i + 1)) =~= as_nodes(ids@.subrange(0, i as int)).push(
                PieceNode { point: ids@[i as int], excluded_from_seam_allowance: false },
            ));
        }
        i = i + 1;
    }
    proof {
        assert(ids@.subrange(0, ids@.len() as int) =~= ids@);
    }
    out
}

/// The user-facing name of a tool, if it has one (a line has none).
pub fn tool_name(kind: &ToolKind) -> (r: Option<&str>)
    ensures
        match name_of(kind@) {
            Some(n) => r matches Some(s) && s@ == n,
            None => r is None,
        },
{
    match kind {
        ToolKind::BasePoint { name, .. } => Some(name.as_str()),
        ToolKind::EndLine { name, .. } => Some(name.as_str()),
        ToolKind::Line { .. } => None,
        ToolKind::AlongLine { name, .. } => Some(name.as_str()),
        ToolKind::Normal { name, .. } => Some(name.as_str()),
        ToolKind::Bisector { name, .. } => Some(name.as_str()),
        ToolKind::Height { name, .. } => Some(name.as_str()),
        ToolKind::Midpoint { name, .. } => Some(name.as_str()),
        ToolKind::Piece { name, .. } => Some(name.as_str()),
        ToolKind::ShoulderPoint { name, .. } => Some(name.as_str()),
        ToolKind::LineIntersect { name, .. } => Some(name.as_str()),
        ToolKind::PointOfIntersection { name, .. } => Some(name.as_str()),
        ToolKind::Triangle { name, .. } => Some(name.as_str()),
        ToolKind::PointOfContact { name, .. } => Some(name.as_str()),
        ToolKind::Arc { name, .. } => Some(name.as_str()),
        ToolKind::Spline { name, .. } => Some(name.as_str()),
    }
}

/// The bare variant name of a tool kind, e.g. `"BasePoint"`.
pub fn tool_kind_variant_name(kind: &ToolKind) -> (r: &'static str)
    ensures
        r@ == variant_name(kind@),
{
    match kind {
        ToolKind::BasePoint { .. } => "BasePoint",
        ToolKind::EndLine { .. } => "EndLine",
        ToolKind::Line { .. } => "Line",
        ToolKind::AlongLine { .. } => "AlongLine",
        ToolKind::Normal { .. } => "Normal",
        ToolKind::Bisector { .. } => "Bisector",
        ToolKind::Height { .. } => "Height",
        ToolKind::Midpoint { .. } => "Midpoint",
        ToolKind::Piece { .. } => "Piece",
        ToolKind::ShoulderPoint { .. } => "ShoulderPoint",
        ToolKind::LineIntersect { .. } => "LineIntersect",
        ToolKind::PointOfIntersection { .. } => "PointOfIntersection",
        ToolKind::Triangle { .. } => "Triangle",
        ToolKind::PointOfContact { .. } => "PointOfContact",
        ToolKind::Arc { .. } => "Arc",
        ToolKind::Spline { .. } => "Spline",
    }
}

/// The name table of a loaded document: every named tool in history
/// order, a later one taking over a name an earlier one had.
pub fn names_from_history(doc: &Document) -> (r: Vec<(String, ObjectId)>)
    ensures
        names_view(r@) == history_names(doc@.records),
        keys_distinct(names_view(r@)),
{
    let history = doc.history();
    let ghost h = records_view(history@);
    let mut names: Vec<(String, ObjectId)> = Vec::new();
    let mut i: usize = 0;
    proof {
        assert(names_view(names@) =~= Seq::<(Seq<char>, ObjectId)>::empty());
        assert(h.subrange(0, 0) =~= Seq::<ToolRecordView>::empty());
    }
    while i < history.len()
        invariant
            h == records_view(history@),
            h == doc@.records,
            i <= h.len(),
            keys_distinct(names_view(names@)),
            names_view(names@) == history_names(h.subrange(0, i as int)),
        decreases h.len() - i,
    {
        proof {
            assert(h.subrange(0, i + 1).drop_last() =~= h.subrange(0, i as int));
            assert(h.subrange(0, i + 1).last() == h[i as int]);
            assert(h[i as int] == history@[i as int]@);
        }
        if let Some(n) = tool_name(&history[i].kind) {
            set_name(&mut names, n, history[i].id);
        }
        i = i + 1;
    }
    proof {
        assert(h.subrange(0, h.len() as int) =~= h);
    }
    names
}

/// Runs an `AddBasePoint` action.
fn step_add_base_point(
    document: &mut Document,
    names: &mut Vec<(String, ObjectId)>,
    action: &Action,
) -> (r: Result<(), ActionScriptError>)
    requires
        action is AddBasePoint,
        old(document)@.wf(),
        old(document)@.next_id < u32::MAX,
        keys_distinct(names_view(old(names)@)),
    ensures
        final(document)@.wf(),
        keys_distinct(names_view(final(names)@)),
        final(document)@.next_id <= old(document)@.next_id + 1,
        match step_spec(old(document)@, names_view(old(names)@), action@) {
            Ok((d, n)) => r is Ok && final(document)@ == d && names_view(final(names)@) == n,
            Err(f) => r matches Err(e) && fails_with(e, f),
        },
{
    proof {
        reveal(step_spec);
    }
    match action {
        Action::AddBasePoint { name, x, y } => {
            if let Err(e) = reject_if_duplicate(names, name.as_str()) {
                return Err(e);
            }
            let id = document.add_base_point(name.as_str(), *x, *y);
            set_name(names, name.as_str(), id);
            Ok(())
        },
        _ => Ok(()),
    }
}

/// Runs an `AddEndLine` action.
fn step_add_end_line(
    document: &mut Document,
    names: &mut Vec<(String, ObjectId)>,
    action: &Action,
) -> (r: Result<(), ActionScriptError>)
    requires
        action is AddEndLine,
        old(document)@.wf(),
        old(document)@.next_id < u32::MAX,
        keys_distinct(names_view(old(names)@)),
    ensures
        final(document)@.wf(),
        keys_distinct(names_view(final(names)@)),
        final(document)@.next_id <= old(document)@.next_id + 1,
        match step_spec(old(document)@, names_view(old(names)@), action@) {
            Ok((d, n)) => r is Ok && final(document)@ == d && names_view(final(names)@) == n,
            Err(f) => r matches Err(e) && fails_with(e, f),
        },
{
    proof {
        reveal(step_spec);
    }
    match action {
        Action::AddEndLine { name, base_point, angle_formula, length_formula } => {
            if let Err(e) = reject_if_duplicate(names, name.as_str()) {
                return Err(e);
            }
            let refs = refs1(base_point);
            let ids = match resolve_names(names, &refs) {
                Ok(ids) => ids,
                Err(e) => {
                    return Err(e);
                },
            };
            let id = match document.add_end_line(name.as_str(), ids[0], angle_formula.as_str(), length_formula.as_str()) {
                Ok(id) => id,
                Err(e) => {
                    return Err(ActionScriptError::Pattern(e));
                },
            };
            set_name(names, name.as_str(), id);
            Ok(())
        },
        _ => Ok(()),
    }
}

/// Runs an `AddLine` action.
fn step_add_line(
    document: &mut Document,
    names: &mut Vec<(String, ObjectId)>,
    action: &Action,
) -> (r: Result<(), ActionScriptError>)
    requires
        action is AddLine,
        old(document)@.wf(),
        old(document)@.next_id < u32::MAX,
        keys_distinct(names_view(old(names)@)),
    ensures
        final(document)@.wf(),
        keys_distinct(names_view(final(names)@)),
        final(document)@.next_id <= old(document)@.next_id + 1,
        match step_spec(old(document)@, names_view(old(names)@), action@) {
            Ok((d, n)) => r is Ok && final(document)@ == d && names_view(final(names)@) == n,
            Err(f) => r matches Err(e) && fails_with(e, f),
        },
{
    proof {
        reveal(step_spec);
    }
    match action {
        Action::AddLine { p1, p2 } => {
            let refs = refs2(p1, p2);
            let ids = match resolve_names(names, &refs) {
                Ok(ids) => ids,
                Err(e) => {
                    return Err(e);
                },
            };
            let id = match document.add_line(ids[0], ids[1]) {
                Ok(id) => id,
                Err(e) => {
                    return Err(ActionScriptError::Pattern(e));
                },
            };
            Ok(())
        },
        _ => Ok(()),
    }
}

/// Runs an `AddAlongLine` action.
fn step_add_along_line(
    document: &mut Document,
    names: &mut Vec<(String, ObjectId)>,
    action: &Action,
) -> (r: Result<(), ActionScriptError>)
    requires
        action is AddAlongLine,
        old(document)@.wf(),
        old(document)@.next_id < u32::MAX,
        keys_distinct(names_view(old(names)@)),
    ensures
        final(document)@.wf(),
        keys_distinct(names_view(final(names)@)),
        final(document)@.next_id <= old(document)@.next_id + 1,
        match step_spec(old(document)@, names_view(old(names)@), action@) {
            Ok((d, n)) => r is Ok && final(document)@ == d && names_view(final(names)@) == n,
            Err(f) => r matches Err(e) && fails_with(e, f),
        },
{
    proof {
        reveal(step_spec);
    }
    match action {
        Action::AddAlongLine { name, p1, p2, length_formula } => {
            if let Err(e) = reject_if_duplicate(names, name.as_str()) {
                return Err(e);
            }
            let refs = refs2(p1, p2);
            let ids = match resolve_names(names, &refs) {
                Ok(ids) => ids,
                Err(e) => {
                    return Err(e);
                },
            };
            let id = match document.add_along_line(name.as_str(), ids[0], ids[1], length_formula.as_str()) {
                Ok(id) => id,
                Err(e) => {
                    return Err(ActionScriptError::Pattern(e));
                },
            };
            set_name(names, name.as_str(), id);
            Ok(())
        },
        _ => Ok(()),
    }
}

/// Runs an `AddNormal` action.
fn step_add_normal(
    document: &mut Document,
    names: &mut Vec<(String, ObjectId)>,
    action: &Action,
) -> (r: Result<(), ActionScriptError>)
    requires
        action is AddNormal,
        old(document)@.wf(),
        old(document)@.next_id < u32::MAX,
        keys_distinct(names_view(old(names)@)),
    ensures
        final(document)@.wf(),
        keys_distinct(names_view(final(names)@)),
        final(document)@.next_id <= old(document)@.next_id + 1,
        match step_spec(old(document)@, names_view(old(names)@), action@) {
            Ok((d, n)) => r is Ok && final(document)@ == d && names_view(final(names)@) == n,
            Err(f) => r matches Err(e) && fails_with(e, f),
        },
{
    proof {
        reveal(step_spec);
    }
    match action {
        Action::AddNormal { name, p1, p2, length_formula, angle_formula } => {
            if let Err(e) = reject_if_duplicate(names, name.as_str()) {
                return Err(e);
            }
            let refs = refs2(p1, p2);
            let ids = match resolve_names(names, &refs) {
                Ok(ids) => ids,
                Err(e) => {
                    return Err(e);
                },
            };
            let id = match document.add_normal(name.as_str(), ids[0], ids[1], length_formula.as_str(), angle_formula.as_str()) {
                Ok(id) => id,
                Err(e) => {
                    return Err(ActionScriptError::Pattern(e));
                },
            };
            set_name(names, name.as_str(), id);
            Ok(())
        },
        _ => Ok(()),
    }
}

/// Runs an `AddBisector` action.
fn step_add_bisector(
    document: &mut Document,
    names: &mut Vec<(String, ObjectId)>,
    action: &Action,
) -> (r: Result<(), ActionScriptError>)
    requires
        action is AddBisector,
        old(document)@.wf(),
        old(document)@.next_id < u32::MAX,
        keys_distinct(names_view(old(names)@)),
    ensures
        final(document)@.wf(),
        keys_distinct(names_view(final(names)@)),
        final(document)@.next_id <= old(document)@.next_id + 1,
        match step_spec(old(document)@, names_view(old(names)@), action@) {
            Ok((d, n)) => r is Ok && final(document)@ == d && names_view(final(names)@) == n,
            Err(f) => r matches Err(e) && fails_with(e, f),
        },
{
    proof {
        reveal(step_spec);
    }
    match action {
        Action::AddBisector { name, p1, p2, p3, length_formula } => {
            if let Err(e) = reject_if_duplicate(names, name.as_str()) {
                return Err(e);
            }
            let refs = refs3(p1, p2, p3);
            let ids = match resolve_names(names, &refs) {
                Ok(ids) => ids,
                Err(e) => {
                    return Err(e);
                },
            };
            let id = match document.add_bisector(name.as_str(), ids[0], ids[1], ids[2], length_formula.as_str()) {
                Ok(id) => id,
                Err(e) => {
                    return Err(ActionScriptError::Pattern(e));
                },
            };
            set_name(names, name.as_str(), id);
            Ok(())
        },
        _ => Ok(()),
    }
}

/// Runs an `AddHeight` action.
fn step_add_height(
    document: &mut Document,
    names: &mut Vec<(String, ObjectId)>,
    action: &Action,
) -> (r: Result<(), ActionScriptError>)
    requires
        action is AddHeight,
        old(document)@.wf(),
        old(document)@.next_id < u32::MAX,
        keys_distinct(names_view(old(names)@)),
    ensures
        final(document)@.wf(),
        keys_distinct(names_view(final(names)@)),
        final(document)@.next_id <= old(document)@.next_id + 1,
        match step_spec(old(document)@, names_view(old(names)@), action@) {
            Ok((d, n)) => r is Ok && final(document)@ == d && names_view(final(names)@) == n,
            Err(f) => r matches Err(e) && fails_with(e, f),
        },
{
    proof {
        reveal(step_spec);
    }
    match action {
        Action::AddHeight { name, point, line_p1, line_p2 } => {
            if let Err(e) = reject_if_duplicate(names, name.as_str()) {
                return Err(e);
            }
            let refs = refs3(point, line_p1, line_p2);
            let ids = match resolve_names(names, &refs) {
                Ok(ids) => ids,
                Err(e) => {
                    return Err(e);
                },
            };
            let id = match document.add_height(name.as_str(), ids[0], ids[1], ids[2]) {
                Ok(id) => id,
                Err(e) => {
                    return Err(ActionScriptError::Pattern(e));
                },
            };
            set_name(names, name.as_str(), id);
            Ok(())
        },
        _ => Ok(()),
    }
}

/// Runs an `AddMidpoint` action.
fn step_add_midpoint(
    document: &mut Document,
    names: &mut Vec<(String, ObjectId)>,
    action: &Action,
) -> (r: Result<(), ActionScriptError>)
    requires
        action is AddMidpoint,
        old(document)@.wf(),
        old(document)@.next_id < u32::MAX,
        keys_distinct(names_view(old(names)@)),
    ensures
        final(document)@.wf(),
        keys_distinct(names_view(final(names)@)),
        final(document)@.next_id <= old(document)@.next_id + 1,
        match step_spec(old(document)@, names_view(old(names)@), action@) {
            Ok((d, n)) => r is Ok && final(document)@ == d && names_view(final(names)@) == n,
            Err(f) => r matches Err(e) && fails_with(e, f),
        },
{
    proof {
        reveal(step_spec);
    }
    match action {
        Action::AddMidpoint { name, p1, p2 } => {
            if let Err(e) = reject_if_duplicate(names, name.as_str()) {
                return Err(e);
            }
            let refs = refs2(p1, p2);
            let ids = match resolve_names(names, &refs) {
                Ok(ids) => ids,
                Err(e) => {
                    return Err(e);
                },
            };
            let id = match document.add_midpoint(name.as_str(), ids[0], ids[1]) {
                Ok(id) => id,
                Err(e) => {
                    return Err(ActionScriptError::Pattern(e));
                },
            };
            set_name(names, name.as_str(), id);
            Ok(())
        },
        _ => Ok(()),
    }
}

/// Runs an `RemoveTool` action.
fn step_remove_tool(
    document: &mut Document,
    names: &mut Vec<(String, ObjectId)>,
    action: &Action,
) -> (r: Result<(), ActionScriptError>)
    requires
        action is RemoveTool,
        old(document)@.wf(),
        old(document)@.next_id < u32::MAX,
        keys_distinct(names_view(old(names)@)),
    ensures
        final(document)@.wf(),
        keys_distinct(names_view(final(names)@)),
        final(document)@.next_id <= old(document)@.next_id + 1,
        match step_spec(old(document)@, names_view(old(names)@), action@) {
            Ok((d, n)) => r is Ok && final(document)@ == d && names_view(final(names)@) == n,
            Err(f) => r matches Err(e) && fails_with(e, f),
        },
{
    proof {
        reveal(step_spec);
    }
    match action {
        Action::RemoveTool { name } => {
            let id = match resolve_name(names, name.as_str()) {
                Ok(id) => id,
                Err(e) => {
                    return Err(e);
                },
            };
            match document.remove_tool(id) {
                Ok(_) => {
                    remove_name(names, name.as_str());
                    Ok(())
                },
                Err(e) => Err(ActionScriptError::Document(e)),
            }
        },
        _ => Ok(()),
    }
}

/// Runs an `ModifyBasePoint` action.
fn step_modify_base_point(
    document: &mut Document,
    names: &mut Vec<(String, ObjectId)>,
    action: &Action,
) -> (r: Result<(), ActionScriptError>)
    requires
        action is ModifyBasePoint,
        old(document)@.wf(),
        old(document)@.next_id < u32::MAX,
        keys_distinct(names_view(old(names)@)),
    ensures
        final(document)@.wf(),
        keys_distinct(names_view(final(names)@)),
        final(document)@.next_id <= old(document)@.next_id + 1,
        match step_spec(old(document)@, names_view(old(names)@), action@) {
            Ok((d, n)) => r is Ok && final(document)@ == d && names_view(final(names)@) == n,
            Err(f) => r matches Err(e) && fails_with(e, f),
        },
{
    proof {
        reveal(step_spec);
    }
    match action {
        Action::ModifyBasePoint { name, x, y } => {
            let id = match resolve_name(names, name.as_str()) {
                Ok(id) => id,
                Err(e) => {
                    return Err(e);
                },
            };
            let replacement = match document.get_tool(id) {
                None => {
                    return Err(ActionScriptError::Document(DocumentError::ToolNotFound(id)));
                },
                Some(current) => match &current.kind {
                    ToolKind::BasePoint { name: n, x: cx, y: cy } => Ok(
                        ToolKind::BasePoint {
                            name: n.clone(),
                            x: match x {
                                Some(v) => *v,
                                None => *cx,
                            },
                            y: match y {
                                Some(v) => *v,
                                None => *cy,
                            },
                        },
                    ),
                    other => Err(
                        ActionScriptError::WrongToolType {
                            name: name.clone(),
                            expected: "BasePoint".to_string(),
                            found: tool_kind_variant_name(other).to_string(),
                        },
                    ),
                },
            };
            match replacement {
                Err(e) => Err(e),
                Ok(kind) => match document.replace_tool_kind(id, kind) {
                    Ok(_) => Ok(()),
                    Err(e) => Err(ActionScriptError::Document(e)),
                },
            }
        },
        _ => Ok(()),
    }
}

/// Runs an `ModifyEndLine` action.
fn step_modify_end_line(
    document: &mut Document,
    names: &mut Vec<(String, ObjectId)>,
    action: &Action,
) -> (r: Result<(), ActionScriptError>)
    requires
        action is ModifyEndLine,
        old(document)@.wf(),
        old(document)@.next_id < u32::MAX,
        keys_distinct(names_view(old(names)@)),
    ensures
        final(document)@.wf(),
        keys_distinct(names_view(final(names)@)),
        final(document)@.next_id <= old(document)@.next_id + 1,
        match step_spec(old(document)@, names_view(old(names)@), action@) {
            Ok((d, n)) => r is Ok && final(document)@ == d && names_view(final(names)@) == n,
            Err(f) => r matches Err(e) && fails_with(e, f),
        },
{
    proof {
        reveal(step_spec);
    }
    match action {
        Action::ModifyEndLine { name, angle_formula, length_formula } => {
            let id = match resolve_name(names, name.as_str()) {
                Ok(id) => id,
                Err(e) => {
                    return Err(e);
                },
            };
            let replacement = match document.get_tool(id) {
                None => {
                    return Err(ActionScriptError::Document(DocumentError::ToolNotFound(id)));
                },
                Some(current) => match &current.kind {
                    ToolKind::EndLine {
                        name: n,
                        base_point,
                        angle_formula: ca,
                        length_formula: cl,
                    } => Ok(
                        ToolKind::EndLine {
                            name: n.clone(),
                            base_point: *base_point,
                            angle_formula: match angle_formula {
                                Some(s) => s.clone(),
                                None => ca.clone(),
                            },
                            length_formula: match length_formula {
                                Some(s) => s.clone(),
                                None => cl.clone(),
                            },
                        },
                    ),
                    other => Err(
                        ActionScriptError::WrongToolType {
                            name: name.clone(),
                            expected: "EndLine".to_string(),
                            found: tool_kind_variant_name(other).to_string(),
                        },
                    ),
                },
            };
            match replacement {
                Err(e) => Err(e),
                Ok(kind) => match document.replace_tool_kind(id, kind) {
                    Ok(_) => Ok(()),
                    Err(e) => Err(ActionScriptError::Document(e)),
                },
            }
        },
        _ => Ok(()),
    }
}

/// Runs an `AddShoulderPoint` action.
fn step_add_shoulder_point(
    document: &mut Document,
    names: &mut Vec<(String, ObjectId)>,
    action: &Action,
) -> (r: Result<(), ActionScriptError>)
    requires
        action is AddShoulderPoint,
        old(document)@.wf(),
        old(document)@.next_id < u32::MAX,
        keys_distinct(names_view(old(names)@)),
    ensures
        final(document)@.wf(),
        keys_distinct(names_view(final(names)@)),
        final(document)@.next_id <= old(document)@.next_id + 1,
        match step_spec(old(document)@, names_view(old(names)@), action@) {
            Ok((d, n)) => r is Ok && final(document)@ == d && names_view(final(names)@) == n,
            Err(f) => r matches Err(e) && fails_with(e, f),
        },
{
    proof {
        reveal(step_spec);
    }
    match action {
        Action::AddShoulderPoint { name, p1_line, p2_line, shoulder, length_formula } => {
            if let Err(e) = reject_if_duplicate(names, name.as_str()) {
                return Err(e);
            }
            let refs = refs3(p1_line, p2_line, shoulder);
            let ids = match resolve_names(names, &refs) {
                Ok(ids) => ids,
                Err(e) => {
                    return Err(e);
                },
            };
            let id = match document.add_shoulder_point(name.as_str(), ids[0], ids[1], ids[2], length_formula.as_str()) {
                Ok(id) => id,
                Err(e) => {
                    return Err(ActionScriptError::Pattern(e));
                },
            };
            set_name(names, name.as_str(), id);
            Ok(())
        },
        _ => Ok(()),
    }
}

/// Runs an `AddLineIntersect` action.
fn step_add_line_intersect(
    document: &mut Document,
    names: &mut Vec<(String, ObjectId)>,
    action: &Action,
) -> (r: Result<(), ActionScriptError>)
    requires
        action is AddLineIntersect,
        old(document)@.wf(),
        old(document)@.next_id < u32::MAX,
        keys_distinct(names_view(old(names)@)),
    ensures
        final(document)@.wf(),
        keys_distinct(names_view(final(names)@)),
        final(document)@.next_id <= old(document)@.next_id + 1,
        match step_spec(old(document)@, names_view(old(names)@), action@) {
            Ok((d, n)) => r is Ok && final(document)@ == d && names_view(final(names)@) == n,
            Err(f) => r matches Err(e) && fails_with(e, f),
        },
{
    proof {
        reveal(step_spec);
    }
    match action {
        Action::AddLineIntersect { name, p1_line1, p2_line1, p1_line2, p2_line2 } => {
            if let Err(e) = reject_if_duplicate(names, name.as_str()) {
                return Err(e);
            }
            let refs = refs4(p1_line1, p2_line1, p1_line2, p2_line2);
            let ids = match resolve_names(names, &refs) {
                Ok(ids) => ids,
                Err(e) => {
                    return Err(e);
                },
            };
            let id = match document.add_line_intersect(name.as_str(), ids[0], ids[1], ids[2], ids[3]) {
                Ok(id) => id,
                Err(e) => {
                    return Err(ActionScriptError::Pattern(e));
                },
            };
            set_name(names, name.as_str(), id);
            Ok(())
        },
        _ => Ok(()),
    }
}

/// Runs an `AddPointOfIntersection` action.
fn step_add_point_of_intersection(
    document: &mut Document,
    names: &mut Vec<(String, ObjectId)>,
    action: &Action,
) -> (r: Result<(), ActionScriptError>)
    requires
        action is AddPointOfIntersection,
        old(document)@.wf(),
        old(document)@.next_id < u32::MAX,
        keys_distinct(names_view(old(names)@)),
    ensures
        final(document)@.wf(),
        keys_distinct(names_view(final(names)@)),
        final(document)@.next_id <= old(document)@.next_id + 1,
        match step_spec(old(document)@, names_view(old(names)@), action@) {
            Ok((d, n)) => r is Ok && final(document)@ == d && names_view(final(names)@) == n,
            Err(f) => r matches Err(e) && fails_with(e, f),
        },
{
    proof {
        reveal(step_spec);
    }
    match action {
        Action::AddPointOfIntersection { name, p1, p2 } => {
            if let Err(e) = reject_if_duplicate(names, name.as_str()) {
                return Err(e);
            }
            let refs = refs2(p1, p2);
            let ids = match resolve_names(names, &refs) {
                Ok(ids) => ids,
                Err(e) => {
                    return Err(e);
                },
            };
            let id = match document.add_point_of_intersection(name.as_str(), ids[0], ids[1]) {
                Ok(id) => id,
                Err(e) => {
                    return Err(ActionScriptError::Pattern(e));
                },
            };
            set_name(names, name.as_str(), id);
            Ok(())
        },
        _ => Ok(()),
    }
}

/// Runs an `AddTriangle` action.
fn step_add_triangle(
    document: &mut Document,
    names: &mut Vec<(String, ObjectId)>,
    action: &Action,
) -> (r: Result<(), ActionScriptError>)
    requires
        action is AddTriangle,
        old(document)@.wf(),
        old(document)@.next_id < u32::MAX,
        keys_distinct(names_view(old(names)@)),
    ensures
        final(document)@.wf(),
        keys_distinct(names_view(final(names)@)),
        final(document)@.next_id <= old(document)@.next_id + 1,
        match step_spec(old(document)@, names_view(old(names)@), action@) {
            Ok((d, n)) => r is Ok && final(document)@ == d && names_view(final(names)@) == n,
            Err(f) => r matches Err(e) && fails_with(e, f),
        },
{
    proof {
        reveal(step_spec);
    }
    match action {
        Action::AddTriangle { name, axis_p1, axis_p2, hypotenuse_p1, hypotenuse_p2 } => {
            if let Err(e) = reject_if_duplicate(names, name.as_str()) {
                return Err(e);
            }
            let refs = refs4(axis_p1, axis_p2, hypotenuse_p1, hypotenuse_p2);
            let ids = match resolve_names(names, &refs) {
                Ok(ids) => ids,
                Err(e) => {
                    return Err(e);
                },
            };
            let id = match document.add_triangle(name.as_str(), ids[0], ids[1], ids[2], ids[3]) {
                Ok(id) => id,
                Err(e) => {
                    return Err(ActionScriptError::Pattern(e));
                },
            };
            set_name(names, name.as_str(), id);
            Ok(())
        },
        _ => Ok(()),
    }
}

/// Runs an `AddPointOfContact` action.
fn step_add_point_of_contact(
    document: &mut Document,
    names: &mut Vec<(String, ObjectId)>,
    action: &Action,
) -> (r: Result<(), ActionScriptError>)
    requires
        action is AddPointOfContact,
        old(document)@.wf(),
        old(document)@.next_id < u32::MAX,
        keys_distinct(names_view(old(names)@)),
    ensures
        final(document)@.wf(),
        keys_distinct(names_view(final(names)@)),
        final(document)@.next_id <= old(document)@.next_id + 1,
        match step_spec(old(document)@, names_view(old(names)@), action@) {
            Ok((d, n)) => r is Ok && final(document)@ == d && names_view(final(names)@) == n,
            Err(f) => r matches Err(e) && fails_with(e, f),
        },
{
    proof {
        reveal(step_spec);
    }
    match action {
        Action::AddPointOfContact { name, center, p1, p2, radius_formula } => {
            if let Err(e) = reject_if_duplicate(names, name.as_str()) {
                return Err(e);
            }
            let refs = refs3(center, p1, p2);
            let ids = match resolve_names(names, &refs) {
                Ok(ids) => ids,
                Err(e) => {
                    return Err(e);
                },
            };
            let id = match document.add_point_of_contact(name.as_str(), ids[0], ids[1], ids[2], radius_formula.as_str()) {
                Ok(id) => id,
                Err(e) => {
                    return Err(ActionScriptError::Pattern(e));
                },
            };
            set_name(names, name.as_str(), id);
            Ok(())
        },
        _ => Ok(()),
    }
}

/// Runs an `AddPiece` action.
fn step_add_piece(
    document: &mut Document,
    names: &mut Vec<(String, ObjectId)>,
    action: &Action,
) -> (r: Result<(), ActionScriptError>)
    requires
        action is AddPiece,
        old(document)@.wf(),
        old(document)@.next_id < u32::MAX,
        keys_distinct(names_view(old(names)@)),
    ensures
        final(document)@.wf(),
        keys_distinct(names_view(final(names)@)),
        final(document)@.next_id <= old(document)@.next_id + 1,
        match step_spec(old(document)@, names_view(old(names)@), action@) {
            Ok((d, n)) => r is Ok && final(document)@ == d && names_view(final(names)@) == n,
            Err(f) => r matches Err(e) && fails_with(e, f),
        },
{
    proof {
        reveal(step_spec);
    }
    match action {
        Action::AddPiece { name, points, seam_allowance_formula } => {
            if let Err(e) = reject_if_duplicate(names, name.as_str()) {
                return Err(e);
            }
            let ids = match resolve_names(names, points) {
                Ok(ids) => ids,
                Err(e) => {
                    return Err(e);
                },
            };
            let id = match document.add_piece(name.as_str(), nodes_of(&ids), seam_allowance_formula.as_str()) {
                Ok(id) => id,
                Err(e) => {
                    return Err(ActionScriptError::Pattern(e));
                },
            };
            set_name(names, name.as_str(), id);
            Ok(())
        },
        _ => Ok(()),
    }
}

/// Runs one action against `document` and the name table.
fn run_step(
    document: &mut Document,
    names: &mut Vec<(String, ObjectId)>,
    action: &Action,
) -> (r: Result<(), ActionScriptError>)
    requires
        old(document)@.wf(),
        old(document)@.next_id < u32::MAX,
        keys_distinct(names_view(old(names)@)),
    ensures
        final(document)@.wf(),
        keys_distinct(names_view(final(names)@)),
        final(document)@.next_id <= old(document)@.next_id + 1,
        match step_spec(old(document)@, names_view(old(names)@), action@) {
            Ok((d, n)) => r is Ok && final(document)@ == d && names_view(final(names)@) == n,
            Err(f) => r matches Err(e) && fails_with(e, f),
        },
{
    match action {
        Action::AddBasePoint { .. } => step_add_base_point(document, names, action),
        Action::AddEndLine { .. } => step_add_end_line(document, names, action),
        Action::AddLine { .. } => step_add_line(document, names, action),
        Action::AddAlongLine { .. } => step_add_along_line(document, names, action),
        Action::AddNormal { .. } => step_add_normal(document, names, action),
        Action::AddBisector { .. } => step_add_bisector(document, names, action),
        Action::AddHeight { .. } => step_add_height(document, names, action),
        Action::AddMidpoint { .. } => step_add_midpoint(document, names, action),
        Action::RemoveTool { .. } => step_remove_tool(document, names, action),
        Action::ModifyBasePoint { .. } => step_modify_base_point(document, names, action),
        Action::ModifyEndLine { .. } => step_modify_end_line(document, names, action),
        Action::AddShoulderPoint { .. } => step_add_shoulder_point(document, names, action),
        Action::AddLineIntersect { .. } => step_add_line_intersect(document, names, action),
        Action::AddPointOfIntersection { .. } => step_add_point_of_intersection(document, names, action),
        Action::AddTriangle { .. } => step_add_triangle(document, names, action),
        Action::AddPointOfContact { .. } => step_add_point_of_contact(document, names, action),
        Action::AddPiece { .. } => step_add_piece(document, names, action),
    }
}

/// Runs `actions` in order from `document` and `names`, stopping at the
/// first failure.
fn run_actions(initial: Document, initial_names: Vec<(String, ObjectId)>, actions: &Vec<Action>) -> (r:
    Result<Document, ActionScriptError>)
    requires
        initial@.wf(),
        keys_distinct(names_view(initial_names@)),
        initial@.next_id + actions@.len() <= u32::MAX,
    ensures
        match run_all(initial@, names_view(initial_names@), actions_view(actions@)) {
            Ok(d) => r matches Ok(doc) && doc@ == d && doc@.wf(),
            Err(f) => r matches Err(e) && fails_with(e, f),
        },
{
    let ghost all = actions_view(actions@);
    let ghost start = initial@;
    let ghost start_names = names_view(initial_names@);
    let mut document = initial;
    let mut names = initial_names;
    let mut i: usize = 0;
    proof {
        assert(all.subrange(0, all.len() as int) =~= all);
    }
    while i < actions.len()
        invariant
            all == actions_view(actions@),
            start == initial@,
            start_names == names_view(initial_names@),
            i <= actions@.len(),
            document@.wf(),
            keys_distinct(names_view(names@)),
            document@.next_id + (actions@.len() - i) <= u32::MAX,
            run_all(start, start_names, all) == run_all(
                document@,
                names_view(names@),
                all.subrange(i as int, all.len() as int),
            ),
        decreases actions@.len() - i,
    {
        let ghost rest = all.subrange(i as int, all.len() as int);
        let ghost d0 = document@;
        let ghost n0 = names_view(names@);
        proof {
            assert(rest[0] == actions@[i as int]@);
            assert(rest.drop_first() =~= all.subrange(i + 1, all.len() as int));
        }
        match run_step(&mut document, &mut names, &actions[i]) {
            Ok(()) => {},
            Err(e) => {
                proof {
                    assert(run_all(d0, n0, rest) == match step_spec(d0, n0, rest[0]) {
                        Err(f) => Err(f),
                        Ok((d, n)) => run_all(d, n, rest.drop_first()),
                    });
                }
                return Err(e);
            },
        }
        i = i + 1;
    }
    Ok(document)
}

/// Runs a script whose files the caller has already read: `loaded` is the
/// pattern to start from (its named tools can be referenced by name), and
/// `measurements` the measurement values to apply first. Returns the
/// resulting document, or the failure of the first action that fails.
pub fn execute_action_script(
    script: &ActionScript,
    loaded: Option<Document>,
    measurements: Option<Vec<(String, Real)>>,
) -> (r: Result<Document, ActionScriptError>)
    requires
        loaded matches Some(d) ==> d@.wf(),
        (match loaded {
            Some(d) => d@.next_id,
            None => 0,
        }) + script.actions@.len() <= u32::MAX,
    ensures
        match script_outcome(
            actions_view(script.actions@),
            match loaded {
                Some(d) => Some(d@),
                None => None,
            },
            match measurements {
                Some(ms) => Some(ms@.map_values(|m: (String, Real)| (m.0@, m.1))),
                None => None,
            },
        ) {
            Ok(d) => r matches Ok(doc) && doc@ == d && doc@.wf(),
            Err(f) => r matches Err(e) && fails_with(e, f),
        },
{
    let (mut document, names) = match loaded {
        Some(doc) => {
            let names = names_from_history(&doc);
            (doc, names)
        },
        None => {
            let names: Vec<(String, ObjectId)> = Vec::new();
            proof {
                assert(names_view(names@) =~= Seq::<(Seq<char>, ObjectId)>::empty());
            }
            (Document::new(), names)
        },
    };
    if let Some(ms) = measurements {
        document.apply_measurements(ms);
    }
    run_actions(document, names, &script.actions)
}


/// Modifying a base point moves it only along the axes given: after a
/// successful `ModifyBasePoint`, the named point is still a base point
/// with the same name and id at the same place in the history; each given
/// coordinate is the new value, and each absent one is that same axis of
/// the point before the action. Every other record, the variables, the id
/// counter and the name table are unchanged.
pub proof fn law_modify_base_point_keeps_absent_coordinates(
    doc: DocumentView,
    names: Seq<(Seq<char>, ObjectId)>,
    name: Seq<char>,
    x: Option<Real>,
    y: Option<Real>,
)
    requires
        doc.wf(),
        step_spec(doc, names, ActionView::ModifyBasePoint { name, x, y }) is Ok,
    ensures
        lookup(names, name) is Some,
        ({
            let id = lookup(names, name)->0;
            let i = tool_index(doc.records, id);
            let before = doc.records[i].kind;
            let result = step_spec(doc, names, ActionView::ModifyBasePoint { name, x, y })->Ok_0;
            let after = result.0;
            &&& has_tool(doc.records, id)
            &&& before is BasePoint
            &&& after.records.len() == doc.records.len()
            &&& after.records[i].id == id
            &&& after.records[i].kind is BasePoint
            &&& after.records[i].kind->BasePoint_name == before->BasePoint_name
            &&& after.records[i].kind->BasePoint_x == (match x {
                Some(v) => v,
                None => before->BasePoint_x,
            })
            &&& after.records[i].kind->BasePoint_y == (match y {
                Some(v) => v,
                None => before->BasePoint_y,
            })
            &&& forall|j: int|
                0 <= j < doc.records.len() && j != i ==> after.records[j] == doc.records[j]
            &&& after.vars == doc.vars
            &&& after.next_id == doc.next_id
            &&& result.1 == names
        }),
{
    reveal(step_spec);
}


/// Modifying an end line changes only the formulas given: after a
/// successful `ModifyEndLine`, the named tool is still an end line with
/// the same name, id, place and base point; each given formula replaces
/// the formula of the same name (angle for angle, length for length), and
/// each absent one is kept. Every other record, the variables, the id
/// counter and the name table are unchanged.
pub proof fn law_modify_end_line_keeps_absent_formulas(
    doc: DocumentView,
    names: Seq<(Seq<char>, ObjectId)>,
    name: Seq<char>,
    angle_formula: Option<Seq<char>>,
    length_formula: Option<Seq<char>>,
)
    requires
        doc.wf(),
        step_spec(doc, names, ActionView::ModifyEndLine { name, angle_formula, length_formula }) is Ok,
    ensures
        lookup(names, name) is Some,
        ({
            let id = lookup(names, name)->0;
            let i = tool_index(doc.records, id);
            let before = doc.records[i].kind;
            let result = step_spec(
                doc,
                names,
                ActionView::ModifyEndLine { name, angle_formula, length_formula },
            )->Ok_0;
            let after = result.0;
            &&& has_tool(doc.records, id)
            &&& before is EndLine
            &&& after.records.len() == doc.records.len()
            &&& after.records[i].id == id
            &&& after.records[i].kind is EndLine
            &&& after.records[i].kind->EndLine_name == before->EndLine_name
            &&& after.records[i].kind->EndLine_base_point == before->EndLine_base_point
            &&& after.records[i].kind->EndLine_angle_formula == (match angle_formula {
                Some(f) => f,
                None => before->EndLine_angle_formula,
            })
            &&& after.records[i].kind->EndLine_length_formula == (match length_formula {
                Some(f) => f,
                None => before->EndLine_length_formula,
            })
            &&& forall|j: int|
                0 <= j < doc.records.len() && j != i ==> after.records[j] == doc.records[j]
            &&& after.vars == doc.vars
            &&& after.next_id == doc.next_id
            &&& result.1 == names
        }),
{
    reveal(step_spec);
}


/// A name stored in a table that did not hold it is found again, under
/// the id it was stored with.
proof fn lemma_lookup_after_new_name(t: Seq<(Seq<char>, ObjectId)>, k: Seq<char>, id: ObjectId)
    requires
        !has_key(t, k),
    ensures
        lookup(name_set(t, k, id), k) == Some(id),
{
    let u = t.push((k, id));
    assert(u[t.len() as int].0 == k);
    assert(has_key(u, k));
    let i = key_index(u, k);
    if i < t.len() {
        assert(u[i] == t[i]);
        assert(has_key(t, k));
    }
}

/// Adding a base point under a new name appends it, with the name and
/// coordinates given, under the next id, and the name then stands for
/// that id. The id counter moves on by one.
pub proof fn law_add_base_point_is_named(
    doc: DocumentView,
    names: Seq<(Seq<char>, ObjectId)>,
    name: Seq<char>,
    x: Real,
    y: Real,
)
    requires
        doc.wf(),
        !has_key(names, name),
    ensures
        step_spec(doc, names, ActionView::AddBasePoint { name, x, y }) is Ok,
        ({
            let result = step_spec(doc, names, ActionView::AddBasePoint { name, x, y })->Ok_0;
            let id = ObjectId(doc.next_id as u32);
            &&& result.0.records == doc.records.push(
                ToolRecordView { id, kind: ToolKindView::BasePoint { name, x, y } },
            )
            &&& result.0.next_id == doc.next_id + 1
            &&& result.0.vars == doc.vars
            &&& lookup(result.1, name) == Some(id)
        }),
{
    reveal(step_spec);
    lemma_lookup_after_new_name(names, name, ObjectId(doc.next_id as u32));
}

/// Adding a line joins the points its two names stand for, in the order
/// given: the appended record's `p1` is the tool named first and `p2` the
/// tool named second. The name table is unchanged.
pub proof fn law_add_line_joins_named_points(
    doc: DocumentView,
    names: Seq<(Seq<char>, ObjectId)>,
    p1: Seq<char>,
    p2: Seq<char>,
)
    requires
        doc.wf(),
        step_spec(doc, names, ActionView::AddLine { p1, p2 }) is Ok,
    ensures
        lookup(names, p1) is Some,
        lookup(names, p2) is Some,
        ({
            let result = step_spec(doc, names, ActionView::AddLine { p1, p2 })->Ok_0;
            &&& result.0.records == doc.records.push(
                ToolRecordView {
                    id: ObjectId(doc.next_id as u32),
                    kind: ToolKindView::Line { p1: lookup(names, p1)->0, p2: lookup(names, p2)->0 },
                },
            )
            &&& result.1 == names
        }),
{
    reveal(step_spec);
    reveal_with_fuel(resolve_all, 3);
}

/// Adding a normal point keeps each formula in its place: the appended
/// record's length formula is the action's length formula and its angle
/// formula the action's angle formula, its points are those named, in
/// order, and the new name stands for its id.
pub proof fn law_add_normal_keeps_formulas_in_place(
    doc: DocumentView,
    names: Seq<(Seq<char>, ObjectId)>,
    name: Seq<char>,
    p1: Seq<char>,
    p2: Seq<char>,
    length_formula: Seq<char>,
    angle_formula: Seq<char>,
)
    requires
        doc.wf(),
        step_spec(doc, names, ActionView::AddNormal { name, p1, p2, length_formula, angle_formula }) is Ok,
    ensures
        !has_key(names, name),
        lookup(names, p1) is Some,
        lookup(names, p2) is Some,
        ({
            let result = step_spec(
                doc,
                names,
                ActionView::AddNormal { name, p1, p2, length_formula, angle_formula },
            )->Ok_0;
            let id = ObjectId(doc.next_id as u32);
            &&& result.0.records == doc.records.push(
                ToolRecordView {
                    id,
                    kind: ToolKindView::Normal {
                        name,
                        p1: lookup(names, p1)->0,
                        p2: lookup(names, p2)->0,
                        length_formula,
                        angle_formula,
                    },
                },
            )
            &&& lookup(result.1, name) == Some(id)
        }),
{
    reveal(step_spec);
    reveal_with_fuel(resolve_all, 3);
    lemma_lookup_after_new_name(names, name, ObjectId(doc.next_id as u32));
}

} // verus!
