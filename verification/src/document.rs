use vstd::prelude::*;

use crate::error::PatternError;
use crate::id::ObjectId;
use crate::scalar::Real;
use crate::variable::{
    has_name, kind_of, names_distinct, table_insert, table_remove_kind, table_set, table_view,
    table_without_kind, Variable, VariableKind, VariableView,
};

verus! {

/// Everything that can go wrong editing a [`Document`]'s history directly
/// (as opposed to adding tools, which reports `PatternError`).
#[derive(Debug, Clone, Copy, PartialEq, Eq, Structural)]
pub enum DocumentError {
    /// Two records share an id.
    DuplicateId(ObjectId),
    /// The tool `id` cannot be removed: the tool `used_by` depends on it.
    ToolInUse { id: ObjectId, used_by: ObjectId },
    /// A replacement kind references an id the document does not hold.
    MissingDependency(ObjectId),
    /// No tool with this id exists in the document.
    ToolNotFound(ObjectId),
}

/// One boundary vertex of a piece: the point it references, and whether
/// its adjacent edges are excluded from the seam allowance.
#[derive(Debug, Clone, Copy, PartialEq, Eq, Structural)]
pub struct PieceNode {
    pub point: ObjectId,
    pub excluded_from_seam_allowance: bool,
}

/// The kind of a [`ToolRecord`] and the inputs that tool needs: literal
/// values, formula strings and the ids of the points it depends on.
#[derive(Debug, Clone, PartialEq)]
pub enum ToolKind {
    /// A literal starting point; depends on nothing.
    BasePoint { name: String, x: Real, y: Real },
    /// A point at `angle_formula` degrees and `length_formula` from `base_point`.
    EndLine { name: String, base_point: ObjectId, angle_formula: String, length_formula: String },
    /// A straight line between two existing points.
    Line { p1: ObjectId, p2: ObjectId },
    /// A point `length_formula` from `p1`, continuing along the direction toward `p2`.
    AlongLine { name: String, p1: ObjectId, p2: ObjectId, length_formula: String },
    /// A point off `p1`, perpendicular to `p1`-`p2` rotated by `angle_formula` degrees, at `length_formula`.
    Normal { name: String, p1: ObjectId, p2: ObjectId, length_formula: String, angle_formula: String },
    /// A point on the bisector of the angle `p1`-`p2`-`p3` (vertex `p2`), at `length_formula` from `p2`.
    Bisector { name: String, p1: ObjectId, p2: ObjectId, p3: ObjectId, length_formula: String },
    /// The foot of the perpendicular from `point` onto the line `line_p1`-`line_p2`.
    Height { name: String, point: ObjectId, line_p1: ObjectId, line_p2: ObjectId },
    /// The point halfway between `p1` and `p2`.
    Midpoint { name: String, p1: ObjectId, p2: ObjectId },
    /// A closed boundary through existing points, with a seam-allowance width formula.
    Piece { name: String, nodes: Vec<PieceNode>, seam_allowance_formula: String },
    /// A point on the ray `p1_line`->`p2_line` at `length_formula` from `shoulder`, past `p2_line`.
    ShoulderPoint { name: String, p1_line: ObjectId, p2_line: ObjectId, shoulder: ObjectId, length_formula: String },
    /// Where the lines `p1_line1`-`p2_line1` and `p1_line2`-`p2_line2` cross.
    LineIntersect { name: String, p1_line1: ObjectId, p2_line1: ObjectId, p1_line2: ObjectId, p2_line2: ObjectId },
    /// The point with `p1`'s x and `p2`'s y.
    PointOfIntersection { name: String, p1: ObjectId, p2: ObjectId },
    /// The point on the axis line where the hypotenuse segment is seen at a right angle.
    Triangle { name: String, axis_p1: ObjectId, axis_p2: ObjectId, hypotenuse_p1: ObjectId, hypotenuse_p2: ObjectId },
    /// Where a circle of `radius_formula` around `center` crosses the segment `p1`-`p2`.
    PointOfContact { name: String, center: ObjectId, p1: ObjectId, p2: ObjectId, radius_formula: String },
    /// A circular arc around `center` with radius and start/end angle formulas.
    Arc { name: String, center: ObjectId, radius_formula: String, start_angle_formula: String, end_angle_formula: String },
    /// A cubic Bezier between `p1` and `p4`, with tangent angle/handle length formulas per end.
    Spline { name: String, p1: ObjectId, p4: ObjectId, angle1_formula: String, length1_formula: String, angle2_formula: String, length2_formula: String },
}

/// The mathematical content of a [`ToolKind`].
pub enum ToolKindView {
    BasePoint { name: Seq<char>, x: Real, y: Real },
    EndLine { name: Seq<char>, base_point: ObjectId, angle_formula: Seq<char>, length_formula: Seq<char> },
    Line { p1: ObjectId, p2: ObjectId },
    AlongLine { name: Seq<char>, p1: ObjectId, p2: ObjectId, length_formula: Seq<char> },
    Normal { name: Seq<char>, p1: ObjectId, p2: ObjectId, length_formula: Seq<char>, angle_formula: Seq<char> },
    Bisector { name: Seq<char>, p1: ObjectId, p2: ObjectId, p3: ObjectId, length_formula: Seq<char> },
    Height { name: Seq<char>, point: ObjectId, line_p1: ObjectId, line_p2: ObjectId },
    Midpoint { name: Seq<char>, p1: ObjectId, p2: ObjectId },
    Piece { name: Seq<char>, nodes: Seq<PieceNode>, seam_allowance_formula: Seq<char> },
    ShoulderPoint { name: Seq<char>, p1_line: ObjectId, p2_line: ObjectId, shoulder: ObjectId, length_formula: Seq<char> },
    LineIntersect { name: Seq<char>, p1_line1: ObjectId, p2_line1: ObjectId, p1_line2: ObjectId, p2_line2: ObjectId },
    PointOfIntersection { name: Seq<char>, p1: ObjectId, p2: ObjectId },
    Triangle { name: Seq<char>, axis_p1: ObjectId, axis_p2: ObjectId, hypotenuse_p1: ObjectId, hypotenuse_p2: ObjectId },
    PointOfContact { name: Seq<char>, center: ObjectId, p1: ObjectId, p2: ObjectId, radius_formula: Seq<char> },
    Arc { name: Seq<char>, center: ObjectId, radius_formula: Seq<char>, start_angle_formula: Seq<char>, end_angle_formula: Seq<char> },
    Spline { name: Seq<char>, p1: ObjectId, p4: ObjectId, angle1_formula: Seq<char>, length1_formula: Seq<char>, angle2_formula: Seq<char>, length2_formula: Seq<char> },
}

impl View for ToolKind {
    type V = ToolKindView;

    open spec fn view(&self) -> ToolKindView {
        match self {
            ToolKind::BasePoint { name, x, y } => ToolKindView::BasePoint { name: name@, x: *x, y: *y },
            ToolKind::EndLine { name, base_point, angle_formula, length_formula } => ToolKindView::EndLine { name: name@, base_point: *base_point, angle_formula: angle_formula@, length_formula: length_formula@ },
            ToolKind::Line { p1, p2 } => ToolKindView::Line { p1: *p1, p2: *p2 },
            ToolKind::AlongLine { name, p1, p2, length_formula } => ToolKindView::AlongLine { name: name@, p1: *p1, p2: *p2, length_formula: length_formula@ },
            ToolKind::Normal { name, p1, p2, length_formula, angle_formula } => ToolKindView::Normal { name: name@, p1: *p1, p2: *p2, length_formula: length_formula@, angle_formula: angle_formula@ },
            ToolKind::Bisector { name, p1, p2, p3, length_formula } => ToolKindView::Bisector { name: name@, p1: *p1, p2: *p2, p3: *p3, length_formula: length_formula@ },
            ToolKind::Height { name, point, line_p1, line_p2 } => ToolKindView::Height { name: name@, point: *point, line_p1: *line_p1, line_p2: *line_p2 },
            ToolKind::Midpoint { name, p1, p2 } => ToolKindView::Midpoint { name: name@, p1: *p1, p2: *p2 },
            ToolKind::Piece { name, nodes, seam_allowance_formula } => ToolKindView::Piece { name: name@, nodes: nodes@, seam_allowance_formula: seam_allowance_formula@ },
            ToolKind::ShoulderPoint { name, p1_line, p2_line, shoulder, length_formula } => ToolKindView::ShoulderPoint { name: name@, p1_line: *p1_line, p2_line: *p2_line, shoulder: *shoulder, length_formula: length_formula@ },
            ToolKind::LineIntersect { name, p1_line1, p2_line1, p1_line2, p2_line2 } => ToolKindView::LineIntersect { name: name@, p1_line1: *p1_line1, p2_line1: *p2_line1, p1_line2: *p1_line2, p2_line2: *p2_line2 },
            ToolKind::PointOfIntersection { name, p1, p2 } => ToolKindView::PointOfIntersection { name: name@, p1: *p1, p2: *p2 },
            ToolKind::Triangle { name, axis_p1, axis_p2, hypotenuse_p1, hypotenuse_p2 } => ToolKindView::Triangle { name: name@, axis_p1: *axis_p1, axis_p2: *axis_p2, hypotenuse_p1: *hypotenuse_p1, hypotenuse_p2: *hypotenuse_p2 },
            ToolKind::PointOfContact { name, center, p1, p2, radius_formula } => ToolKindView::PointOfContact { name: name@, center: *center, p1: *p1, p2: *p2, radius_formula: radius_formula@ },
            ToolKind::Arc { name, center, radius_formula, start_angle_formula, end_angle_formula } => ToolKindView::Arc { name: name@, center: *center, radius_formula: radius_formula@, start_angle_formula: start_angle_formula@, end_angle_formula: end_angle_formula@ },
            ToolKind::Spline { name, p1, p4, angle1_formula, length1_formula, angle2_formula, length2_formula } => ToolKindView::Spline { name: name@, p1: *p1, p4: *p4, angle1_formula: angle1_formula@, length1_formula: length1_formula@, angle2_formula: angle2_formula@, length2_formula: length2_formula@ },
        }
    }
}

/// The ids a tool depends on, in the order its inputs are listed.
pub open spec fn refs(k: ToolKindView) -> Seq<ObjectId> {
    match k {
        ToolKindView::BasePoint { .. } => Seq::empty(),
        ToolKindView::EndLine { base_point, .. } => seq![base_point],
        ToolKindView::Line { p1, p2, .. } => seq![p1, p2],
        ToolKindView::AlongLine { p1, p2, .. } => seq![p1, p2],
        ToolKindView::Normal { p1, p2, .. } => seq![p1, p2],
        ToolKindView::Bisector { p1, p2, p3, .. } => seq![p1, p2, p3],
        ToolKindView::Height { point, line_p1, line_p2, .. } => seq![point, line_p1, line_p2],
        ToolKindView::Midpoint { p1, p2, .. } => seq![p1, p2],
        ToolKindView::Piece { nodes, .. } => nodes.map_values(|n: PieceNode| n.point),
        ToolKindView::ShoulderPoint { p1_line, p2_line, shoulder, .. } => seq![p1_line, p2_line, shoulder],
        ToolKindView::LineIntersect { p1_line1, p2_line1, p1_line2, p2_line2, .. } => seq![p1_line1, p2_line1, p1_line2, p2_line2],
        ToolKindView::PointOfIntersection { p1, p2, .. } => seq![p1, p2],
        ToolKindView::Triangle { axis_p1, axis_p2, hypotenuse_p1, hypotenuse_p2, .. } => seq![axis_p1, axis_p2, hypotenuse_p1, hypotenuse_p2],
        ToolKindView::PointOfContact { center, p1, p2, .. } => seq![center, p1, p2],
        ToolKindView::Arc { center, .. } => seq![center],
        ToolKindView::Spline { p1, p4, .. } => seq![p1, p4],
    }
}

/// The ids `kind` depends on: none for a base point, the referenced
/// points otherwise (every node's point for a piece).
pub fn references_of(kind: &ToolKind) -> (r: Vec<ObjectId>)
    ensures
        r@ == refs(kind@),
{
    match kind {
        ToolKind::BasePoint { .. } => {
            let r: Vec<ObjectId> = Vec::new();
            proof {
                assert(r@ =~= Seq::<ObjectId>::empty());
            }
            r
        },
        ToolKind::EndLine { base_point, .. } => {
            let r = vec![*base_point];
            proof {
                assert(r@ =~= seq![*base_point]);
            }
            r
        },
        ToolKind::Line { p1, p2, .. } => {
            let r = vec![*p1, *p2];
            proof {
                assert(r@ =~= seq![*p1, *p2]);
            }
            r
        },
        ToolKind::AlongLine { p1, p2, .. } => {
            let r = vec![*p1, *p2];
            proof {
                assert(r@ =~= seq![*p1, *p2]);
            }
            r
        },
        ToolKind::Normal { p1, p2, .. } => {
            let r = vec![*p1, *p2];
            proof {
                assert(r@ =~= seq![*p1, *p2]);
            }
            r
        },
        ToolKind::Bisector { p1, p2, p3, .. } => {
            let r = vec![*p1, *p2, *p3];
            proof {
                assert(r@ =~= seq![*p1, *p2, *p3]);
            }
            r
        },
        ToolKind::Height { point, line_p1, line_p2, .. } => {
            let r = vec![*point, *line_p1, *line_p2];
            proof {
                assert(r@ =~= seq![*point, *line_p1, *line_p2]);
            }
            r
        },
        ToolKind::Midpoint { p1, p2, .. } => {
            let r = vec![*p1, *p2];
            proof {
                assert(r@ =~= seq![*p1, *p2]);
            }
            r
        },
        ToolKind::Piece { nodes, .. } => {
            let mut r: Vec<ObjectId> = Vec::new();
            let mut i: usize = 0;
            while i < nodes.len()
                invariant
                    i <= nodes@.len(),
                    r@ == nodes@.subrange(0, i as int).map_values(|n: PieceNode| n.point),
                decreases nodes@.len() - i,
            {
                r.push(nodes[i].point);
                proof {
                    assert(nodes@.subrange(0, i + 1).map_values(|n: PieceNode| n.point) =~= nodes@.subrange(
                        0,
                        i as int,
                    ).map_values(|n: PieceNode| n.point).push(nodes@[i as int].point));
                }
                i = i + 1;
            }
            proof {
                assert(nodes@.subrange(0, nodes@.len() as int) =~= nodes@);
            }
            r
        },
        ToolKind::ShoulderPoint { p1_line, p2_line, shoulder, .. } => {
            let r = vec![*p1_line, *p2_line, *shoulder];
            proof {
                assert(r@ =~= seq![*p1_line, *p2_line, *shoulder]);
            }
            r
        },
        ToolKind::LineIntersect { p1_line1, p2_line1, p1_line2, p2_line2, .. } => {
            let r = vec![*p1_line1, *p2_line1, *p1_line2, *p2_line2];
            proof {
                assert(r@ =~= seq![*p1_line1, *p2_line1, *p1_line2, *p2_line2]);
            }
            r
        },
        ToolKind::PointOfIntersection { p1, p2, .. } => {
            let r = vec![*p1, *p2];
            proof {
                assert(r@ =~= seq![*p1, *p2]);
            }
            r
        },
        ToolKind::Triangle { axis_p1, axis_p2, hypotenuse_p1, hypotenuse_p2, .. } => {
            let r = vec![*axis_p1, *axis_p2, *hypotenuse_p1, *hypotenuse_p2];
            proof {
                assert(r@ =~= seq![*axis_p1, *axis_p2, *hypotenuse_p1, *hypotenuse_p2]);
            }
            r
        },
        ToolKind::PointOfContact { center, p1, p2, .. } => {
            let r = vec![*center, *p1, *p2];
            proof {
                assert(r@ =~= seq![*center, *p1, *p2]);
            }
            r
        },
        ToolKind::Arc { center, .. } => {
            let r = vec![*center];
            proof {
                assert(r@ =~= seq![*center]);
            }
            r
        },
        ToolKind::Spline { p1, p4, .. } => {
            let r = vec![*p1, *p4];
            proof {
                assert(r@ =~= seq![*p1, *p4]);
            }
            r
        },
    }
}

/// A copy of `kind` with the same content.
pub fn copy_kind(kind: &ToolKind) -> (r: ToolKind)
    ensures
        r@ == kind@,
{
    match kind {
            ToolKind::BasePoint { name, x, y } => ToolKind::BasePoint { name: name.clone(), x: *x, y: *y },
            ToolKind::EndLine { name, base_point, angle_formula, length_formula } => ToolKind::EndLine { name: name.clone(), base_point: *base_point, angle_formula: angle_formula.clone(), length_formula: length_formula.clone() },
            ToolKind::Line { p1, p2 } => ToolKind::Line { p1: *p1, p2: *p2 },
            ToolKind::AlongLine { name, p1, p2, length_formula } => ToolKind::AlongLine { name: name.clone(), p1: *p1, p2: *p2, length_formula: length_formula.clone() },
            ToolKind::Normal { name, p1, p2, length_formula, angle_formula } => ToolKind::Normal { name: name.clone(), p1: *p1, p2: *p2, length_formula: length_formula.clone(), angle_formula: angle_formula.clone() },
            ToolKind::Bisector { name, p1, p2, p3, length_formula } => ToolKind::Bisector { name: name.clone(), p1: *p1, p2: *p2, p3: *p3, length_formula: length_formula.clone() },
            ToolKind::Height { name, point, line_p1, line_p2 } => ToolKind::Height { name: name.clone(), point: *point, line_p1: *line_p1, line_p2: *line_p2 },
            ToolKind::Midpoint { name, p1, p2 } => ToolKind::Midpoint { name: name.clone(), p1: *p1, p2: *p2 },
            ToolKind::Piece { name, nodes, seam_allowance_formula } => ToolKind::Piece { name: name.clone(), nodes: nodes.clone(), seam_allowance_formula: seam_allowance_formula.clone() },
            ToolKind::ShoulderPoint { name, p1_line, p2_line, shoulder, length_formula } => ToolKind::ShoulderPoint { name: name.clone(), p1_line: *p1_line, p2_line: *p2_line, shoulder: *shoulder, length_formula: length_formula.clone() },
            ToolKind::LineIntersect { name, p1_line1, p2_line1, p1_line2, p2_line2 } => ToolKind::LineIntersect { name: name.clone(), p1_line1: *p1_line1, p2_line1: *p2_line1, p1_line2: *p1_line2, p2_line2: *p2_line2 },
            ToolKind::PointOfIntersection { name, p1, p2 } => ToolKind::PointOfIntersection { name: name.clone(), p1: *p1, p2: *p2 },
            ToolKind::Triangle { name, axis_p1, axis_p2, hypotenuse_p1, hypotenuse_p2 } => ToolKind::Triangle { name: name.clone(), axis_p1: *axis_p1, axis_p2: *axis_p2, hypotenuse_p1: *hypotenuse_p1, hypotenuse_p2: *hypotenuse_p2 },
            ToolKind::PointOfContact { name, center, p1, p2, radius_formula } => ToolKind::PointOfContact { name: name.clone(), center: *center, p1: *p1, p2: *p2, radius_formula: radius_formula.clone() },
            ToolKind::Arc { name, center, radius_formula, start_angle_formula, end_angle_formula } => ToolKind::Arc { name: name.clone(), center: *center, radius_formula: radius_formula.clone(), start_angle_formula: start_angle_formula.clone(), end_angle_formula: end_angle_formula.clone() },
            ToolKind::Spline { name, p1, p4, angle1_formula, length1_formula, angle2_formula, length2_formula } => ToolKind::Spline { name: name.clone(), p1: *p1, p4: *p4, angle1_formula: angle1_formula.clone(), length1_formula: length1_formula.clone(), angle2_formula: angle2_formula.clone(), length2_formula: length2_formula.clone() },
    }
}

/// One entry of a [`Document`]'s ordered history: the id the tool was
/// given and what kind of tool it is.
#[derive(Debug, Clone, PartialEq)]
pub struct ToolRecord {
    pub id: ObjectId,
    pub kind: ToolKind,
}

/// The mathematical content of a [`ToolRecord`].
pub struct ToolRecordView {
    pub id: ObjectId,
    pub kind: ToolKindView,
}

impl View for ToolRecord {
    type V = ToolRecordView;

    open spec fn view(&self) -> ToolRecordView {
        ToolRecordView { id: self.id, kind: self.kind@ }
    }
}

/// A copy of `record` with the same content.
pub fn copy_record(record: &ToolRecord) -> (r: ToolRecord)
    ensures
        r@ == record@,
{
    ToolRecord { id: record.id, kind: copy_kind(&record.kind) }
}

/// The views of a history.
pub open spec fn records_view(h: Seq<ToolRecord>) -> Seq<ToolRecordView> {
    h.map_values(|r: ToolRecord| r@)
}

/// Whether some record has id `id`.
pub open spec fn has_tool(h: Seq<ToolRecordView>, id: ObjectId) -> bool {
    exists|i: int| 0 <= i < h.len() && h[i].id == id
}

/// The index of the record with id `id` (meaningful when `has_tool`).
pub open spec fn tool_index(h: Seq<ToolRecordView>, id: ObjectId) -> int {
    choose|i: int| 0 <= i < h.len() && h[i].id == id
}

/// No two records share an id.
pub open spec fn ids_distinct(h: Seq<ToolRecordView>) -> bool {
    forall|i: int, j: int| 0 <= i < h.len() && 0 <= j < h.len() && i != j ==> h[i].id != h[j].id
}

/// The first of `deps` (in order) that no record of `h` has as its id.
pub open spec fn first_missing(h: Seq<ToolRecordView>, deps: Seq<ObjectId>) -> Option<ObjectId>
    decreases deps.len(),
{
    if deps.len() == 0 {
        None
    } else if !has_tool(h, deps[0]) {
        Some(deps[0])
    } else {
        first_missing(h, deps.drop_first())
    }
}

/// The id of the first record (in history order) other than `id` itself
/// that depends on `id`.
pub open spec fn first_user(h: Seq<ToolRecordView>, id: ObjectId) -> Option<ObjectId>
    decreases h.len(),
{
    if h.len() == 0 {
        None
    } else if h[0].id != id && refs(h[0].kind).contains(id) {
        Some(h[0].id)
    } else {
        first_user(h.drop_first(), id)
    }
}

/// The id of the first record (in history order) whose id already
/// appeared earlier.
pub open spec fn first_duplicate(h: Seq<ToolRecordView>) -> Option<ObjectId>
    decreases h.len(),
{
    if h.len() == 0 {
        None
    } else {
        match first_duplicate(h.drop_last()) {
            Some(d) => Some(d),
            None => if has_tool(h.drop_last(), h.last().id) {
                Some(h.last().id)
            } else {
                None
            },
        }
    }
}

/// The largest raw id in `h`, or 0 for an empty history.
pub open spec fn max_raw_id(h: Seq<ToolRecordView>) -> nat
    decreases h.len(),
{
    if h.len() == 0 {
        0
    } else {
        let m = max_raw_id(h.drop_last());
        if h.last().id.0 > m {
            h.last().id.0 as nat
        } else {
            m
        }
    }
}

/// The mathematical content of a [`Document`]: its history, its variable
/// table and its id counter.
pub struct DocumentView {
    pub records: Seq<ToolRecordView>,
    pub vars: Seq<(Seq<char>, VariableView)>,
    pub next_id: nat,
}

impl DocumentView {
    /// The invariant every document keeps: distinct ids, all below the
    /// counter, distinct variable names.
    pub open spec fn wf(self) -> bool {
        &&& ids_distinct(self.records)
        &&& forall|i: int| 0 <= i < self.records.len() ==> self.records[i].id.0 < self.next_id
        &&& names_distinct(self.vars)
        &&& self.next_id <= u32::MAX
    }

    /// Whether a tool with `id` exists.
    pub open spec fn contains(self, id: ObjectId) -> bool {
        has_tool(self.records, id)
    }

    /// The document after appending `kind` under the counter's id.
    pub open spec fn with_tool(self, kind: ToolKindView) -> DocumentView {
        DocumentView {
            records: self.records.push(ToolRecordView { id: ObjectId(self.next_id as u32), kind }),
            vars: self.vars,
            next_id: self.next_id + 1,
        }
    }

    /// The outcome of an `add_*` constructor that checks `deps` in order:
    /// the first missing one, or the document with `kind` appended.
    pub open spec fn add_checked(self, deps: Seq<ObjectId>, kind: ToolKindView) -> Result<DocumentView, ObjectId> {
        match first_missing(self.records, deps) {
            Some(m) => Err(m),
            None => Ok(self.with_tool(kind)),
        }
    }

    /// Removing the tool `id`: refused while another tool depends on it or
    /// when it does not exist; otherwise the record leaves the history
    /// (the others keep their order) and is returned with its index. The
    /// counter is not rolled back.
    pub open spec fn removed(self, id: ObjectId) -> Result<(DocumentView, ToolRecordView, int), DocumentError> {
        match first_user(self.records, id) {
            Some(u) => Err(DocumentError::ToolInUse { id, used_by: u }),
            None => if !has_tool(self.records, id) {
                Err(DocumentError::ToolNotFound(id))
            } else {
                let i = tool_index(self.records, id);
                Ok(
                    (
                        DocumentView {
                            records: self.records.remove(i),
                            vars: self.vars,
                            next_id: self.next_id,
                        },
                        self.records[i],
                        i,
                    ),
                )
            },
        }
    }

    /// Replacing the kind of tool `id`: refused when the new kind
    /// references a missing id (the first one, in order) or `id` does not
    /// exist; otherwise the record keeps its place and id, and the old
    /// kind is returned.
    pub open spec fn replaced(self, id: ObjectId, kind: ToolKindView) -> Result<(DocumentView, ToolKindView), DocumentError> {
        match first_missing(self.records, refs(kind)) {
            Some(m) => Err(DocumentError::MissingDependency(m)),
            None => if !has_tool(self.records, id) {
                Err(DocumentError::ToolNotFound(id))
            } else {
                let i = tool_index(self.records, id);
                Ok(
                    (
                        DocumentView {
                            records: self.records.update(i, ToolRecordView { id, kind }),
                            vars: self.vars,
                            next_id: self.next_id,
                        },
                        self.records[i].kind,
                    ),
                )
            },
        }
    }

    /// Inserting `record` at `index`: refused when its id is present;
    /// otherwise later records shift right and the counter moves past the
    /// id if needed.
    pub open spec fn inserted(self, index: int, record: ToolRecordView) -> Result<DocumentView, DocumentError> {
        if has_tool(self.records, record.id) {
            Err(DocumentError::DuplicateId(record.id))
        } else {
            Ok(
                DocumentView {
                    records: self.records.insert(index, record),
                    vars: self.vars,
                    next_id: if record.id.0 >= self.next_id {
                        (record.id.0 + 1) as nat
                    } else {
                        self.next_id
                    },
                },
            )
        }
    }

    /// Whether `insert_tool_record_at(index, record)` runs without a panic:
    /// a duplicate is refused first, otherwise the index must be in range
    /// and the id below `u32::MAX`.
    pub open spec fn can_insert(self, index: int, record: ToolRecordView) -> bool {
        has_tool(self.records, record.id) || (0 <= index <= self.records.len() && record.id.0
            < u32::MAX)
    }
}

/// The measurement table after replacing every measurement with the
/// entries of `ms`, stored in order.
pub open spec fn with_measurements(
    t: Seq<(Seq<char>, VariableView)>,
    ms: Seq<(Seq<char>, Real)>,
) -> Seq<(Seq<char>, VariableView)>
    decreases ms.len(),
{
    if ms.len() == 0 {
        t
    } else {
        table_set(
            with_measurements(t, ms.drop_last()),
            ms.last().0,
            VariableView::Measurement { value: ms.last().1 },
        )
    }
}

/// The persistent, ordered source of truth of a pattern: every tool in
/// the order it was added, the base variable table formulas can
/// reference, and the counter ids come from (which never goes back, so
/// ids stay stable across recomputes and undo/redo).
#[derive(Debug, Clone, PartialEq)]
pub struct Document {
    history: Vec<ToolRecord>,
    base_variables: Vec<(String, Variable)>,
    next_id: u32,
}

impl View for Document {
    type V = DocumentView;

    closed spec fn view(&self) -> DocumentView {
        DocumentView {
            records: records_view(self.history@),
            vars: table_view(self.base_variables@),
            next_id: self.next_id as nat,
        }
    }
}


impl Document {
    /// An empty document: no tools, no variables, first id 0.
    pub fn new() -> (r: Document)
        ensures
            r@.wf(),
            r@.records == Seq::<ToolRecordView>::empty(),
            r@.vars == Seq::<(Seq<char>, VariableView)>::empty(),
            r@.next_id == 0,
    {
        let r = Document { history: Vec::new(), base_variables: Vec::new(), next_id: 0 };
        proof {
            assert(records_view(r.history@) =~= Seq::<ToolRecordView>::empty());
            assert(table_view(r.base_variables@) =~= Seq::<(Seq<char>, VariableView)>::empty());
        }
        r
    }

    /// The raw id the next added tool will receive.
    pub fn next_raw_id(&self) -> (r: u32)
        ensures
            r == self@.next_id,
    {
        self.next_id
    }

    /// Whether a tool can still be added: the id counter is not exhausted.
    pub open spec fn can_add(&self) -> bool {
        self@.next_id < u32::MAX
    }

    /// Appends a tool of kind `kind` under the next id and returns that id.
    /// Ids come from the document's own counter, so they never repeat.
    pub fn add_tool(&mut self, kind: ToolKind) -> (id: ObjectId)
        requires
            old(self)@.wf(),
            old(self).can_add(),
        ensures
            final(self)@.wf(),
            id.0 == old(self)@.next_id,
            final(self)@ == old(self)@.with_tool(kind@),
    {
        let id = ObjectId::new(self.next_id);
        let ghost h = records_view(self.history@);
        self.next_id = self.next_id + 1;
        let record = ToolRecord { id, kind };
        self.history.push(record);
        proof {
            assert(records_view(self.history@) =~= h.push(ToolRecordView { id, kind: kind@ }));
            assert forall|i: int, j: int|
                0 <= i < records_view(self.history@).len() && 0 <= j < records_view(
                    self.history@,
                ).len() && i != j implies records_view(self.history@)[i].id != records_view(
                self.history@,
            )[j].id by {
                if i < h.len() && j < h.len() {
                } else if i == h.len() {
                    assert(h[j].id.0 < id.0);
                } else {
                    assert(h[i].id.0 < id.0);
                }
            }
        }
        id
    }

    /// Stores `var` under `name` in the base variable table, overwriting a
    /// variable of the same name.
    pub fn set_variable(&mut self, name: &str, var: Variable)
        requires
            old(self)@.wf(),
        ensures
            final(self)@.wf(),
            final(self)@ == (DocumentView {
                vars: table_set(old(self)@.vars, name@, var@),
                ..old(self)@
            }),
    {
        table_insert(&mut self.base_variables, name, var);
    }

    /// Replaces every loaded measurement with `measurements` ("replace, not
    /// merge": names absent from the new set disappear); variables of other
    /// kinds are untouched. Entries are stored in order, so a repeated name
    /// keeps its last value.
    pub fn apply_measurements(&mut self, measurements: Vec<(String, Real)>)
        requires
            old(self)@.wf(),
        ensures
            final(self)@.wf(),
            final(self)@ == (DocumentView {
                vars: with_measurements(
                    table_without_kind(old(self)@.vars, VariableKind::Measurement),
                    measurements@.map_values(|m: (String, Real)| (m.0@, m.1)),
                ),
                ..old(self)@
            }),
    {
        let ghost ms = measurements@.map_values(|m: (String, Real)| (m.0@, m.1));
        let ghost before = self@;
        table_remove_kind(&mut self.base_variables, VariableKind::Measurement);
        let ghost start = table_view(self.base_variables@);
        proof {
            assert(ms.subrange(0, 0) =~= Seq::<(Seq<char>, Real)>::empty());
        }
        let mut i: usize = 0;
        while i < measurements.len()
            invariant
                before.wf(),
                self@.records == before.records,
                self@.next_id == before.next_id,
                start == table_without_kind(before.vars, VariableKind::Measurement),
                i <= measurements@.len(),
                ms == measurements@.map_values(|m: (String, Real)| (m.0@, m.1)),
                names_distinct(table_view(self.base_variables@)),
                table_view(self.base_variables@) == with_measurements(
                    start,
                    ms.subrange(0, i as int),
                ),
            decreases measurements@.len() - i,
        {
            let value = measurements[i].1;
            table_insert(&mut self.base_variables, measurements[i].0.as_str(), Variable::Measurement { value });
            proof {
                assert(ms.subrange(0, i + 1).drop_last() =~= ms.subrange(0, i as int));
                assert(ms.subrange(0, i + 1).last() == ms[i as int]);
            }
            i = i + 1;
        }
        proof {
            assert(ms.subrange(0, ms.len() as int) =~= ms);
        }
    }

    /// The full tool history, in the order tools were added.
    pub fn history(&self) -> (r: &[ToolRecord])
        ensures
            records_view(r@) == self@.records,
    {
        self.history.as_slice()
    }

    /// The base variable table (measurements and custom variables).
    pub fn base_variables(&self) -> (r: &[(String, Variable)])
        ensures
            table_view(r@) == self@.vars,
    {
        self.base_variables.as_slice()
    }

    fn find_tool(&self, id: ObjectId) -> (r: Option<usize>)
        requires
            self@.wf(),
        ensures
            match r {
                Some(i) => i < self@.records.len() && has_tool(self@.records, id) && tool_index(
                    self@.records,
                    id,
                ) == i,
                None => !has_tool(self@.records, id),
            },
    {
        let ghost h = self@.records;
        let mut i: usize = 0;
        while i < self.history.len()
            invariant
                h == records_view(self.history@),
                ids_distinct(h),
                i <= h.len(),
                forall|j: int| 0 <= j < i ==> h[j].id != id,
            decreases h.len() - i,
        {
            assert(h[i as int] == self.history@[i as int]@);
            if self.history[i].id.0 == id.0 {
                proof {
                    lemma_tool_index_unique(h, id, i as int);
                }
                return Some(i);
            }
            i = i + 1;
        }
        None
    }

    /// Whether a tool with id `id` exists in this document.
    pub fn contains(&self, id: ObjectId) -> (r: bool)
        requires
            self@.wf(),
        ensures
            r == self@.contains(id),
    {
        self.find_tool(id).is_some()
    }

    /// The record with id `id`, if this document has one.
    pub fn get_tool(&self, id: ObjectId) -> (r: Option<&ToolRecord>)
        requires
            self@.wf(),
        ensures
            match r {
                Some(rec) => self@.contains(id) && rec@ == self@.records[tool_index(
                    self@.records,
                    id,
                )],
                None => !self@.contains(id),
            },
    {
        match self.find_tool(id) {
            Some(i) => {
                assert(self@.records[i as int] == self.history@[i as int]@);
                Some(&self.history[i])
            },
            None => None,
        }
    }

    /// Checks `deps` in order: the first id this document lacks, if any.
    fn check_deps(&self, deps: &Vec<ObjectId>) -> (r: Option<ObjectId>)
        requires
            self@.wf(),
        ensures
            r == first_missing(self@.records, deps@),
    {
        proof {
            assert(deps@.subrange(0, deps@.len() as int) =~= deps@);
        }
        let mut i: usize = 0;
        while i < deps.len()
            invariant
                self@.wf(),
                i <= deps@.len(),
                first_missing(self@.records, deps@) == first_missing(
                    self@.records,
                    deps@.subrange(i as int, deps@.len() as int),
                ),
            decreases deps@.len() - i,
        {
            let d = deps[i];
            proof {
                let rest = deps@.subrange(i as int, deps@.len() as int);
                assert(rest[0] == d);
                assert(rest.drop_first() =~= deps@.subrange(i + 1, deps@.len() as int));
            }
            if !self.contains(d) {
                return Some(d);
            }
            i = i + 1;
        }
        proof {
            assert(deps@.subrange(i as int, deps@.len() as int) =~= Seq::<ObjectId>::empty());
        }
        None
    }

    /// Adds `kind` after checking the ids it references, in order; the shared body of the
    /// validating `add_*` constructors.
    fn add_after_check(&mut self, kind: ToolKind) -> (r: Result<ObjectId, PatternError>)
        requires
            old(self)@.wf(),
            first_missing(old(self)@.records, refs(kind@)) is Some || old(self).can_add(),
        ensures
            final(self)@.wf(),
            match old(self)@.add_checked(refs(kind@), kind@) {
                Err(m) => r matches Err(PatternError::MissingDependency(x)) && x == m && final(self)@
                    == old(self)@,
                Ok(d) => r matches Ok(id) && id.0 == old(self)@.next_id && final(self)@ == d,
            },
    {
        let deps = references_of(&kind);
        match self.check_deps(&deps) {
            Some(m) => Err(PatternError::MissingDependency(m)),
            None => Ok(self.add_tool(kind)),
        }
    }

    /// Adds a literal starting point (it depends on nothing, so it cannot
    /// fail).
    pub fn add_base_point(&mut self, name: &str, x: Real, y: Real) -> (id: ObjectId)
        requires
            old(self)@.wf(),
            old(self).can_add(),
        ensures
            final(self)@.wf(),
            id.0 == old(self)@.next_id,
            final(self)@ == old(self)@.with_tool(ToolKindView::BasePoint { name: name@, x, y }),
    {
        self.add_tool(ToolKind::BasePoint { name: name.to_string(), x, y })
    }


    /// Adds a point at `angle_formula` degrees and `length_formula` from
    /// `base_point`.
    ///
    /// The referenced ids are checked in the order they are listed; the
    /// first one this document lacks is reported as `MissingDependency` and
    /// the history stays unchanged. Otherwise the tool is appended.
    pub fn add_end_line(&mut self, name: &str, base_point: ObjectId, angle_formula: &str, length_formula: &str) -> (r: Result<ObjectId, PatternError>)
        requires
            old(self)@.wf(),
            first_missing(old(self)@.records, seq![base_point]) is Some || old(self).can_add(),
        ensures
            final(self)@.wf(),
            match old(self)@.add_checked(
                seq![base_point],
                ToolKindView::EndLine { name: name@, base_point, angle_formula: angle_formula@, length_formula: length_formula@ },
            ) {
                Err(m) => r matches Err(PatternError::MissingDependency(x)) && x == m && final(self)@
                    == old(self)@,
                Ok(d) => r matches Ok(id) && id.0 == old(self)@.next_id && final(self)@ == d,
            },
    {
        self.add_after_check(ToolKind::EndLine { name: name.to_string(), base_point, angle_formula: angle_formula.to_string(), length_formula: length_formula.to_string() })
    }

    /// Adds a straight line between two existing points.
    ///
    /// The referenced ids are checked in the order they are listed; the
    /// first one this document lacks is reported as `MissingDependency` and
    /// the history stays unchanged. Otherwise the tool is appended.
    pub fn add_line(&mut self, p1: ObjectId, p2: ObjectId) -> (r: Result<ObjectId, PatternError>)
        requires
            old(self)@.wf(),
            first_missing(old(self)@.records, seq![p1, p2]) is Some || old(self).can_add(),
        ensures
            final(self)@.wf(),
            match old(self)@.add_checked(
                seq![p1, p2],
                ToolKindView::Line { p1, p2 },
            ) {
                Err(m) => r matches Err(PatternError::MissingDependency(x)) && x == m && final(self)@
                    == old(self)@,
                Ok(d) => r matches Ok(id) && id.0 == old(self)@.next_id && final(self)@ == d,
            },
    {
        self.add_after_check(ToolKind::Line { p1, p2 })
    }

    /// Adds a point `length_formula` from `p1` along the direction toward
    /// `p2`.
    ///
    /// The referenced ids are checked in the order they are listed; the
    /// first one this document lacks is reported as `MissingDependency` and
    /// the history stays unchanged. Otherwise the tool is appended.
    pub fn add_along_line(&mut self, name: &str, p1: ObjectId, p2: ObjectId, length_formula: &str) -> (r: Result<ObjectId, PatternError>)
        requires
            old(self)@.wf(),
            first_missing(old(self)@.records, seq![p1, p2]) is Some || old(self).can_add(),
        ensures
            final(self)@.wf(),
            match old(self)@.add_checked(
                seq![p1, p2],
                ToolKindView::AlongLine { name: name@, p1, p2, length_formula: length_formula@ },
            ) {
                Err(m) => r matches Err(PatternError::MissingDependency(x)) && x == m && final(self)@
                    == old(self)@,
                Ok(d) => r matches Ok(id) && id.0 == old(self)@.next_id && final(self)@ == d,
            },
    {
        self.add_after_check(ToolKind::AlongLine { name: name.to_string(), p1, p2, length_formula: length_formula.to_string() })
    }

    /// Adds a point off `p1`, perpendicular to `p1`-`p2` (further rotated by
    /// `angle_formula` degrees), at `length_formula`.
    ///
    /// The referenced ids are checked in the order they are listed; the
    /// first one this document lacks is reported as `MissingDependency` and
    /// the history stays unchanged. Otherwise the tool is appended.
    pub fn add_normal(&mut self, name: &str, p1: ObjectId, p2: ObjectId, length_formula: &str, angle_formula: &str) -> (r: Result<ObjectId, PatternError>)
        requires
            old(self)@.wf(),
            first_missing(old(self)@.records, seq![p1, p2]) is Some || old(self).can_add(),
        ensures
            final(self)@.wf(),
            match old(self)@.add_checked(
                seq![p1, p2],
                ToolKindView::Normal { name: name@, p1, p2, length_formula: length_formula@, angle_formula: angle_formula@ },
            ) {
                Err(m) => r matches Err(PatternError::MissingDependency(x)) && x == m && final(self)@
                    == old(self)@,
                Ok(d) => r matches Ok(id) && id.0 == old(self)@.next_id && final(self)@ == d,
            },
    {
        self.add_after_check(ToolKind::Normal { name: name.to_string(), p1, p2, length_formula: length_formula.to_string(), angle_formula: angle_formula.to_string() })
    }

    /// Adds a point on the bisector of the angle `p1`-`p2`-`p3`, at
    /// `length_formula` from the vertex `p2`.
    ///
    /// The referenced ids are checked in the order they are listed; the
    /// first one this document lacks is reported as `MissingDependency` and
    /// the history stays unchanged. Otherwise the tool is appended.
    pub fn add_bisector(&mut self, name: &str, p1: ObjectId, p2: ObjectId, p3: ObjectId, length_formula: &str) -> (r: Result<ObjectId, PatternError>)
        requires
            old(self)@.wf(),
            first_missing(old(self)@.records, seq![p1, p2, p3]) is Some || old(self).can_add(),
        ensures
            final(self)@.wf(),
            match old(self)@.add_checked(
                seq![p1, p2, p3],
                ToolKindView::Bisector { name: name@, p1, p2, p3, length_formula: length_formula@ },
            ) {
                Err(m) => r matches Err(PatternError::MissingDependency(x)) && x == m && final(self)@
                    == old(self)@,
                Ok(d) => r matches Ok(id) && id.0 == old(self)@.next_id && final(self)@ == d,
            },
    {
        self.add_after_check(ToolKind::Bisector { name: name.to_string(), p1, p2, p3, length_formula: length_formula.to_string() })
    }

    /// Adds the foot of the perpendicular from `point` onto the line
    /// `line_p1`-`line_p2`.
    ///
    /// The referenced ids are checked in the order they are listed; the
    /// first one this document lacks is reported as `MissingDependency` and
    /// the history stays unchanged. Otherwise the tool is appended.
    pub fn add_height(&mut self, name: &str, point: ObjectId, line_p1: ObjectId, line_p2: ObjectId) -> (r: Result<ObjectId, PatternError>)
        requires
            old(self)@.wf(),
            first_missing(old(self)@.records, seq![point, line_p1, line_p2]) is Some || old(self).can_add(),
        ensures
            final(self)@.wf(),
            match old(self)@.add_checked(
                seq![point, line_p1, line_p2],
                ToolKindView::Height { name: name@, point, line_p1, line_p2 },
            ) {
                Err(m) => r matches Err(PatternError::MissingDependency(x)) && x == m && final(self)@
                    == old(self)@,
                Ok(d) => r matches Ok(id) && id.0 == old(self)@.next_id && final(self)@ == d,
            },
    {
        self.add_after_check(ToolKind::Height { name: name.to_string(), point, line_p1, line_p2 })
    }

    /// Adds the point halfway between `p1` and `p2`.
    ///
    /// The referenced ids are checked in the order they are listed; the
    /// first one this document lacks is reported as `MissingDependency` and
    /// the history stays unchanged. Otherwise the tool is appended.
    pub fn add_midpoint(&mut self, name: &str, p1: ObjectId, p2: ObjectId) -> (r: Result<ObjectId, PatternError>)
        requires
            old(self)@.wf(),
            first_missing(old(self)@.records, seq![p1, p2]) is Some || old(self).can_add(),
        ensures
            final(self)@.wf(),
            match old(self)@.add_checked(
                seq![p1, p2],
                ToolKindView::Midpoint { name: name@, p1, p2 },
            ) {
                Err(m) => r matches Err(PatternError::MissingDependency(x)) && x == m && final(self)@
                    == old(self)@,
                Ok(d) => r matches Ok(id) && id.0 == old(self)@.next_id && final(self)@ == d,
            },
    {
        self.add_after_check(ToolKind::Midpoint { name: name.to_string(), p1, p2 })
    }

    /// Adds a piece whose boundary runs through the nodes' points in order.
    ///
    /// The referenced ids are checked in the order they are listed; the
    /// first one this document lacks is reported as `MissingDependency` and
    /// the history stays unchanged. Otherwise the tool is appended.
    pub fn add_piece(&mut self, name: &str, nodes: Vec<PieceNode>, seam_allowance_formula: &str) -> (r: Result<ObjectId, PatternError>)
        requires
            old(self)@.wf(),
            first_missing(old(self)@.records, nodes@.map_values(|n: PieceNode| n.point)) is Some || old(self).can_add(),
        ensures
            final(self)@.wf(),
            match old(self)@.add_checked(
                nodes@.map_values(|n: PieceNode| n.point),
                ToolKindView::Piece { name: name@, nodes: nodes@, seam_allowance_formula: seam_allowance_formula@ },
            ) {
                Err(m) => r matches Err(PatternError::MissingDependency(x)) && x == m && final(self)@
                    == old(self)@,
                Ok(d) => r matches Ok(id) && id.0 == old(self)@.next_id && final(self)@ == d,
            },
    {
        self.add_after_check(ToolKind::Piece { name: name.to_string(), nodes, seam_allowance_formula: seam_allowance_formula.to_string() })
    }

    /// Adds a shoulder point: on the ray `p1_line`->`p2_line`, at
    /// `length_formula` from `shoulder`.
    ///
    /// The referenced ids are checked in the order they are listed; the
    /// first one this document lacks is reported as `MissingDependency` and
    /// the history stays unchanged. Otherwise the tool is appended.
    pub fn add_shoulder_point(&mut self, name: &str, p1_line: ObjectId, p2_line: ObjectId, shoulder: ObjectId, length_formula: &str) -> (r: Result<ObjectId, PatternError>)
        requires
            old(self)@.wf(),
            first_missing(old(self)@.records, seq![p1_line, p2_line, shoulder]) is Some || old(self).can_add(),
        ensures
            final(self)@.wf(),
            match old(self)@.add_checked(
                seq![p1_line, p2_line, shoulder],
                ToolKindView::ShoulderPoint { name: name@, p1_line, p2_line, shoulder, length_formula: length_formula@ },
            ) {
                Err(m) => r matches Err(PatternError::MissingDependency(x)) && x == m && final(self)@
                    == old(self)@,
                Ok(d) => r matches Ok(id) && id.0 == old(self)@.next_id && final(self)@ == d,
            },
    {
        self.add_after_check(ToolKind::ShoulderPoint { name: name.to_string(), p1_line, p2_line, shoulder, length_formula: length_formula.to_string() })
    }

    /// Adds the crossing of the lines `p1_line1`-`p2_line1` and
    /// `p1_line2`-`p2_line2`.
    ///
    /// The referenced ids are checked in the order they are listed; the
    /// first one this document lacks is reported as `MissingDependency` and
    /// the history stays unchanged. Otherwise the tool is appended.
    pub fn add_line_intersect(&mut self, name: &str, p1_line1: ObjectId, p2_line1: ObjectId, p1_line2: ObjectId, p2_line2: ObjectId) -> (r: Result<ObjectId, PatternError>)
        requires
            old(self)@.wf(),
            first_missing(old(self)@.records, seq![p1_line1, p2_line1, p1_line2, p2_line2]) is Some || old(self).can_add(),
        ensures
            final(self)@.wf(),
            match old(self)@.add_checked(
                seq![p1_line1, p2_line1, p1_line2, p2_line2],
                ToolKindView::LineIntersect { name: name@, p1_line1, p2_line1, p1_line2, p2_line2 },
            ) {
                Err(m) => r matches Err(PatternError::MissingDependency(x)) && x == m && final(self)@
                    == old(self)@,
                Ok(d) => r matches Ok(id) && id.0 == old(self)@.next_id && final(self)@ == d,
            },
    {
        self.add_after_check(ToolKind::LineIntersect { name: name.to_string(), p1_line1, p2_line1, p1_line2, p2_line2 })
    }

    /// Adds the point with `p1`'s x and `p2`'s y.
    ///
    /// The referenced ids are checked in the order they are listed; the
    /// first one this document lacks is reported as `MissingDependency` and
    /// the history stays unchanged. Otherwise the tool is appended.
    pub fn add_point_of_intersection(&mut self, name: &str, p1: ObjectId, p2: ObjectId) -> (r: Result<ObjectId, PatternError>)
        requires
            old(self)@.wf(),
            first_missing(old(self)@.records, seq![p1, p2]) is Some || old(self).can_add(),
        ensures
            final(self)@.wf(),
            match old(self)@.add_checked(
                seq![p1, p2],
                ToolKindView::PointOfIntersection { name: name@, p1, p2 },
            ) {
                Err(m) => r matches Err(PatternError::MissingDependency(x)) && x == m && final(self)@
                    == old(self)@,
                Ok(d) => r matches Ok(id) && id.0 == old(self)@.next_id && final(self)@ == d,
            },
    {
        self.add_after_check(ToolKind::PointOfIntersection { name: name.to_string(), p1, p2 })
    }

    /// Adds the right-angle point of the hypotenuse on the axis line.
    ///
    /// The referenced ids are checked in the order they are listed; the
    /// first one this document lacks is reported as `MissingDependency` and
    /// the history stays unchanged. Otherwise the tool is appended.
    pub fn add_triangle(&mut self, name: &str, axis_p1: ObjectId, axis_p2: ObjectId, hypotenuse_p1: ObjectId, hypotenuse_p2: ObjectId) -> (r: Result<ObjectId, PatternError>)
        requires
            old(self)@.wf(),
            first_missing(old(self)@.records, seq![axis_p1, axis_p2, hypotenuse_p1, hypotenuse_p2]) is Some || old(self).can_add(),
        ensures
            final(self)@.wf(),
            match old(self)@.add_checked(
                seq![axis_p1, axis_p2, hypotenuse_p1, hypotenuse_p2],
                ToolKindView::Triangle { name: name@, axis_p1, axis_p2, hypotenuse_p1, hypotenuse_p2 },
            ) {
                Err(m) => r matches Err(PatternError::MissingDependency(x)) && x == m && final(self)@
                    == old(self)@,
                Ok(d) => r matches Ok(id) && id.0 == old(self)@.next_id && final(self)@ == d,
            },
    {
        self.add_after_check(ToolKind::Triangle { name: name.to_string(), axis_p1, axis_p2, hypotenuse_p1, hypotenuse_p2 })
    }

    /// Adds where a circle of `radius_formula` around `center` crosses the
    /// segment `p1`-`p2`.
    ///
    /// The referenced ids are checked in the order they are listed; the
    /// first one this document lacks is reported as `MissingDependency` and
    /// the history stays unchanged. Otherwise the tool is appended.
    pub fn add_point_of_contact(&mut self, name: &str, center: ObjectId, p1: ObjectId, p2: ObjectId, radius_formula: &str) -> (r: Result<ObjectId, PatternError>)
        requires
            old(self)@.wf(),
            first_missing(old(self)@.records, seq![center, p1, p2]) is Some || old(self).can_add(),
        ensures
            final(self)@.wf(),
            match old(self)@.add_checked(
                seq![center, p1, p2],
                ToolKindView::PointOfContact { name: name@, center, p1, p2, radius_formula: radius_formula@ },
            ) {
                Err(m) => r matches Err(PatternError::MissingDependency(x)) && x == m && final(self)@
                    == old(self)@,
                Ok(d) => r matches Ok(id) && id.0 == old(self)@.next_id && final(self)@ == d,
            },
    {
        self.add_after_check(ToolKind::PointOfContact { name: name.to_string(), center, p1, p2, radius_formula: radius_formula.to_string() })
    }

    /// Adds a circular arc around `center`.
    ///
    /// The referenced ids are checked in the order they are listed; the
    /// first one this document lacks is reported as `MissingDependency` and
    /// the history stays unchanged. Otherwise the tool is appended.
    pub fn add_arc(&mut self, name: &str, center: ObjectId, radius_formula: &str, start_angle_formula: &str, end_angle_formula: &str) -> (r: Result<ObjectId, PatternError>)
        requires
            old(self)@.wf(),
            first_missing(old(self)@.records, seq![center]) is Some || old(self).can_add(),
        ensures
            final(self)@.wf(),
            match old(self)@.add_checked(
                seq![center],
                ToolKindView::Arc { name: name@, center, radius_formula: radius_formula@, start_angle_formula: start_angle_formula@, end_angle_formula: end_angle_formula@ },
            ) {
                Err(m) => r matches Err(PatternError::MissingDependency(x)) && x == m && final(self)@
                    == old(self)@,
                Ok(d) => r matches Ok(id) && id.0 == old(self)@.next_id && final(self)@ == d,
            },
    {
        self.add_after_check(ToolKind::Arc { name: name.to_string(), center, radius_formula: radius_formula.to_string(), start_angle_formula: start_angle_formula.to_string(), end_angle_formula: end_angle_formula.to_string() })
    }

    /// Adds a cubic Bezier curve between `p1` and `p4`.
    ///
    /// The referenced ids are checked in the order they are listed; the
    /// first one this document lacks is reported as `MissingDependency` and
    /// the history stays unchanged. Otherwise the tool is appended.
    pub fn add_spline(&mut self, name: &str, p1: ObjectId, p4: ObjectId, angle1_formula: &str, length1_formula: &str, angle2_formula: &str, length2_formula: &str) -> (r: Result<ObjectId, PatternError>)
        requires
            old(self)@.wf(),
            first_missing(old(self)@.records, seq![p1, p4]) is Some || old(self).can_add(),
        ensures
            final(self)@.wf(),
            match old(self)@.add_checked(
                seq![p1, p4],
                ToolKindView::Spline { name: name@, p1, p4, angle1_formula: angle1_formula@, length1_formula: length1_formula@, angle2_formula: angle2_formula@, length2_formula: length2_formula@ },
            ) {
                Err(m) => r matches Err(PatternError::MissingDependency(x)) && x == m && final(self)@
                    == old(self)@,
                Ok(d) => r matches Ok(id) && id.0 == old(self)@.next_id && final(self)@ == d,
            },
    {
        self.add_after_check(ToolKind::Spline { name: name.to_string(), p1, p4, angle1_formula: angle1_formula.to_string(), length1_formula: length1_formula.to_string(), angle2_formula: angle2_formula.to_string(), length2_formula: length2_formula.to_string() })
    }

    /// Whether `deps` holds `id`.
    fn holds_id(deps: &Vec<ObjectId>, id: ObjectId) -> (r: bool)
        ensures
            r == deps@.contains(id),
    {
        let mut i: usize = 0;
        while i < deps.len()
            invariant
                i <= deps@.len(),
                forall|j: int| 0 <= j < i ==> deps@[j] != id,
            decreases deps@.len() - i,
        {
            if deps[i].0 == id.0 {
                assert(deps@[i as int] == id);
                return true;
            }
            i = i + 1;
        }
        false
    }

    /// Removes the tool `id` from the history and returns it with the index
    /// it had. Refused with `ToolInUse` (naming the first dependent tool in
    /// history order) while another tool depends on it, and with
    /// `ToolNotFound` when it does not exist; nothing changes then. The
    /// remaining records keep their order and the id counter is not rolled
    /// back, so the id is never handed out again.
    pub fn remove_tool(&mut self, id: ObjectId) -> (r: Result<(ToolRecord, usize), DocumentError>)
        requires
            old(self)@.wf(),
        ensures
            final(self)@.wf(),
            match old(self)@.removed(id) {
                Err(e) => r == Err::<(ToolRecord, usize), DocumentError>(e) && final(self)@ == old(
                    self,
                )@,
                Ok((d, rec, i)) => r matches Ok((rr, ii)) && rr@ == rec && ii == i && final(self)@
                    == d,
            },
    {
        let ghost h = self@.records;
        proof {
            assert(h.subrange(0, h.len() as int) =~= h);
        }
        let mut k: usize = 0;
        while k < self.history.len()
            invariant
                h == records_view(self.history@),
                self@.wf(),
                h == self@.records,
                k <= h.len(),
                first_user(h, id) == first_user(h.subrange(k as int, h.len() as int), id),
            decreases h.len() - k,
        {
            proof {
                let rest = h.subrange(k as int, h.len() as int);
                assert(rest[0] == h[k as int]);
                assert(rest.drop_first() =~= h.subrange(k + 1, h.len() as int));
                assert(h[k as int] == self.history@[k as int]@);
            }
            let other = &self.history[k];
            if other.id.0 != id.0 {
                let deps = references_of(&other.kind);
                if Self::holds_id(&deps, id) {
                    return Err(DocumentError::ToolInUse { id, used_by: other.id });
                }
            }
            k = k + 1;
        }
        proof {
            assert(h.subrange(k as int, h.len() as int) =~= Seq::<ToolRecordView>::empty());
        }
        let index = match self.find_tool(id) {
            Some(i) => i,
            None => {
                return Err(DocumentError::ToolNotFound(id));
            },
        };
        let record = self.history.remove(index);
        proof {
            assert(records_view(self.history@) =~= h.remove(index as int));
            assert(record@ == h[index as int]);
        }
        Ok((record, index))
    }

    /// Replaces the kind of tool `id` with `new_kind` and returns the old
    /// kind. The new kind's references are checked first, in order: the
    /// first id this document lacks is reported as `MissingDependency`;
    /// then `ToolNotFound` if `id` does not exist. On success the record
    /// keeps its id and position.
    pub fn replace_tool_kind(&mut self, id: ObjectId, new_kind: ToolKind) -> (r: Result<
        ToolKind,
        DocumentError,
    >)
        requires
            old(self)@.wf(),
        ensures
            final(self)@.wf(),
            match old(self)@.replaced(id, new_kind@) {
                Err(e) => r == Err::<ToolKind, DocumentError>(e) && final(self)@ == old(self)@,
                Ok((d, k)) => r matches Ok(kk) && kk@ == k && final(self)@ == d,
            },
    {
        let deps = references_of(&new_kind);
        if let Some(m) = self.check_deps(&deps) {
            return Err(DocumentError::MissingDependency(m));
        }
        let ghost h = self@.records;
        let index = match self.find_tool(id) {
            Some(i) => i,
            None => {
                return Err(DocumentError::ToolNotFound(id));
            },
        };
        let previous = self.history.remove(index);
        proof {
            assert(previous@ == h[index as int]);
        }
        self.history.insert(index, ToolRecord { id, kind: new_kind });
        proof {
            let u = h.update(index as int, ToolRecordView { id, kind: new_kind@ });
            assert(records_view(self.history@) =~= u);
            assert forall|i: int, j: int|
                0 <= i < u.len() && 0 <= j < u.len() && i != j implies u[i].id != u[j].id by {
                assert(h[i].id != h[j].id);
            }
        }
        Ok(previous.kind)
    }

    /// Puts `record` back into the history at `index` (the counterpart of
    /// [`Document::remove_tool`]); later records shift right. Refused with
    /// `DuplicateId` when a tool with that id is present. The counter moves
    /// past the record's id if it was not already.
    pub fn insert_tool_record_at(&mut self, index: usize, record: ToolRecord) -> (r: Result<
        (),
        DocumentError,
    >)
        requires
            old(self)@.wf(),
            old(self)@.can_insert(index as int, record@),
        ensures
            final(self)@.wf(),
            match old(self)@.inserted(index as int, record@) {
                Err(e) => r == Err::<(), DocumentError>(e) && final(self)@ == old(self)@,
                Ok(d) => r is Ok && final(self)@ == d,
            },
    {
        if self.contains(record.id) {
            return Err(DocumentError::DuplicateId(record.id));
        }
        let ghost h = self@.records;
        if record.id.raw() >= self.next_id {
            self.next_id = record.id.raw() + 1;
        }
        let ghost rv = record@;
        self.history.insert(index, record);
        proof {
            let u = h.insert(index as int, rv);
            assert(records_view(self.history@) =~= u);
            assert forall|i: int, j: int|
                0 <= i < u.len() && 0 <= j < u.len() && i != j implies u[i].id != u[j].id by {
                if i == index && j != index {
                    let jj = if j < index { j } else { j - 1 };
                    assert(u[j] == h[jj]);
                } else if j == index && i != index {
                    let ii = if i < index { i } else { i - 1 };
                    assert(u[i] == h[ii]);
                } else if i != index && j != index {
                    let ii = if i < index { i } else { i - 1 };
                    let jj = if j < index { j } else { j - 1 };
                    assert(u[i] == h[ii] && u[j] == h[jj]);
                }
            }
            assert forall|i: int| 0 <= i < u.len() implies u[i].id.0 < self.next_id by {
                if i != index {
                    let ii = if i < index { i } else { i - 1 };
                    assert(u[i] == h[ii]);
                }
            }
        }
        Ok(())
    }

    /// Rebuilds a document from an already assembled history and variable
    /// table (e.g. read back from a pattern file). Refused with
    /// `DuplicateId`, naming the first record whose id appeared earlier,
    /// when two records share an id. Otherwise both are adopted as given
    /// and the counter continues one past the largest id (1 for an empty
    /// history), so later additions never collide with a loaded id.
    pub fn from_parts(history: Vec<ToolRecord>, base_variables: Vec<(String, Variable)>) -> (r:
        Result<Document, DocumentError>)
        requires
            names_distinct(table_view(base_variables@)),
            first_duplicate(records_view(history@)) is Some || forall|i: int|
                0 <= i < history@.len() ==> (#[trigger] history@[i]).id.0 < u32::MAX,
        ensures
            match first_duplicate(records_view(history@)) {
                Some(d) => r == Err::<Document, DocumentError>(DocumentError::DuplicateId(d)),
                None => r matches Ok(doc) && doc@.wf() && doc@ == (DocumentView {
                    records: records_view(history@),
                    vars: table_view(base_variables@),
                    next_id: max_raw_id(records_view(history@)) + 1,
                }),
            },
    {
        let ghost h = records_view(history@);
        let mut max_id: u32 = 0;
        let mut k: usize = 0;
        while k < history.len()
            invariant
                h == records_view(history@),
                k <= h.len(),
                ids_distinct(h.subrange(0, k as int)),
                max_id == max_raw_id(h.subrange(0, k as int)),
                first_duplicate(h) is Some || forall|i: int|
                    0 <= i < history@.len() ==> (#[trigger] history@[i]).id.0 < u32::MAX,
            decreases h.len() - k,
        {
            let id = history[k].id;
            proof {
                assert(h[k as int] == history@[k as int]@);
            }
            let mut j: usize = 0;
            while j < k
                invariant
                    h == records_view(history@),
                    j <= k < h.len(),
                    ids_distinct(h.subrange(0, k as int)),
                    id == h[k as int].id,
                    forall|q: int| 0 <= q < j ==> h[q].id != id,
                decreases k - j,
            {
                assert(h[j as int] == history@[j as int]@);
                if history[j].id.0 == id.0 {
                    proof {
                        let p = h.subrange(0, k + 1);
                        assert(p.drop_last() =~= h.subrange(0, k as int));
                        assert(p.drop_last()[j as int].id == p.last().id);
                        lemma_distinct_no_duplicate(h.subrange(0, k as int));
                        lemma_duplicate_prefix(h, k + 1);
                    }
                    return Err(DocumentError::DuplicateId(id));
                }
                j = j + 1;
            }
            proof {
                let p = h.subrange(0, k + 1);
                assert(p.drop_last() =~= h.subrange(0, k as int));
                assert(p.last() == h[k as int]);
                assert forall|a: int, b: int|
                    0 <= a < p.len() && 0 <= b < p.len() && a != b implies p[a].id != p[b].id by {
                    if a < k && b < k {
                        assert(p[a] == h.subrange(0, k as int)[a]);
                        assert(p[b] == h.subrange(0, k as int)[b]);
                    }
                }
            }
            if id.0 > max_id {
                max_id = id.0;
            }
            k = k + 1;
        }
        proof {
            assert(h.subrange(0, h.len() as int) =~= h);
            lemma_distinct_no_duplicate(h);
            lemma_ids_below_max(h);
            lemma_max_below_bound(h);
        }
        Ok(Document { history, base_variables, next_id: max_id + 1 })
    }
}

proof fn lemma_distinct_no_duplicate(h: Seq<ToolRecordView>)
    requires
        ids_distinct(h),
    ensures
        first_duplicate(h) is None,
    decreases h.len(),
{
    if h.len() > 0 {
        let p = h.drop_last();
        assert forall|i: int, j: int|
            0 <= i < p.len() && 0 <= j < p.len() && i != j implies p[i].id != p[j].id by {
            assert(p[i] == h[i] && p[j] == h[j]);
        }
        lemma_distinct_no_duplicate(p);
        if has_tool(p, h.last().id) {
            let i = choose|i: int| 0 <= i < p.len() && p[i].id == h.last().id;
            assert(h[i].id == h[h.len() - 1].id);
        }
    }
}

proof fn lemma_duplicate_prefix(h: Seq<ToolRecordView>, m: int)
    requires
        0 <= m <= h.len(),
        first_duplicate(h.subrange(0, m)) is Some,
    ensures
        first_duplicate(h) == first_duplicate(h.subrange(0, m)),
    decreases h.len(),
{
    if m == h.len() {
        assert(h.subrange(0, m) =~= h);
    } else {
        assert(h.drop_last().subrange(0, m) =~= h.subrange(0, m));
        lemma_duplicate_prefix(h.drop_last(), m);
    }
}

proof fn lemma_ids_below_max(h: Seq<ToolRecordView>)
    ensures
        forall|i: int| 0 <= i < h.len() ==> h[i].id.0 <= max_raw_id(h),
    decreases h.len(),
{
    if h.len() > 0 {
        lemma_ids_below_max(h.drop_last());
        assert forall|i: int| 0 <= i < h.len() implies h[i].id.0 <= max_raw_id(h) by {
            if i < h.len() - 1 {
                assert(h[i] == h.drop_last()[i]);
            }
        }
    }
}

proof fn lemma_max_below_bound(h: Seq<ToolRecordView>)
    requires
        forall|i: int| 0 <= i < h.len() ==> h[i].id.0 < u32::MAX,
    ensures
        max_raw_id(h) < u32::MAX,
    decreases h.len(),
{
    if h.len() > 0 {
        assert forall|i: int| 0 <= i < h.drop_last().len() implies h.drop_last()[i].id.0
            < u32::MAX by {
            assert(h.drop_last()[i] == h[i]);
        }
        lemma_max_below_bound(h.drop_last());
        assert(h[h.len() - 1].id.0 < u32::MAX);
    }
}

/// `first_user` finds nothing exactly when no record other than `id`
/// itself references `id`.
pub proof fn lemma_first_user_none(h: Seq<ToolRecordView>, id: ObjectId)
    ensures
        first_user(h, id) is None <==> (forall|j: int|
            0 <= j < h.len() ==> h[j].id == id || !refs(h[j].kind).contains(id)),
    decreases h.len(),
{
    if h.len() > 0 {
        let t = h.drop_first();
        lemma_first_user_none(t, id);
        if first_user(h, id) is None {
            assert forall|j: int| 0 <= j < h.len() implies h[j].id == id || !refs(
                h[j].kind,
            ).contains(id) by {
                if j > 0 {
                    assert(h[j] == t[j - 1]);
                }
            }
        } else if h[0].id == id || !refs(h[0].kind).contains(id) {
            let j = choose|j: int|
                0 <= j < t.len() && !(t[j].id == id || !refs(t[j].kind).contains(id));
            assert(h[j + 1] == t[j]);
        }
    }
}

/// `first_missing` finds nothing exactly when every id of `deps` is held.
pub proof fn lemma_first_missing_none(h: Seq<ToolRecordView>, deps: Seq<ObjectId>)
    ensures
        first_missing(h, deps) is None <==> (forall|k: int|
            0 <= k < deps.len() ==> has_tool(h, deps[k])),
    decreases deps.len(),
{
    if deps.len() > 0 {
        let t = deps.drop_first();
        lemma_first_missing_none(h, t);
        if first_missing(h, deps) is None {
            assert forall|k: int| 0 <= k < deps.len() implies has_tool(h, deps[k]) by {
                if k > 0 {
                    assert(deps[k] == t[k - 1]);
                }
            }
        } else if has_tool(h, deps[0]) {
            let k = choose|k: int| 0 <= k < t.len() && !has_tool(h, t[k]);
            assert(deps[k + 1] == t[k]);
        }
    }
}

/// Two histories holding the same ids miss the same dependencies.
pub proof fn lemma_first_missing_same_ids(
    h1: Seq<ToolRecordView>,
    h2: Seq<ToolRecordView>,
    deps: Seq<ObjectId>,
)
    requires
        forall|x: ObjectId| has_tool(h1, x) <==> has_tool(h2, x),
    ensures
        first_missing(h1, deps) == first_missing(h2, deps),
    decreases deps.len(),
{
    if deps.len() > 0 {
        lemma_first_missing_same_ids(h1, h2, deps.drop_first());
        assert(has_tool(h1, deps[0]) <==> has_tool(h2, deps[0]));
    }
}

/// The index of a record whose id is unique is found by `tool_index`.
pub proof fn lemma_tool_index_unique(h: Seq<ToolRecordView>, id: ObjectId, i: int)
    requires
        ids_distinct(h),
        0 <= i < h.len(),
        h[i].id == id,
    ensures
        has_tool(h, id),
        tool_index(h, id) == i,
{
    assert(has_tool(h, id));
    let k = tool_index(h, id);
    assert(h[k].id == id);
}

impl Default for Document {
    /// An empty document: no tools, no variables, first id 0.
    fn default() -> (r: Document)
        ensures
            r@.wf(),
            r@.records == Seq::<ToolRecordView>::empty(),
            r@.vars == Seq::<(Seq<char>, VariableView)>::empty(),
            r@.next_id == 0,
    {
        Document::new()
    }
}

} // verus!
