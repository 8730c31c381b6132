use vstd::prelude::*;

use crate::id::ObjectId;
use crate::scalar::Real;

verus! {

/// A point in the pattern's 2D coordinate space.
#[derive(Debug, Clone, Copy, PartialEq)]
pub struct PointData {
    pub x: Real,
    pub y: Real,
}

/// A straight line between two existing points, stored by id.
#[derive(Debug, Clone, Copy, PartialEq, Eq, Structural)]
pub struct LineData {
    pub p1: ObjectId,
    pub p2: ObjectId,
}

/// A closed polygon boundary (a pattern piece) plus its optional
/// seam-allowance offset boundary, both as resolved points in order.
#[derive(Debug, Clone, PartialEq)]
pub struct PieceData {
    pub contour: Vec<(Real, Real)>,
    pub seam_allowance: Option<Vec<(Real, Real)>>,
}

/// A circular arc: center, radius and sweep angles in degrees.
#[derive(Debug, Clone, Copy, PartialEq)]
pub struct ArcData {
    pub center: (Real, Real),
    pub radius: Real,
    pub start_angle_deg: Real,
    pub end_angle_deg: Real,
}

/// A cubic Bezier segment: its endpoints `p1`/`p4` and control points
/// `p2`/`p3`.
#[derive(Debug, Clone, Copy, PartialEq)]
pub struct SplineData {
    pub p1: (Real, Real),
    pub p2: (Real, Real),
    pub p3: (Real, Real),
    pub p4: (Real, Real),
}

/// Any geometric object a `PatternData` stores under an [`ObjectId`].
#[derive(Debug, Clone, PartialEq)]
pub enum GeoObject {
    Point(PointData),
    Line(LineData),
    Piece(PieceData),
    Arc(ArcData),
    Spline(SplineData),
}

} // verus!
