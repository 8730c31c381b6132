//! A self-contained snapshot of resolved geometry: every point with its
//! coordinates and every line with both endpoints' coordinates, so a
//! consumer can draw it without looking anything up.
use vstd::prelude::*;

use crate::container::{object_entry, PatternData};
use crate::error::ContainerError;
use crate::geo::{GeoObject, PointData};
use crate::id::ObjectId;
use crate::scalar::Real;

verus! {

/// One resolved point.
#[derive(Debug, Clone, Copy, PartialEq)]
pub struct OutputPoint {
    pub id: u32,
    pub x: Real,
    pub y: Real,
}

/// One resolved line with its endpoints' ids and coordinates.
#[derive(Debug, Clone, Copy, PartialEq)]
pub struct OutputLine {
    pub id: u32,
    pub p1: u32,
    pub p2: u32,
    pub x1: Real,
    pub y1: Real,
    pub x2: Real,
    pub y2: Real,
}

/// Every resolved point and line, in increasing id order.
#[derive(Debug, Clone, PartialEq)]
pub struct PatternOutput {
    pub points: Vec<OutputPoint>,
    pub lines: Vec<OutputLine>,
}

impl Default for PatternOutput {
    /// An empty snapshot.
    fn default() -> (r: PatternOutput)
        ensures
            r.points@ == Seq::<OutputPoint>::empty(),
            r.lines@ == Seq::<OutputLine>::empty(),
    {
        PatternOutput { points: Vec::new(), lines: Vec::new() }
    }
}

/// Why a line's endpoint could not be resolved.
pub enum EndpointFailure {
    /// Nothing is stored under the id.
    NotFound(ObjectId),
    /// Something other than a point is stored under the id.
    NotAPoint(ObjectId),
}

/// `e` is the container error reporting `f`.
pub open spec fn reports(e: ContainerError, f: EndpointFailure) -> bool {
    match f {
        EndpointFailure::NotFound(id) => e == ContainerError::ObjectNotFound(id),
        EndpointFailure::NotAPoint(id) => e matches ContainerError::WrongObjectType {
            id: i,
            expected,
        } && i == id && expected@ == "Point"@,
    }
}

/// The snapshot of the first `k` entries of `s` (the store's entries),
/// or the first endpoint that fails to resolve. Objects that are neither
/// points nor lines are left out.
pub open spec fn snapshot(s: Seq<(ObjectId, GeoObject)>, k: int) -> Result<
    (Seq<OutputPoint>, Seq<OutputLine>),
    EndpointFailure,
>
    decreases k,
{
    if k <= 0 {
        Ok((Seq::empty(), Seq::empty()))
    } else {
        match snapshot(s, k - 1) {
            Err(f) => Err(f),
            Ok((ps, ls)) => {
                let (id, obj) = s[k - 1];
                match obj {
                    GeoObject::Point(p) => Ok((ps.push(OutputPoint { id: id.0, x: p.x, y: p.y }), ls)),
                    GeoObject::Line(l) => match (object_entry(s, l.p1), object_entry(s, l.p2)) {
                        (None, _) => Err(EndpointFailure::NotFound(l.p1)),
                        (Some(GeoObject::Point(a)), None) => Err(EndpointFailure::NotFound(l.p2)),
                        (Some(GeoObject::Point(a)), Some(GeoObject::Point(b))) => Ok(
                            (
                                ps,
                                ls.push(
                                    OutputLine {
                                        id: id.0,
                                        p1: l.p1.0,
                                        p2: l.p2.0,
                                        x1: a.x,
                                        y1: a.y,
                                        x2: b.x,
                                        y2: b.y,
                                    },
                                ),
                            ),
                        ),
                        (Some(GeoObject::Point(a)), Some(_)) => Err(EndpointFailure::NotAPoint(l.p2)),
                        (Some(_), _) => Err(EndpointFailure::NotAPoint(l.p1)),
                    },
                    _ => Ok((ps, ls)),
                }
            },
        }
    }
}

proof fn lemma_snapshot_failure_stays(s: Seq<(ObjectId, GeoObject)>, k: int, m: int)
    requires
        0 <= k <= m,
        snapshot(s, k) is Err,
    ensures
        snapshot(s, m) == snapshot(s, k),
    decreases m - k,
{
    if m > k {
        lemma_snapshot_failure_stays(s, k, m - 1);
    }
}

/// Builds the snapshot of `data`: its points and lines in increasing id
/// order, each line carrying its endpoints' coordinates. A line whose
/// endpoint is missing or not a point fails with the container's error
/// for that endpoint (the first one, checking `p1` before `p2`).
pub fn build_output(data: &PatternData) -> (r: Result<PatternOutput, ContainerError>)
    requires
        data.wf(),
    ensures
        match snapshot(data.entries(), data.entries().len() as int) {
            Ok((ps, ls)) => r matches Ok(out) && out.points@ == ps && out.lines@ == ls,
            Err(f) => r matches Err(e) && reports(e, f),
        },
{
    let objects = data.objects();
    let ghost s = data.entries();
    let mut output = PatternOutput::default();
    let mut i: usize = 0;
    while i < objects.len()
        invariant
            s == data.entries(),
            objects@ == s,
            data.wf(),
            i <= s.len(),
            snapshot(s, i as int) == Ok::<(Seq<OutputPoint>, Seq<OutputLine>), EndpointFailure>(
                (output.points@, output.lines@),
            ),
        decreases s.len() - i,
    {
        let id = objects[i].0;
        match &objects[i].1 {
            GeoObject::Point(point) => {
                output.points.push(OutputPoint { id: id.0, x: point.x, y: point.y });
            },
            GeoObject::Line(line) => {
                let p1 = match data.get_point(line.p1) {
                    Ok(p) => *p,
                    Err(e) => {
                        proof {
                            lemma_snapshot_failure_stays(s, i + 1, s.len() as int);
                        }
                        return Err(e);
                    },
                };
                let p2 = match data.get_point(line.p2) {
                    Ok(p) => *p,
                    Err(e) => {
                        proof {
                            lemma_snapshot_failure_stays(s, i + 1, s.len() as int);
                        }
                        return Err(e);
                    },
                };
                output.lines.push(
                    OutputLine {
                        id: id.0,
                        p1: line.p1.0,
                        p2: line.p2.0,
                        x1: p1.x,
                        y1: p1.y,
                        x2: p2.x,
                        y2: p2.y,
                    },
                );
            },
            _ => {},
        }
        i = i + 1;
    }
    Ok(output)
}


/// A snapshot's lines carry their endpoints' stored coordinates: for every
/// line of a snapshot of the first `k` entries of `s`, `(x1, y1)` are the
/// coordinates of the point stored under `p1` and `(x2, y2)` those of the
/// point stored under `p2`.
pub proof fn law_lines_carry_endpoint_coordinates(s: Seq<(ObjectId, GeoObject)>, k: int)
    requires
        snapshot(s, k) is Ok,
    ensures
        forall|j: int|
            0 <= j < snapshot(s, k)->Ok_0.1.len() ==> {
                let l = #[trigger] snapshot(s, k)->Ok_0.1[j];
                &&& object_entry(s, ObjectId(l.p1)) == Some(
                    GeoObject::Point(PointData { x: l.x1, y: l.y1 }),
                )
                &&& object_entry(s, ObjectId(l.p2)) == Some(
                    GeoObject::Point(PointData { x: l.x2, y: l.y2 }),
                )
            },
    decreases k,
{
    if k > 0 {
        law_lines_carry_endpoint_coordinates(s, k - 1);
    }
}

/// A snapshot's points are stored points: every point of a snapshot of
/// the first `k` entries of `s` is one of those entries, a point stored
/// under its id with its coordinates.
pub proof fn law_points_are_stored_points(s: Seq<(ObjectId, GeoObject)>, k: int)
    requires
        snapshot(s, k) is Ok,
    ensures
        forall|j: int|
            0 <= j < snapshot(s, k)->Ok_0.0.len() ==> {
                let p = #[trigger] snapshot(s, k)->Ok_0.0[j];
                exists|m: int|
                    0 <= m < k && s[m].0.0 == p.id && s[m].1 == GeoObject::Point(
                        PointData { x: p.x, y: p.y },
                    )
            },
    decreases k,
{
    if k > 0 {
        law_points_are_stored_points(s, k - 1);
        let ps = snapshot(s, k)->Ok_0.0;
        let prev = snapshot(s, k - 1)->Ok_0.0;
        assert forall|j: int| 0 <= j < ps.len() implies {
            let p = #[trigger] ps[j];
            exists|m: int|
                0 <= m < k && s[m].0.0 == p.id && s[m].1 == GeoObject::Point(
                    PointData { x: p.x, y: p.y },
                )
        } by {
            if j < prev.len() {
                assert(ps[j] == prev[j]);
                let p = prev[j];
                let m = choose|m: int|
                    0 <= m < k - 1 && s[m].0.0 == p.id && s[m].1 == GeoObject::Point(
                        PointData { x: p.x, y: p.y },
                    );
                assert(0 <= m < k);
            } else {
                let m = k - 1;
                assert(s[m].0.0 == ps[j].id);
            }
        }
    }
}

} // verus!
