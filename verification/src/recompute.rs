//! The arithmetic-free part of resolving a document into geometry: looking
//! up the points a tool depends on among the objects resolved so far.
use vstd::prelude::*;

use crate::container::{object_entry, PatternData};
use crate::error::{ContainerError, PatternError};
use crate::geo::{GeoObject, PointData};
use crate::id::ObjectId;

verus! {

/// Looks up `id` as a point among the objects resolved so far. An id with
/// nothing stored under it is a `MissingDependency` (it belongs to a later
/// tool, or to none); an id holding another kind of object is reported as
/// the container's `WrongObjectType`.
pub fn resolve_point(data: &PatternData, id: ObjectId) -> (r: Result<&PointData, PatternError>)
    requires
        data.wf(),
    ensures
        match object_entry(data.entries(), id) {
            None => r == Err::<&PointData, PatternError>(PatternError::MissingDependency(id)),
            Some(GeoObject::Point(p)) => r == Ok::<&PointData, PatternError>(&p),
            Some(_) => r matches Err(
                PatternError::Container(ContainerError::WrongObjectType { id: i, expected }),
            ) && i == id && expected@ == "Point"@,
        },
{
    match data.get_point(id) {
        Ok(point) => Ok(point),
        Err(ContainerError::ObjectNotFound(_)) => Err(PatternError::MissingDependency(id)),
        Err(other) => Err(PatternError::Container(other)),
    }
}

} // verus!
