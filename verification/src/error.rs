use vstd::prelude::*;

use crate::formula::FormulaError;
use crate::id::ObjectId;

verus! {

/// Failed lookups in a `PatternData`.
#[derive(Debug, Clone, PartialEq)]
pub enum ContainerError {
    /// No object is stored under this id.
    ObjectNotFound(ObjectId),
    /// An object is stored under this id, but of another kind than `expected`.
    WrongObjectType { id: ObjectId, expected: &'static str },
    /// No variable is stored under this name.
    VariableNotFound(String),
}

/// Everything that can go wrong adding tools to a document or resolving it
/// into geometry.
#[derive(Debug, Clone, PartialEq)]
pub enum PatternError {
    /// A tool referenced an id that is not (yet) available.
    MissingDependency(ObjectId),
    /// A container lookup failed for another reason (e.g. wrong kind).
    Container(ContainerError),
    /// A formula failed to tokenize, parse or evaluate.
    Formula(FormulaError),
    /// The inputs are valid but their configuration has no answer.
    DegenerateGeometry(String),
}

} // verus!
