//! Data model, formula front end, tool history and undo logic of a
//! pattern-drafting CAD core.
use vstd::prelude::*;

pub mod action_script;
pub mod container;
pub mod document;
pub mod error;
pub mod formula;
pub mod geo;
pub mod id;
pub mod recompute;
pub mod output;
pub mod run_args;
pub mod scalar;
pub mod sync_loop;
pub mod text;
pub mod tool_controller;
pub mod undo;
pub mod variable;
pub mod watch;

pub use container::PatternData;
pub use document::{Document, DocumentError, PieceNode, ToolKind, ToolRecord};
pub use error::{ContainerError, PatternError};
pub use geo::{ArcData, GeoObject, LineData, PieceData, PointData, SplineData};
pub use id::ObjectId;
pub use scalar::Real;
pub use undo::{Edit, UndoStack};
pub use variable::{Variable, VariableKind};

verus! {

} // verus!
