//! The values a file watcher reports: one event per settled change of the
//! watched file, and the failure to set a watcher up.
use vstd::prelude::*;

use std::path::PathBuf;

verus! {

#[verifier::external_type_specification]
#[verifier::external_body]
pub struct ExPathBuf(PathBuf);

/// `PathBuf::clone` (std): copies the path. Nothing about the copy is
/// claimed here; the library only carries paths through.
pub assume_specification[ <PathBuf as Clone>::clone ](path: &PathBuf) -> PathBuf;

/// One debounced "this file changed" notification for the watched path.
#[derive(Debug, Clone)]
pub struct WatchEvent {
    pub path: PathBuf,
}

/// Setting up a file watcher failed; the message says why.
#[derive(Debug, Clone, PartialEq)]
pub enum WatchError {
    SetupFailed(String),
}

} // verus!
