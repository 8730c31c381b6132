//! The policy of the loop that keeps resolved geometry in step with a
//! watched measurement file: resync once per change, stop at the first
//! failed resync, finish cleanly when no more changes can arrive.
use vstd::prelude::*;

use crate::watch::WatchEvent;

verus! {

/// What the sync loop learned since its last decision.
pub enum SyncLoopEvent<E> {
    /// The loop is starting.
    Started,
    /// The watcher reported a change.
    Received(WatchEvent),
    /// The watcher's channel closed: no more changes will arrive.
    ChannelClosed,
    /// A resync finished, successfully or with an error.
    Resynced(Result<(), E>),
}

/// What the sync loop asks its runner to do next.
pub enum SyncLoopAction<E> {
    /// Wait for the next watcher event.
    AwaitEvent,
    /// Re-read the measurements and recompute.
    Resync,
    /// Stop, with this outcome.
    Finish(Result<(), E>),
}

/// One decision of the sync loop: wait for changes, resync on each one,
/// stop with the first resync error, and finish with `Ok` once the
/// channel closes.
pub fn run_sync_loop<E>(event: SyncLoopEvent<E>) -> (r: SyncLoopAction<E>)
    ensures
        match event {
            SyncLoopEvent::Started => r is AwaitEvent,
            SyncLoopEvent::Received(_) => r is Resync,
            SyncLoopEvent::ChannelClosed => r == SyncLoopAction::<E>::Finish(Ok(())),
            SyncLoopEvent::Resynced(Ok(())) => r is AwaitEvent,
            SyncLoopEvent::Resynced(Err(e)) => r == SyncLoopAction::<E>::Finish(Err(e)),
        },
{
    match event {
        SyncLoopEvent::Started => SyncLoopAction::AwaitEvent,
        SyncLoopEvent::Received(_) => SyncLoopAction::Resync,
        SyncLoopEvent::ChannelClosed => SyncLoopAction::Finish(Ok(())),
        SyncLoopEvent::Resynced(Ok(())) => SyncLoopAction::AwaitEvent,
        SyncLoopEvent::Resynced(Err(e)) => SyncLoopAction::Finish(Err(e)),
    }
}

} // verus!
