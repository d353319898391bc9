//! The live, never-persisted runtime record of the sync engine: pending
//! changes, whether a sync is in flight, and the last success / last error.
//!
//! The host process keeps one value of this type behind its own short-lived
//! lock; every transition it may apply is a verified method here, so a
//! failed update can never leave the record in a state these contracts do
//! not describe.

use vstd::prelude::*;

verus! {

#[derive(Debug, Clone)]
pub struct RuntimeStatus {
    pub pending_changes: bool,
    pub syncing: bool,
    pub last_sync_at: Option<String>,
    pub last_error: Option<String>,
}

fn clone_opt_string(v: &Option<String>) -> (r: Option<String>)
    ensures
        r == *v,
{
    match v {
        Some(s) => Some(s.clone()),
        None => None,
    }
}

impl RuntimeStatus {
    /// The all-default state the process starts in.
    pub fn new() -> (r: RuntimeStatus)
        ensures
            !r.pending_changes,
            !r.syncing,
            r.last_sync_at is None,
            r.last_error is None,
    {
        RuntimeStatus { pending_changes: false, syncing: false, last_sync_at: None, last_error: None }
    }

    /// A copy for non-blocking status queries.
    pub fn snapshot(&self) -> (r: RuntimeStatus)
        ensures
            r == *self,
    {
        RuntimeStatus {
            pending_changes: self.pending_changes,
            syncing: self.syncing,
            last_sync_at: self.snapshot_last_sync_at(),
            last_error: self.snapshot_last_error(),
        }
    }

    pub fn snapshot_last_sync_at(&self) -> (r: Option<String>)
        ensures
            r == self.last_sync_at,
    {
        clone_opt_string(&self.last_sync_at)
    }

    pub fn snapshot_last_error(&self) -> (r: Option<String>)
        ensures
            r == self.last_error,
    {
        clone_opt_string(&self.last_error)
    }

    /// Marks or clears pending changes; nothing else moves.
    pub fn set_pending_changes(&mut self, pending: bool)
        ensures
            final(self).pending_changes == pending,
            final(self).syncing == old(self).syncing,
            final(self).last_sync_at == old(self).last_sync_at,
            final(self).last_error == old(self).last_error,
    {
        self.pending_changes = pending;
    }

    /// Records a failure outside the sync pipeline (for example, settings
    /// that could not be loaded).
    pub fn record_error(&mut self, message: String)
        ensures
            final(self).last_error == Some(message),
            final(self).pending_changes == old(self).pending_changes,
            final(self).syncing == old(self).syncing,
            final(self).last_sync_at == old(self).last_sync_at,
    {
        self.last_error = Some(message);
    }

    /// Entering the pipeline: a sync is now in flight and any previous
    /// error is cleared.
    pub fn begin_sync(&mut self)
        ensures
            final(self).syncing,
            final(self).last_error is None,
            final(self).pending_changes == old(self).pending_changes,
            final(self).last_sync_at == old(self).last_sync_at,
    {
        self.syncing = true;
        self.last_error = None;
    }

    /// Leaving the pipeline: the in-flight flag always drops; success
    /// records the timestamp and clears the error, failure records the
    /// error and keeps the previous success time.
    pub fn finish_sync(&mut self, error: Option<String>, now: String)
        ensures
            !final(self).syncing,
            final(self).pending_changes == old(self).pending_changes,
            error is None ==> final(self).last_sync_at == Some(now) && final(self).last_error
                is None,
            error is Some ==> final(self).last_error == error && final(self).last_sync_at == old(
                self,
            ).last_sync_at,
    {
        self.syncing = false;
        match error {
            None => {
                self.last_sync_at = Some(now);
                self.last_error = None;
            },
            Some(e) => {
                self.last_error = Some(e);
            },
        }
    }
}

} // verus!
