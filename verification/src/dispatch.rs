//! The trigger dispatcher: decides *when* a sync runs.
//!
//! A single background worker owns one [`Dispatcher`] value.  Inbound
//! events (note changes, forced syncs) and the passage of time move its two
//! deadlines; every decision is a verified method here, and the worker only
//! executes what the methods return.  Change notifications from other
//! threads are fire-and-forget messages appended to a queue.

use vstd::prelude::*;
use crate::config::{SyncTrigger, DEFAULT_DEBOUNCE_SECONDS};
use crate::status::RuntimeStatus;

verus! {

use vstd::string::StringExecFns;

/// What other threads drop into the worker's queue.
#[derive(Debug)]
pub enum WorkerMessage {
    /// A note in this folder was saved, updated, deleted or moved.
    NoteChanged(String),
    /// Run a sync right away (startup, or settings were saved).
    ForceSync,
}

/// Appends a change notification for `folder`; never blocks on sync work.
pub fn notify_note_changed(queue: &mut Vec<WorkerMessage>, folder: &str)
    ensures
        final(queue)@.len() == old(queue)@.len() + 1,
        final(queue)@.subrange(0, old(queue)@.len() as int) == old(queue)@,
        final(queue)@.last() matches WorkerMessage::NoteChanged(f) && f@ == folder@,
{
    queue.push(WorkerMessage::NoteChanged(folder.to_owned()));
    proof {
        assert(final(queue)@.subrange(0, old(queue)@.len() as int) =~= old(queue)@);
    }
}

/// Appends an immediate-sync request.
pub fn notify_force_sync(queue: &mut Vec<WorkerMessage>)
    ensures
        final(queue)@.len() == old(queue)@.len() + 1,
        final(queue)@.subrange(0, old(queue)@.len() as int) == old(queue)@,
        final(queue)@.last() is ForceSync,
{
    queue.push(WorkerMessage::ForceSync);
    proof {
        assert(final(queue)@.subrange(0, old(queue)@.len() as int) =~= old(queue)@);
    }
}

/// The worker's scheduling state: an optional debounce deadline and the
/// next periodic deadline, in seconds of the host's monotonic clock.
pub struct Dispatcher {
    pub debounce_deadline: Option<u64>,
    pub next_periodic: u64,
}

/// A change notification replaces any pending debounce deadline with
/// `now` plus the debounce window.
pub open spec fn spec_note_changed(d: Dispatcher, now: u64) -> Dispatcher {
    Dispatcher {
        debounce_deadline: Some((now + DEFAULT_DEBOUNCE_SECONDS) as u64),
        next_periodic: d.next_periodic,
    }
}

/// The debounce deadline fires once `now` has reached it.
pub open spec fn spec_debounce_due(d: Dispatcher, now: u64) -> bool {
    d.debounce_deadline matches Some(t) && now >= t
}

impl Dispatcher {
    /// Worker start: nothing pending, first periodic sync one interval out.
    pub fn new(now: u64, interval: u64) -> (r: Dispatcher)
        requires
            now + interval <= u64::MAX,
        ensures
            r.debounce_deadline is None,
            r.next_periodic == now + interval,
    {
        Dispatcher { debounce_deadline: None, next_periodic: now + interval }
    }

    /// A note changed.  When the folder is the linked one (`linked` is the
    /// host's answer from `is_folder_linked_for_sync`), the debounce
    /// deadline is replaced — repeated events coalesce into one future
    /// deadline — and `pending_changes` is raised.  No sync is triggered.
    pub fn handle_note_changed(&mut self, status: &mut RuntimeStatus, now: u64, linked: bool)
        requires
            now + DEFAULT_DEBOUNCE_SECONDS <= u64::MAX,
        ensures
            linked ==> *final(self) == spec_note_changed(*old(self), now),
            linked ==> final(status).pending_changes,
            !linked ==> *final(self) == *old(self) && *final(status) == *old(status),
            final(status).syncing == old(status).syncing,
            final(status).last_sync_at == old(status).last_sync_at,
            final(status).last_error == old(status).last_error,
    {
        if linked {
            self.debounce_deadline = Some(now + DEFAULT_DEBOUNCE_SECONDS);
            status.set_pending_changes(true);
        }
    }

    /// An immediate-sync request: sync now (labelled by the caller) and
    /// push the periodic deadline one interval out.
    pub fn handle_force_sync(&mut self, now: u64, interval: u64) -> (r: SyncTrigger)
        requires
            now + interval <= u64::MAX,
        ensures
            r == SyncTrigger::Startup,
            final(self).next_periodic == now + interval,
            final(self).debounce_deadline == old(self).debounce_deadline,
    {
        self.next_periodic = now + interval;
        SyncTrigger::Startup
    }

    /// Fires the debounced sync when its deadline has passed: exactly then
    /// a `DebouncedSave` trigger comes back, the deadline is cleared (so it
    /// cannot fire twice), `pending_changes` drops, and the periodic
    /// deadline moves one interval out.
    pub fn poll_debounce(&mut self, status: &mut RuntimeStatus, now: u64, interval: u64) -> (r:
        Option<SyncTrigger>)
        requires
            now + interval <= u64::MAX,
        ensures
            r is Some <==> spec_debounce_due(*old(self), now),
            r is Some ==> r->0 == SyncTrigger::DebouncedSave && final(self).debounce_deadline
                is None && final(self).next_periodic == now + interval && final(
                status
            ).pending_changes == false,
            r is None ==> *final(self) == *old(self) && *final(status) == *old(status),
            final(status).syncing == old(status).syncing,
            final(status).last_sync_at == old(status).last_sync_at,
            final(status).last_error == old(status).last_error,
    {
        match self.debounce_deadline {
            Some(deadline) => {
                if now >= deadline {
                    self.debounce_deadline = None;
                    status.set_pending_changes(false);
                    self.next_periodic = now + interval;
                    Some(SyncTrigger::DebouncedSave)
                } else {
                    None
                }
            },
            None => None,
        }
    }

    /// Fires the periodic sync when its deadline has passed, resetting it
    /// one interval out.
    pub fn poll_periodic(&mut self, now: u64, interval: u64) -> (r: Option<SyncTrigger>)
        requires
            now + interval <= u64::MAX,
        ensures
            r is Some <==> now >= old(self).next_periodic,
            r is Some ==> r->0 == SyncTrigger::Periodic && final(self).next_periodic == now
                + interval,
            r is None ==> *final(self) == *old(self),
            final(self).debounce_deadline == old(self).debounce_deadline,
    {
        if now >= self.next_periodic {
            self.next_periodic = now + interval;
            Some(SyncTrigger::Periodic)
        } else {
            None
        }
    }
}

/// The scheduling state after a whole burst of change notifications.
pub open spec fn spec_apply_changes(d: Dispatcher, times: Seq<u64>) -> Dispatcher
    decreases times.len(),
{
    if times.len() == 0 {
        d
    } else {
        spec_apply_changes(spec_note_changed(d, times[0]), times.drop_first())
    }
}

/// Debounce coalescing: however many change notifications arrive, none of
/// them triggers a sync (`handle_note_changed` returns no trigger by
/// construction), the burst leaves a single deadline — the last event time
/// plus the debounce window — and one poll at time `t` fires exactly one
/// debounced sync if and only if `t` has reached that deadline, after
/// which no debounce deadline remains pending.
pub proof fn lemma_debounce_coalesces(d0: Dispatcher, times: Seq<u64>, t: u64)
    requires
        times.len() >= 1,
        forall|k: int| 0 <= k < times.len() ==> #[trigger] times[k] + DEFAULT_DEBOUNCE_SECONDS
            <= u64::MAX,
    ensures
        spec_apply_changes(d0, times).debounce_deadline == Some(
            (times.last() + DEFAULT_DEBOUNCE_SECONDS) as u64,
        ),
        spec_debounce_due(spec_apply_changes(d0, times), t) <==> t >= times.last()
            + DEFAULT_DEBOUNCE_SECONDS,
    decreases times.len(),
{
    if times.len() == 1 {
        assert(spec_apply_changes(d0, times) == spec_note_changed(d0, times[0]));
    } else {
        let d1 = spec_note_changed(d0, times[0]);
        lemma_debounce_coalesces(d1, times.drop_first(), t);
        assert(times.drop_first().last() == times.last());
    }
}

} // verus!
