//! Decisions of the background application index worker: when a wake-up
//! leads to a rescan, after how long, and when the worker stops. The
//! worker thread itself (channels, sleeping, scanning) is run by the
//! application.
use vstd::prelude::*;

pub use crate::launcher::AppIndexUpdate;

verus! {

/// Rescans closer together than this (milliseconds) are delayed.
pub const INDEX_DEBOUNCE_MS: u64 = 50;

/// Without any refresh request, the index is rescanned this often
/// (milliseconds).
pub const INDEX_RESCAN_MS: u64 = 30000;

/// How long the worker waits for a refresh request before it checks the
/// periodic rescan (milliseconds).
pub const INDEX_POLL_MS: u64 = 500;

/// Why the worker woke up.
#[derive(Debug, Clone, Copy, PartialEq, Eq, Structural)]
pub enum IndexWake {
    /// A refresh was requested (queued requests already drained).
    Refresh,
    /// The poll interval passed without a request.
    Timeout,
    /// Every request sender is gone.
    Disconnected,
}

/// What the worker does next.
#[derive(Debug, Clone, Copy, PartialEq, Eq, Structural)]
pub enum IndexAction {
    /// Sleep `wait_ms`, then rescan and publish the next update.
    Scan { wait_ms: u64 },
    /// Wait for the next wake-up.
    Wait,
    /// Leave the worker loop.
    Stop,
}

/// The worker's decision on a wake-up, `since_last_scan_ms` after the last
/// scan began: a refresh rescans at once, or once the debounce interval
/// has passed; a timeout rescans when the periodic interval has passed; a
/// disconnect stops the worker.
pub open spec fn index_action(wake: IndexWake, since_last_scan_ms: u64) -> IndexAction {
    match wake {
        IndexWake::Refresh => IndexAction::Scan {
            wait_ms: if since_last_scan_ms < INDEX_DEBOUNCE_MS {
                (INDEX_DEBOUNCE_MS - since_last_scan_ms) as u64
            } else {
                0
            },
        },
        IndexWake::Timeout => if since_last_scan_ms >= INDEX_RESCAN_MS {
            IndexAction::Scan { wait_ms: 0 }
        } else {
            IndexAction::Wait
        },
        IndexWake::Disconnected => IndexAction::Stop,
    }
}

/// Decide what the index worker does on a wake-up.
pub fn index_worker_step(wake: IndexWake, since_last_scan_ms: u64) -> (r: IndexAction)
    ensures
        r == index_action(wake, since_last_scan_ms),
{
    match wake {
        IndexWake::Refresh => {
            let wait_ms = if since_last_scan_ms < INDEX_DEBOUNCE_MS {
                INDEX_DEBOUNCE_MS - since_last_scan_ms
            } else {
                0
            };
            IndexAction::Scan { wait_ms }
        },
        IndexWake::Timeout => if since_last_scan_ms >= INDEX_RESCAN_MS {
            IndexAction::Scan { wait_ms: 0 }
        } else {
            IndexAction::Wait
        },
        IndexWake::Disconnected => IndexAction::Stop,
    }
}

/// Consecutive scans started on request are at least the debounce
/// interval apart: the wait plus the time already passed covers it.
pub proof fn law_refresh_scans_are_debounced(since_last_scan_ms: u64)
    ensures
        index_action(IndexWake::Refresh, since_last_scan_ms) matches IndexAction::Scan { wait_ms }
            && since_last_scan_ms + wait_ms >= INDEX_DEBOUNCE_MS,
{
}

/// A timeout never rescans before the periodic interval, and always does
/// once it has passed.
pub proof fn law_timeout_rescans_only_when_due(since_last_scan_ms: u64)
    ensures
        (index_action(IndexWake::Timeout, since_last_scan_ms) is Scan) == (since_last_scan_ms
            >= INDEX_RESCAN_MS),
{
}

} // verus!
