use slopos_shell::app_index::{index_worker_step, IndexAction, IndexWake, INDEX_DEBOUNCE_MS};

#[test]
fn refresh_rescans_after_debounce() {
    assert_eq!(index_worker_step(IndexWake::Refresh, 10), IndexAction::Scan { wait_ms: 40 });
    assert_eq!(index_worker_step(IndexWake::Refresh, 0), IndexAction::Scan { wait_ms: INDEX_DEBOUNCE_MS });
    assert_eq!(index_worker_step(IndexWake::Refresh, 5000), IndexAction::Scan { wait_ms: 0 });
}

#[test]
fn timeout_rescans_every_thirty_seconds() {
    assert_eq!(index_worker_step(IndexWake::Timeout, 29_999), IndexAction::Wait);
    assert_eq!(index_worker_step(IndexWake::Timeout, 30_000), IndexAction::Scan { wait_ms: 0 });
}

#[test]
fn disconnect_stops_the_worker() {
    assert_eq!(index_worker_step(IndexWake::Disconnected, 0), IndexAction::Stop);
}
