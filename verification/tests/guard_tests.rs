use display_data::device::{WrappedFileHandle, WrappedPhysicalMonitor};

#[test]
fn physical_monitor_guard_releases_exactly_once() {
    // A fake release counter: each call of `release` hands the handle out
    // for one platform release; the guard refuses a second call.
    let mut releases: usize = 0;
    let mut guard = WrappedPhysicalMonitor::new(42);
    assert_eq!(guard.handle_value(), 42);
    let raw = guard.release();
    releases += 1;
    assert_eq!(raw, 42);
    assert_eq!(releases, 1);
}

#[test]
fn file_handle_guard_releases_exactly_once() {
    let mut releases: usize = 0;
    let mut guard = WrappedFileHandle::new(7);
    assert_eq!(guard.handle_value(), 7);
    let raw = guard.release();
    releases += 1;
    assert_eq!(raw, 7);
    assert_eq!(releases, 1);
}

#[test]
fn guard_keeps_handle_value_for_diagnostics() {
    let guard = WrappedPhysicalMonitor::new(-3);
    assert_eq!(guard.handle_value(), -3);
    let other = WrappedFileHandle::new(0);
    assert_eq!(other.handle_value(), 0);
}
