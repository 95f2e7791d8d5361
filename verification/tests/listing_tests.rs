use display_data::device::{
    ConfigQueryOutcome, DisplayDeviceRecord, DisplaySnapshot, MonitorInfoData, MonitorInput,
    OpenResult, PhysicalDisplaySnapshot, PhysicalMonitorInput, Rect, ACCESS_DENIED_HRESULT,
    OUTPUT_TECHNOLOGY_INTERNAL,
};
use display_data::error::{Error, SysError, WinError};
use display_data::info_map::TargetQueryResult;
use display_data::{connected_displays_all, connected_displays_physical};

fn w(s: &str) -> Vec<u16> {
    s.encode_utf16().collect()
}

fn rect(l: i32, t: i32, r: i32, b: i32) -> Rect {
    Rect { left: l, top: t, right: r, bottom: b }
}

fn device(name: &str, id: &str, active: bool) -> DisplayDeviceRecord {
    DisplayDeviceRecord {
        device_name: w(name),
        device_string: w("Generic Monitor"),
        device_key: w("KEY"),
        device_id: w(id),
        state_flags: if active { 1 } else { 0 },
    }
}

fn target(id: &str, tech: i32) -> TargetQueryResult {
    TargetQueryResult { status: 0, device_path: w(id), output_technology: tech }
}

fn two_device_physical_snapshot() -> PhysicalDisplaySnapshot {
    PhysicalDisplaySnapshot {
        device_info: ConfigQueryOutcome::Queried(vec![
            target("PATH1", OUTPUT_TECHNOLOGY_INTERNAL),
            target("PATH2", 5),
        ]),
        monitors: Ok(vec![PhysicalMonitorInput {
            hmonitor: 77,
            info: Ok(MonitorInfoData {
                size: rect(0, 0, 1920, 1080),
                work_area_size: rect(0, 0, 1920, 1040),
                devices: vec![device("DEV1", "PATH1", true), device("DEV2", "PATH2", true)],
            }),
            physical: Ok(vec![101, 102]),
            opens: vec![OpenResult::Opened(201), OpenResult::Opened(202)],
        }]),
    }
}

#[test]
fn scenario_two_devices_fully_resolved() {
    let out = connected_displays_physical(two_device_physical_snapshot());
    assert_eq!(out.len(), 2);
    let first = out[0].as_ref().unwrap();
    let second = out[1].as_ref().unwrap();
    assert_eq!(first.hmonitor, 77);
    assert_eq!(first.device_name, "DEV1");
    assert_eq!(first.device_path, "PATH1");
    assert_eq!(first.output_technology, OUTPUT_TECHNOLOGY_INTERNAL);
    assert!(first.is_internal());
    assert_eq!(first.physical_monitor.handle_value(), 101);
    assert_eq!(first.file_handle.handle_value(), 201);
    assert_eq!(first.size.right, 1920);
    assert_eq!(first.work_area_size.bottom, 1040);
    assert_eq!(second.device_name, "DEV2");
    assert_eq!(second.device_path, "PATH2");
    assert_eq!(second.output_technology, 5);
    assert!(!second.is_internal());
    assert_eq!(second.physical_monitor.handle_value(), 102);
    assert_eq!(second.file_handle.handle_value(), 202);
}

#[test]
fn listing_twice_yields_same_path_set() {
    let a = connected_displays_physical(two_device_physical_snapshot());
    let b = connected_displays_physical(two_device_physical_snapshot());
    let mut paths_a: Vec<String> =
        a.iter().filter_map(|e| e.as_ref().ok().map(|d| d.device_path.clone())).collect();
    let mut paths_b: Vec<String> =
        b.iter().filter_map(|e| e.as_ref().ok().map(|d| d.device_path.clone())).collect();
    paths_a.sort();
    paths_b.sort();
    assert_eq!(paths_a, paths_b);
}

#[test]
fn mismatched_lengths_give_one_error_and_other_monitors_survive() {
    let snapshot = PhysicalDisplaySnapshot {
        device_info: ConfigQueryOutcome::Queried(vec![target("PATH1", 5), target("PATH2", 5)]),
        monitors: Ok(vec![
            PhysicalMonitorInput {
                hmonitor: 1,
                info: Ok(MonitorInfoData {
                    size: rect(0, 0, 10, 10),
                    work_area_size: rect(0, 0, 10, 10),
                    devices: vec![device("DEV1", "PATH1", true), device("DEV2", "PATH2", true)],
                }),
                physical: Ok(vec![101]),
                opens: vec![],
            },
            PhysicalMonitorInput {
                hmonitor: 2,
                info: Ok(MonitorInfoData {
                    size: rect(0, 0, 10, 10),
                    work_area_size: rect(0, 0, 10, 10),
                    devices: vec![device("DEV3", "PATH2", true)],
                }),
                physical: Ok(vec![102]),
                opens: vec![OpenResult::Opened(202)],
            },
        ]),
    };
    let out = connected_displays_physical(snapshot);
    assert_eq!(out.len(), 2);
    assert!(matches!(
        out[0],
        Err(Error::ListingDevicesFailed(SysError::EnumerationMismatch))
    ));
    let ok = out[1].as_ref().unwrap();
    assert_eq!(ok.hmonitor, 2);
    assert_eq!(ok.device_name, "DEV3");
}

#[test]
fn missing_target_info_yields_device_info_missing() {
    let snapshot = DisplaySnapshot {
        device_info: ConfigQueryOutcome::Queried(vec![target("PATH1", 5)]),
        monitors: Ok(vec![MonitorInput {
            hmonitor: 1,
            info: Ok(MonitorInfoData {
                size: rect(0, 0, 10, 10),
                work_area_size: rect(0, 0, 10, 10),
                devices: vec![device("DEV1", "PATH1", true), device("DEV2", "UNKNOWN", true)],
            }),
        }]),
    };
    let out = connected_displays_all(snapshot);
    assert_eq!(out.len(), 2);
    assert!(out[0].is_ok());
    assert!(matches!(
        out[1],
        Err(Error::ListingDevicesFailed(SysError::DeviceInfoMissing))
    ));
}

#[test]
fn denied_open_drops_device_silently() {
    let mut snapshot = two_device_physical_snapshot();
    if let Ok(monitors) = &mut snapshot.monitors {
        monitors[0].opens =
            vec![OpenResult::Failed(ACCESS_DENIED_HRESULT), OpenResult::Opened(202)];
    }
    let out = connected_displays_physical(snapshot);
    assert_eq!(out.len(), 1);
    let ok = out[0].as_ref().unwrap();
    assert_eq!(ok.device_name, "DEV2");
}

#[test]
fn other_open_failure_surfaces_named_error() {
    let mut snapshot = two_device_physical_snapshot();
    if let Ok(monitors) = &mut snapshot.monitors {
        monitors[0].opens = vec![OpenResult::Failed(-5), OpenResult::Opened(202)];
    }
    let out = connected_displays_physical(snapshot);
    assert_eq!(out.len(), 2);
    match &out[0] {
        Err(Error::ListingDevicesFailed(
            SysError::OpeningMonitorDeviceInterfaceHandleFailed { device_name, source },
        )) => {
            assert_eq!(device_name, "DEV1");
            assert_eq!(source.code, -5);
        },
        _ => panic!("expected a named open failure"),
    }
    assert!(out[1].is_ok());
}

#[test]
fn inactive_devices_are_dropped() {
    let snapshot = DisplaySnapshot {
        device_info: ConfigQueryOutcome::Queried(vec![target("PATH1", 5), target("PATH2", 6)]),
        monitors: Ok(vec![MonitorInput {
            hmonitor: 1,
            info: Ok(MonitorInfoData {
                size: rect(0, 0, 10, 10),
                work_area_size: rect(0, 0, 10, 10),
                devices: vec![device("DEV1", "PATH1", false), device("DEV2", "PATH2", true)],
            }),
        }]),
    };
    let out = connected_displays_all(snapshot);
    assert_eq!(out.len(), 1);
    let ok = out[0].as_ref().unwrap();
    assert_eq!(ok.device_name, "DEV2");
    assert_eq!(ok.output_technology, 6);
}

#[test]
fn buffer_size_failure_short_circuits() {
    let snapshot = DisplaySnapshot {
        device_info: ConfigQueryOutcome::BufferSizesFailed(WinError { code: -7 }),
        monitors: Ok(vec![]),
    };
    let out = connected_displays_all(snapshot);
    assert_eq!(out.len(), 1);
    match &out[0] {
        Err(Error::ListingDevicesFailed(SysError::GetDisplayConfigBufferSizesFailed(e))) => {
            assert_eq!(e.code, -7);
        },
        _ => panic!("expected a buffer-size failure"),
    }
}

#[test]
fn config_query_failure_short_circuits() {
    let snapshot = PhysicalDisplaySnapshot {
        device_info: ConfigQueryOutcome::QueryFailed(WinError { code: -8 }),
        monitors: Ok(vec![]),
    };
    let out = connected_displays_physical(snapshot);
    assert_eq!(out.len(), 1);
    assert!(matches!(
        out[0],
        Err(Error::ListingDevicesFailed(SysError::QueryDisplayConfigFailed(WinError {
            code: -8,
        })))
    ));
}

#[test]
fn monitor_walk_failure_short_circuits() {
    let snapshot = DisplaySnapshot {
        device_info: ConfigQueryOutcome::Queried(vec![]),
        monitors: Err(WinError { code: -9 }),
    };
    let out = connected_displays_all(snapshot);
    assert_eq!(out.len(), 1);
    assert!(matches!(
        out[0],
        Err(Error::ListingDevicesFailed(SysError::EnumDisplayMonitorsFailed(WinError {
            code: -9,
        })))
    ));
}

#[test]
fn monitor_info_failure_is_one_element_for_that_monitor() {
    let snapshot = DisplaySnapshot {
        device_info: ConfigQueryOutcome::Queried(vec![target("PATH1", 5)]),
        monitors: Ok(vec![
            MonitorInput { hmonitor: 1, info: Err(WinError { code: -3 }) },
            MonitorInput {
                hmonitor: 2,
                info: Ok(MonitorInfoData {
                    size: rect(0, 0, 10, 10),
                    work_area_size: rect(0, 0, 10, 10),
                    devices: vec![device("DEV1", "PATH1", true)],
                }),
            },
        ]),
    };
    let out = connected_displays_all(snapshot);
    assert_eq!(out.len(), 2);
    assert!(matches!(
        out[0],
        Err(Error::ListingDevicesFailed(SysError::GetMonitorInfoFailed(WinError { code: -3 })))
    ));
    assert!(out[1].is_ok());
}

#[test]
fn physical_query_failure_is_one_element_for_that_monitor() {
    let snapshot = PhysicalDisplaySnapshot {
        device_info: ConfigQueryOutcome::Queried(vec![]),
        monitors: Ok(vec![PhysicalMonitorInput {
            hmonitor: 1,
            info: Ok(MonitorInfoData {
                size: rect(0, 0, 10, 10),
                work_area_size: rect(0, 0, 10, 10),
                devices: vec![],
            }),
            physical: Err(WinError { code: -4 }),
            opens: vec![],
        }]),
    };
    let out = connected_displays_physical(snapshot);
    assert_eq!(out.len(), 1);
    assert!(matches!(
        out[0],
        Err(Error::ListingDevicesFailed(SysError::GetPhysicalMonitorsFailed(WinError {
            code: -4,
        })))
    ));
}

#[test]
fn empty_snapshot_lists_nothing() {
    let snapshot = DisplaySnapshot {
        device_info: ConfigQueryOutcome::Queried(vec![]),
        monitors: Ok(vec![]),
    };
    assert_eq!(connected_displays_all(snapshot).len(), 0);
}

#[test]
fn zero_devices_and_zero_handles_is_not_a_mismatch() {
    let snapshot = PhysicalDisplaySnapshot {
        device_info: ConfigQueryOutcome::Queried(vec![]),
        monitors: Ok(vec![PhysicalMonitorInput {
            hmonitor: 1,
            info: Ok(MonitorInfoData {
                size: rect(0, 0, 10, 10),
                work_area_size: rect(0, 0, 10, 10),
                devices: vec![device("DEV1", "PATH1", false)],
            }),
            physical: Ok(vec![]),
            opens: vec![],
        }]),
    };
    assert_eq!(connected_displays_physical(snapshot).len(), 0);
}

#[test]
fn access_denied_target_entries_skip_but_listing_continues() {
    let snapshot = DisplaySnapshot {
        device_info: ConfigQueryOutcome::Queried(vec![
            TargetQueryResult { status: 5, device_path: w("PATH1"), output_technology: 1 },
            target("PATH2", 6),
        ]),
        monitors: Ok(vec![MonitorInput {
            hmonitor: 1,
            info: Ok(MonitorInfoData {
                size: rect(0, 0, 10, 10),
                work_area_size: rect(0, 0, 10, 10),
                devices: vec![device("DEV2", "PATH2", true)],
            }),
        }]),
    };
    let out = connected_displays_all(snapshot);
    assert_eq!(out.len(), 1);
    assert_eq!(out[0].as_ref().unwrap().output_technology, 6);
}
