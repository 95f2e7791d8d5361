use display_data::error::SysError;
use display_data::flag_set;
use display_data::info_map::{
    build_device_info_map, eq_wide, filter_target_modes, win32_error_to_hresult, DeviceInfoMap,
    DisplayModeInfo, TargetQueryResult,
};

fn mode(info_type: i32, id: u32) -> DisplayModeInfo {
    DisplayModeInfo { info_type, id, adapter_id_low: 1, adapter_id_high: 0 }
}

#[test]
fn filter_keeps_only_target_modes_in_order() {
    let modes = vec![mode(1, 10), mode(2, 11), mode(3, 12), mode(2, 13)];
    let targets = filter_target_modes(&modes);
    assert_eq!(targets.len(), 2);
    assert_eq!(targets[0].id, 11);
    assert_eq!(targets[1].id, 13);
}

#[test]
fn build_map_keeps_successes() {
    let results = vec![
        TargetQueryResult { status: 0, device_path: vec![80, 49], output_technology: 5 },
        TargetQueryResult { status: 0, device_path: vec![80, 50], output_technology: 9 },
    ];
    let map = build_device_info_map(results).unwrap();
    assert_eq!(map.get(&vec![80, 49]), Some(5));
    assert_eq!(map.get(&vec![80, 50]), Some(9));
    assert_eq!(map.get(&vec![80, 51]), None);
}

#[test]
fn build_map_skips_access_denied() {
    let results = vec![
        TargetQueryResult { status: 5, device_path: vec![80, 49], output_technology: 5 },
        TargetQueryResult { status: 0, device_path: vec![80, 50], output_technology: 9 },
    ];
    let map = build_device_info_map(results).unwrap();
    assert_eq!(map.get(&vec![80, 49]), None);
    assert_eq!(map.get(&vec![80, 50]), Some(9));
}

#[test]
fn build_map_fails_on_other_error() {
    let results = vec![
        TargetQueryResult { status: 0, device_path: vec![80, 49], output_technology: 5 },
        TargetQueryResult { status: 31, device_path: vec![80, 50], output_technology: 9 },
    ];
    match build_device_info_map(results) {
        Err(SysError::DisplayConfigGetDeviceInfoFailed(e)) => {
            assert_eq!(e.code, win32_error_to_hresult(31));
            assert_eq!(e.code, -2147024865);
        },
        _ => panic!("expected a device-info query failure"),
    }
}

#[test]
fn duplicate_path_last_write_wins() {
    let results = vec![
        TargetQueryResult { status: 0, device_path: vec![80, 49], output_technology: 5 },
        TargetQueryResult { status: 0, device_path: vec![80, 49], output_technology: 8 },
    ];
    let map = build_device_info_map(results).unwrap();
    assert_eq!(map.get(&vec![80, 49]), Some(8));
}

#[test]
fn empty_map_finds_nothing() {
    let map = DeviceInfoMap::new();
    assert_eq!(map.get(&vec![]), None);
    assert_eq!(map.get(&vec![80]), None);
}

#[test]
fn wide_key_equality_is_exact() {
    assert!(eq_wide(&vec![1, 2, 3], &vec![1, 2, 3]));
    assert!(!eq_wide(&vec![1, 2, 3], &vec![1, 2]));
    assert!(!eq_wide(&vec![1, 2, 3], &vec![1, 2, 4]));
    assert!(eq_wide(&vec![], &vec![]));
}

#[test]
fn flag_set_tests_all_flag_bits() {
    assert!(flag_set(0b111, 0b101));
    assert!(!flag_set(0b100, 0b101));
    assert!(flag_set(7, 0));
}

#[test]
fn win32_to_hresult_keeps_low_bits() {
    assert_eq!(win32_error_to_hresult(5), -2147024891);
    assert_eq!(win32_error_to_hresult(0), 0);
    assert_eq!(win32_error_to_hresult(0x8007_0005), 0x8007_0005u32 as i32);
}
