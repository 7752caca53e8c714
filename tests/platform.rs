use tray_bright::{
    decreased_brightness, increased_brightness, parse_monitor_info_from_device_id,
    get_wmi_monitor_names, to_wide_string, wide_c_array_to_string, wmi_monitor_name, MacDisplay,
    MacMonitorProvider, MonitorControl, WinMonitor, WinMonitorProvider,
    WinWindowController,
};

#[test]
fn device_id_known_manufacturer() {
    assert_eq!(
        parse_monitor_info_from_device_id("MONITOR\\DEL4321\\{4d36e96e}\\0001"),
        Some(("Dell".to_string(), "4321".to_string()))
    );
    assert_eq!(
        parse_monitor_info_from_device_id("MONITOR\\GSM5B7F"),
        Some(("LG".to_string(), "5B7F".to_string()))
    );
}

#[test]
fn device_id_unknown_manufacturer_kept() {
    assert_eq!(
        parse_monitor_info_from_device_id("MONITOR\\XYZ12\\a"),
        Some(("XYZ".to_string(), "12".to_string()))
    );
    assert_eq!(
        parse_monitor_info_from_device_id("MONITOR\\ABC"),
        Some(("ABC".to_string(), String::new()))
    );
}

#[test]
fn device_id_rejected() {
    assert_eq!(parse_monitor_info_from_device_id(""), None);
    assert_eq!(parse_monitor_info_from_device_id("MONITOR"), None);
    assert_eq!(parse_monitor_info_from_device_id("MONITOR\\DE\\x"), None);
    assert_eq!(parse_monitor_info_from_device_id("DISPLAY\\DEL4321"), None);
    assert_eq!(parse_monitor_info_from_device_id("MONITORX\\DEL4321"), None);
}

#[test]
fn wide_string_is_nul_terminated() {
    assert_eq!(to_wide_string("Ab"), vec![0x41, 0x62, 0]);
    assert_eq!(to_wide_string(""), vec![0]);
    assert_eq!(to_wide_string("\u{20ac}"), vec![0x20ac, 0]);
    assert_eq!(to_wide_string("a\u{1f600}"), vec![0x61, 0xd83d, 0xde00, 0]);
    assert_eq!(to_wide_string("\u{10ffff}"), vec![0xdbff, 0xdfff, 0]);
}

#[test]
fn wide_buffer_stops_at_nul() {
    assert_eq!(wide_c_array_to_string(&[0x48, 0x69, 0, 0x58]), "Hi");
    assert_eq!(wide_c_array_to_string(&[0x48, 0x69]), "Hi");
    assert_eq!(wide_c_array_to_string(&[0, 0x48]), "");
    assert_eq!(wide_c_array_to_string(&[0xd800, 0x41]), "\u{fffd}A");
}

#[test]
fn brightness_steps() {
    assert_eq!(increased_brightness(0, 50, 100, 10), 60);
    assert_eq!(increased_brightness(0, 95, 100, 10), 100);
    assert_eq!(increased_brightness(20, 50, 70, 10), 55);
    assert_eq!(decreased_brightness(0, 50, 100, 10), 40);
    assert_eq!(decreased_brightness(20, 22, 70, 10), 20);
    assert_eq!(decreased_brightness(0, 3, 100, 10), 0);
    assert_eq!(increased_brightness(0, u32::MAX - 1, u32::MAX, u32::MAX), u32::MAX);
}

#[test]
fn win_monitor_bookkeeping() {
    let mut m = WinMonitor::create("Panel".to_string(), 7);
    assert_eq!(m.get_brightness_range(), None);
    assert_eq!(m.write_target(150), 100);
    assert_eq!(m.record_brightness(10, 30, 80), (30, 10, 80));
    assert_eq!(m.get_brightness_range(), Some((10, 30, 80)));
    assert_eq!(m.get_min_brightness(), Some(10));
    assert_eq!(m.get_max_brightness(), Some(80));
    assert_eq!(m.write_target(150), 80);
    assert_eq!(m.write_target(5), 10);
    m.record_written(44);
    assert_eq!(m.get_current_brightness(), Some(44));
    assert_eq!(MonitorControl::name(&m), "Panel");
}

#[test]
fn monitors_pair_names_with_reversed_handles() {
    let names = vec!["A".to_string(), "B".to_string()];
    let ms = WinMonitorProvider::assemble(names, &vec![1, 2, 3]).unwrap();
    assert_eq!(ms.len(), 2);
    assert_eq!(ms[0].handle, 3);
    assert_eq!(ms[1].handle, 2);
    assert_eq!(MonitorControl::name(&ms[1]), "B");
    let _ = WinMonitorProvider::new();
}

#[test]
fn no_names_or_handles_is_an_enumeration_failure() {
    assert!(WinMonitorProvider::assemble(Vec::new(), &vec![1, 2]).is_none());
    assert!(WinMonitorProvider::assemble(vec!["A".to_string()], &Vec::new()).is_none());
}

#[test]
fn mac_snapshots_and_names() {
    let displays = vec![
        MacDisplay { id: "7".to_string(), model_name: None, vcp: Some((20, 0)) },
        MacDisplay { id: "9".to_string(), model_name: Some("LG HDR".to_string()), vcp: None },
    ];
    let snaps = MacMonitorProvider::snapshots(&displays).unwrap();
    assert_eq!(snaps.len(), 2);
    assert_eq!(snaps[0].name, "Display 7");
    assert_eq!((snaps[0].current, snaps[0].min, snaps[0].max), (20, 0, 100));
    assert_eq!(snaps[1].name, "LG HDR");
    assert_eq!((snaps[1].current, snaps[1].min, snaps[1].max), (0, 0, 100));
    assert_eq!(MacMonitorProvider::display_name(&displays[0]), "Display 7");
    assert!(MacMonitorProvider::snapshots(&Vec::new()).is_none());
}

#[test]
fn wmi_friendly_names() {
    assert_eq!(wmi_monitor_name(&[0x44, 0x45, 0x4c, 0x4c, 0, 0, 0]), Some("DELL".to_string()));
    assert_eq!(wmi_monitor_name(&[0, 0x41]), None);
    assert_eq!(wmi_monitor_name(&[]), None);
    assert_eq!(wmi_monitor_name(&[0x141, 0x42]), Some("AB".to_string()));
    let records = vec![
        Some(vec![0x55, 0x32, 0]),
        None,
        Some(vec![0, 0]),
        Some(vec![0x4c, 0x47]),
    ];
    assert_eq!(get_wmi_monitor_names(&records), vec!["U2".to_string(), "LG".to_string()]);
}

#[test]
fn window_visibility_transitions() {
    let mut w = WinWindowController::new(9);
    assert!(w.is_visible());
    assert!(!w.show_window());
    assert!(w.hide_window());
    assert!(!w.hide_window());
    assert!(!w.is_visible());
    w.toggle();
    assert!(w.is_visible());
    assert!(!w.set_visible(true));
    assert!(w.set_visible(false));
    assert_eq!(w.hwnd(), 9);
}

#[test]
fn mac_vcp_readings() {
    let _ = MacMonitorProvider::new();
    assert_eq!(MacMonitorProvider::reading_from_vcp(Some((30, 80))), (30, 0, 80));
    assert_eq!(MacMonitorProvider::reading_from_vcp(Some((30, 0))), (30, 0, 100));
    assert_eq!(MacMonitorProvider::reading_from_vcp(None), (0, 0, 100));
}
