use std::sync::atomic::{AtomicBool, Ordering};
use std::sync::Arc;
use tray_bright::{
    snapshot_from_poll, write_range, DeviceSnapshot, MonitorCmd, MonitorUpdate, TrayBrightUI,
    DEFAULT_BRIGHTNESS,
};

fn ui() -> TrayBrightUI {
    let devices = vec![
        snapshot_from_poll("Left".to_string(), Some((40, 0, 100))),
        snapshot_from_poll("Right".to_string(), None),
    ];
    TrayBrightUI::new(&devices, Arc::new(AtomicBool::new(false)), 4000).unwrap()
}

#[test]
fn no_devices_is_a_construction_failure() {
    let none: Vec<DeviceSnapshot> = Vec::new();
    assert!(TrayBrightUI::new(&none, Arc::new(AtomicBool::new(false)), 4000).is_none());
}

#[test]
fn new_shows_snapshot_values() {
    let u = ui();
    assert_eq!(u.monitor_count(), 2);
    assert_eq!(u.monitor_name(0), "Left");
    assert_eq!(u.brightness(0), 40);
    assert_eq!(u.range(0), (0, 100));
    assert_eq!(u.brightness(1), DEFAULT_BRIGHTNESS);
    assert_eq!(u.range(1), (0, 0));
}

#[test]
fn updates_apply_when_idle() {
    let mut u = ui();
    assert!(u.apply_update(MonitorUpdate { index: 0, brightness: 70 }, 100));
    assert_eq!(u.brightness(0), 70);
}

#[test]
fn updates_suppressed_while_interacting() {
    let mut u = ui();
    u.slider_moved(0, 65, 1000);
    assert_eq!(u.brightness(0), 65);
    assert!(u.is_interacting(0, 4999));
    assert!(!u.apply_update(MonitorUpdate { index: 0, brightness: 10 }, 4999));
    assert_eq!(u.brightness(0), 65);
    // The other device is unaffected.
    assert!(u.apply_update(MonitorUpdate { index: 1, brightness: 12 }, 4999));
    assert_eq!(u.brightness(1), 12);
    // After the window the update is applied.
    assert!(u.apply_update(MonitorUpdate { index: 0, brightness: 10 }, 5000));
    assert_eq!(u.brightness(0), 10);
}

#[test]
fn release_restarts_cooldown_and_sends_command() {
    let mut u = ui();
    u.slider_moved(0, 80, 1000);
    let cmd = u.slider_released(0, 3000);
    assert_eq!(cmd, MonitorCmd::SetBrightness(0, 80));
    assert!(!u.apply_update(MonitorUpdate { index: 0, brightness: 40 }, 6999));
    assert_eq!(u.brightness(0), 80);
    assert!(u.apply_update(MonitorUpdate { index: 0, brightness: 79 }, 7000));
    assert_eq!(u.brightness(0), 79);
}

#[test]
fn visible_flag_is_shared() {
    let u = ui();
    let flag = u.visible_flag();
    flag.store(true, Ordering::Relaxed);
    assert!(u.visible_flag().load(Ordering::Relaxed));
}

#[test]
fn snapshot_defaults_on_failed_poll() {
    let s: DeviceSnapshot = snapshot_from_poll("X".to_string(), None);
    assert_eq!((s.min, s.current, s.max), (0, 0, 0));
    let s = snapshot_from_poll("Y".to_string(), Some((5, 1, 9)));
    assert_eq!((s.min, s.current, s.max), (1, 5, 9));
    assert_eq!(s.name, "Y");
}

#[test]
fn write_range_falls_back() {
    assert_eq!(write_range(None), (0, 100));
    assert_eq!(write_range(Some((5, 1, 9))), (1, 9));
}
