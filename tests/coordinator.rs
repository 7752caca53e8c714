use tray_bright::{coalesce, clamp_brightness, Coordinator, MonitorCmd, MonitorUpdate, WorkerAction};

fn write(index: usize, value: u32) -> WorkerAction {
    WorkerAction::Write { index, value }
}

fn publish(index: usize, brightness: u32) -> WorkerAction {
    WorkerAction::Publish(MonitorUpdate { index, brightness })
}

fn two_devices(now: u64) -> Coordinator {
    Coordinator::new(vec![(0, 100), (0, 100)], now, 4000, 5000)
}

#[test]
fn coalescing_keeps_last_value_per_device() {
    let mut c = two_devices(0);
    let cmds = vec![
        MonitorCmd::SetBrightness(0, 10),
        MonitorCmd::SetBrightness(0, 20),
        MonitorCmd::SetBrightness(0, 30),
    ];
    let actions = c.step(true, &cmds, false, 100);
    assert_eq!(actions, vec![write(0, 30), publish(0, 30)]);
}

#[test]
fn coalescing_orders_devices_by_index() {
    let mut c = two_devices(0);
    let cmds = vec![
        MonitorCmd::SetBrightness(1, 40),
        MonitorCmd::SetBrightness(0, 70),
        MonitorCmd::SetBrightness(1, 45),
    ];
    let actions = c.step(true, &cmds, false, 100);
    assert_eq!(actions, vec![write(0, 70), publish(0, 70), write(1, 45), publish(1, 45)]);
}

#[test]
fn coalesce_table_has_one_slot_per_device() {
    let cmds = vec![MonitorCmd::SetBrightness(2, 5), MonitorCmd::SetBrightness(2, 6)];
    assert_eq!(coalesce(&cmds, 4), vec![None, None, Some(6), None]);
    assert_eq!(coalesce(&Vec::new(), 0), Vec::<Option<u32>>::new());
}

#[test]
fn clamping_applies_to_write_and_echo() {
    let mut c = Coordinator::new(vec![(10, 80)], 0, 4000, 5000);
    let actions = c.step(false, &vec![MonitorCmd::SetBrightness(0, 150)], false, 1);
    assert_eq!(actions, vec![write(0, 80), publish(0, 80)]);
    let actions = c.step(false, &vec![MonitorCmd::SetBrightness(0, 3)], false, 2);
    assert_eq!(actions, vec![write(0, 10), publish(0, 10)]);
    let actions = c.step(false, &vec![MonitorCmd::SetBrightness(0, 42)], false, 3);
    assert_eq!(actions, vec![write(0, 42), publish(0, 42)]);
}

#[test]
fn clamp_brightness_values() {
    assert_eq!(clamp_brightness(150, 0, 100), 100);
    assert_eq!(clamp_brightness(5, 10, 100), 10);
    assert_eq!(clamp_brightness(50, 0, 100), 50);
    assert_eq!(clamp_brightness(100, 0, 100), 100);
    assert_eq!(clamp_brightness(0, 0, 100), 0);
}

#[test]
fn poll_waits_for_interval() {
    let mut c = two_devices(0);
    assert_eq!(c.step(true, &Vec::new(), false, 4999), Vec::<WorkerAction>::new());
    assert_eq!(
        c.step(true, &Vec::new(), false, 5000),
        vec![WorkerAction::Poll { index: 0 }, WorkerAction::Poll { index: 1 }]
    );
    assert_eq!(c.step(true, &Vec::new(), false, 9999), Vec::<WorkerAction>::new());
    assert_eq!(
        c.step(true, &Vec::new(), false, 10000),
        vec![WorkerAction::Poll { index: 0 }, WorkerAction::Poll { index: 1 }]
    );
}

#[test]
fn write_cooldown_suppresses_polls() {
    let mut c = two_devices(0);
    let actions = c.step(true, &vec![MonitorCmd::SetBrightness(0, 60)], false, 4000);
    assert_eq!(actions, vec![write(0, 60), publish(0, 60)]);
    // Poll due at 5000; device 0 was written at 4000, so it is skipped until 8000.
    assert_eq!(c.step(true, &Vec::new(), false, 5000), vec![WorkerAction::Poll { index: 1 }]);
    assert_eq!(c.step(true, &Vec::new(), false, 10000), vec![WorkerAction::Poll { index: 0 }, WorkerAction::Poll { index: 1 }]);
}

#[test]
fn write_cooldown_edge_is_exclusive() {
    let mut c = Coordinator::new(vec![(0, 100)], 0, 4000, 0);
    c.step(true, &vec![MonitorCmd::SetBrightness(0, 1)], false, 1000);
    assert_eq!(c.step(true, &Vec::new(), false, 4999), Vec::<WorkerAction>::new());
    assert_eq!(c.step(true, &Vec::new(), false, 5000), vec![WorkerAction::Poll { index: 0 }]);
}

#[test]
fn same_wake_write_is_not_polled() {
    let mut c = two_devices(0);
    let actions = c.step(true, &vec![MonitorCmd::SetBrightness(1, 33)], false, 6000);
    assert_eq!(actions, vec![write(1, 33), publish(1, 33), WorkerAction::Poll { index: 0 }]);
}

#[test]
fn hidden_wake_never_polls_but_writes() {
    let mut c = two_devices(0);
    assert_eq!(c.step(false, &Vec::new(), false, 60000), Vec::<WorkerAction>::new());
    let actions = c.step(false, &vec![MonitorCmd::SetBrightness(1, 25)], false, 61000);
    assert_eq!(actions, vec![write(1, 25), publish(1, 25)]);
    // Becoming visible again resumes polling on the coordinator's own schedule.
    assert_eq!(c.step(true, &Vec::new(), false, 62000), vec![WorkerAction::Poll { index: 0 }]);
}

#[test]
fn shutdown_releases_once_then_does_nothing() {
    let mut c = two_devices(0);
    let actions = c.step(true, &vec![MonitorCmd::SetBrightness(0, 10)], true, 100);
    assert_eq!(actions, vec![WorkerAction::Release]);
    assert!(c.is_released());
    assert_eq!(c.step(true, &Vec::new(), true, 200), Vec::<WorkerAction>::new());
    assert_eq!(
        c.step(true, &vec![MonitorCmd::SetBrightness(1, 10)], false, 20000),
        Vec::<WorkerAction>::new()
    );
}

#[test]
fn record_poll_publishes_and_updates_range() {
    let mut c = two_devices(0);
    assert_eq!(c.record_poll(1, None), None);
    assert_eq!(
        c.record_poll(1, Some((55, 20, 60))),
        Some(MonitorUpdate { index: 1, brightness: 55 })
    );
    let actions = c.step(false, &vec![MonitorCmd::SetBrightness(1, 90)], false, 10);
    assert_eq!(actions, vec![write(1, 60), publish(1, 60)]);
}

#[test]
fn end_to_end_two_devices() {
    let mut c = two_devices(0);
    // 150 then, 50 ms later, 80: both queued before the worker drains.
    let cmds = vec![MonitorCmd::SetBrightness(0, 150), MonitorCmd::SetBrightness(0, 80)];
    let actions = c.step(true, &cmds, false, 5000);
    assert_eq!(
        actions,
        vec![write(0, 80), publish(0, 80), WorkerAction::Poll { index: 1 }]
    );
    assert_eq!(c.device_count(), 2);
}
