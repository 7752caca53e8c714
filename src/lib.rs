//! Brightness coordination for slow DDC/CI-style displays.
//!
//! The library holds the logic that sits between a UI that wants to move a
//! brightness slider smoothly and hardware whose reads and writes take seconds:
//! coalescing of queued commands, write cooldowns that suppress stale reads,
//! visibility-gated polling, and the presentation-side suppression mirror.
//! Threads, channels, clocks and device I/O stay with the caller, which feeds
//! plain values in and carries out the actions handed back.

mod coordinator;
mod device;
mod linux;
mod mac;
mod platform;
mod presentation;
mod protocol;
mod win;
mod worker_laws;

pub use coordinator::{
    coalesce, Coordinator, CoordinatorState, Wake, WorkerAction, POLL_INTERVAL_MS, WRITE_COOLDOWN_MS,
};
pub use device::{
    snapshot_from_poll, write_range, AutostartManager, DeviceError, DeviceSnapshot, MonitorHandle,
    MonitorProvider, DEFAULT_BRIGHTNESS, FALLBACK_MAX, FALLBACK_MIN,
};
pub use linux::{
    backlight_percent, backlight_raw, parse_ddcutil_detect, parse_decimal, parse_vcp_brief,
    split_tokens,
};
pub use mac::{MacDisplay, MacMonitorProvider};
pub use platform::{get_wmi_monitor_names, wmi_monitor_name, parse_monitor_info_from_device_id, to_wide_string, wide_c_array_to_string};
pub use presentation::{presentation_suppression_law, TrayBrightUI, UiState, USER_COOLDOWN_MS};
pub use protocol::{clamp_brightness, MonitorCmd, MonitorUpdate};
pub use win::{
    decreased_brightness, increased_brightness, MonitorControl, WinAutostartManager, WinMonitor,
    WinMonitorProvider, WinMonitorState, WinWindowController,
};
pub use worker_laws::{
    clamping_law, coalescing_law, hidden_wake_law, shutdown_law, write_cooldown_law,
};
