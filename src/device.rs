//! Devices as the core sees them: the capability interfaces a platform
//! implements, and the snapshot taken of each device at startup.

use vstd::prelude::*;

verus! {

/// Why a hardware call failed.
pub struct DeviceError {
    pub message: String,
}

/// A single physical monitor that supports brightness control.
pub trait MonitorHandle {
    fn name(&self) -> &str;

    /// Returns `(current, min, max)`.
    fn poll_brightness(&mut self) -> Result<(u32, u32, u32), DeviceError>;

    fn set_brightness(&mut self, value: u32) -> Result<(), DeviceError>;
}

/// Discovers the connected monitors and releases them again.
pub trait MonitorProvider {
    type Monitor: MonitorHandle;

    fn get_monitors(&self) -> Result<Vec<Self::Monitor>, DeviceError>;

    fn cleanup_monitors(&self, monitors: &mut Vec<Self::Monitor>);
}

/// Registers the application to start on logon.
pub trait AutostartManager {
    fn is_startup_enabled(&self) -> bool;

    fn set_startup_enabled(&self, enabled: bool) -> bool;
}

/// Brightness shown for a device whose first poll failed.
pub const DEFAULT_BRIGHTNESS: u32 = 0;

/// The range writes are clamped to while a device's own range is unknown.
pub const FALLBACK_MIN: u32 = 0;

pub const FALLBACK_MAX: u32 = 100;

/// What the UI learns of a device once, before the worker starts.
pub struct DeviceSnapshot {
    pub name: String,
    pub min: u32,
    pub current: u32,
    pub max: u32,
}

/// The snapshot of a device from the outcome of its first poll, given as
/// `(current, min, max)`; a failed poll shows every value as zero.
pub fn snapshot_from_poll(name: String, polled: Option<(u32, u32, u32)>) -> (r: DeviceSnapshot)
    ensures
        r.name@ == name@,
        match polled {
            Some((current, min, max)) => r.current == current && r.min == min && r.max == max,
            None => r.current == DEFAULT_BRIGHTNESS && r.min == DEFAULT_BRIGHTNESS && r.max
                == DEFAULT_BRIGHTNESS,
        },
{
    match polled {
        Some((current, min, max)) => DeviceSnapshot { name, min, current, max },
        None => DeviceSnapshot {
            name,
            min: DEFAULT_BRIGHTNESS,
            current: DEFAULT_BRIGHTNESS,
            max: DEFAULT_BRIGHTNESS,
        },
    }
}

/// The range the worker clamps writes to, from the outcome of the first poll.
pub fn write_range(polled: Option<(u32, u32, u32)>) -> (r: (u32, u32))
    ensures
        r == match polled {
            Some((_, min, max)) => (min, max),
            None => (FALLBACK_MIN, FALLBACK_MAX),
        },
{
    match polled {
        Some((_, min, max)) => (min, max),
        None => (FALLBACK_MIN, FALLBACK_MAX),
    }
}

} // verus!
