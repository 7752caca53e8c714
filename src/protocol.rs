//! Messages exchanged between the presentation side and the worker.

use vstd::prelude::*;

verus! {

/// A request sent from the UI to the worker.
#[derive(Clone, Copy, Debug, PartialEq, Eq, Structural)]
pub enum MonitorCmd {
    /// Set the brightness of the device at the given index.
    SetBrightness(usize, u32),
}

impl MonitorCmd {
    /// The device the command addresses.
    pub open spec fn target(self) -> int {
        match self {
            MonitorCmd::SetBrightness(index, _) => index as int,
        }
    }

    /// The brightness the command asks for.
    pub open spec fn requested(self) -> u32 {
        match self {
            MonitorCmd::SetBrightness(_, value) => value,
        }
    }
}

/// A fact the worker publishes about a device's brightness.
#[derive(Clone, Copy, Debug, PartialEq, Eq, Structural)]
pub struct MonitorUpdate {
    pub index: usize,
    pub brightness: u32,
}

/// `value` limited to `[min, max]`; a value above `max` gives `max`.
pub open spec fn clamp_spec(value: u32, min: u32, max: u32) -> u32 {
    if value > max {
        max
    } else if value < min {
        min
    } else {
        value
    }
}

/// Limits a requested brightness to the range a device reports.
pub fn clamp_brightness(value: u32, min: u32, max: u32) -> (r: u32)
    ensures
        r == clamp_spec(value, min, max),
        min <= max ==> min <= r <= max,
        min <= value <= max ==> r == value,
{
    if value > max {
        max
    } else if value < min {
        min
    } else {
        value
    }
}

} // verus!
