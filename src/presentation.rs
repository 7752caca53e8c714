//! The UI's side: last known brightness per device and the interaction
//! cooldown that keeps worker updates from yanking a slider the user holds.

use std::sync::atomic::AtomicBool;
use std::sync::Arc;
use vstd::prelude::*;
use crate::device::DeviceSnapshot;
use crate::protocol::{MonitorCmd, MonitorUpdate};

verus! {

/// How long updates for a device are ignored after the user touched it.
pub const USER_COOLDOWN_MS: u64 = 4000;

/// The abstract state of the presentation side.
pub struct UiState {
    pub names: Seq<Seq<char>>,
    pub values: Seq<u32>,
    pub ranges: Seq<(u32, u32)>,
    pub cooldowns: Seq<Option<u64>>,
    pub cooldown_ms: u64,
}

impl UiState {
    pub open spec fn wf(self) -> bool {
        &&& self.values.len() == self.names.len()
        &&& self.ranges.len() == self.names.len()
        &&& self.cooldowns.len() == self.names.len()
    }

    pub open spec fn device_count(self) -> int {
        self.names.len() as int
    }

    /// Whether updates for device `index` are being ignored at `now`.
    pub open spec fn interacting(self, index: int, now: u64) -> bool {
        match self.cooldowns[index] {
            Some(t) => now < t + self.cooldown_ms,
            None => false,
        }
    }

    pub open spec fn with_entry(self, index: int, value: u32, entry: Option<u64>) -> UiState {
        UiState {
            names: self.names,
            values: self.values.update(index, value),
            ranges: self.ranges,
            cooldowns: self.cooldowns.update(index, entry),
            cooldown_ms: self.cooldown_ms,
        }
    }

    /// The state after the user moved the slider of `index` to `value`.
    pub open spec fn moved(self, index: int, value: u32, now: u64) -> UiState {
        self.with_entry(index, value, Some(now))
    }

    /// The state after the user let go of the slider of `index`.
    pub open spec fn released(self, index: int, now: u64) -> UiState {
        self.with_entry(index, self.values[index], Some(now))
    }

    /// The state after an update from the worker arrived at `now`.
    pub open spec fn received(self, update: MonitorUpdate, now: u64) -> UiState {
        if self.interacting(update.index as int, now) {
            self
        } else {
            UiState {
                names: self.names,
                values: self.values.update(update.index as int, update.brightness),
                ranges: self.ranges,
                cooldowns: self.cooldowns,
                cooldown_ms: self.cooldown_ms,
            }
        }
    }
}

/// Relies on `Arc::clone`: the new handle points to the same flag.
#[verifier::external_body]
fn share_flag(flag: &Arc<AtomicBool>) -> (r: Arc<AtomicBool>)
    ensures
        r == *flag,
{
    Arc::clone(flag)
}

/// The presentation state of the tray window.
pub struct TrayBrightUI {
    monitor_names: Vec<String>,
    brightness_values: Vec<u32>,
    min_max: Vec<(u32, u32)>,
    user_cooldowns: Vec<Option<u64>>,
    cooldown_ms: u64,
    visible: Arc<AtomicBool>,
}

impl View for TrayBrightUI {
    type V = UiState;

    closed spec fn view(&self) -> UiState {
        UiState {
            names: self.monitor_names@.map_values(|s: String| s@),
            values: self.brightness_values@,
            ranges: self.min_max@,
            cooldowns: self.user_cooldowns@,
            cooldown_ms: self.cooldown_ms,
        }
    }
}

impl TrayBrightUI {
    /// The shared visibility flag the window's handlers set.
    pub closed spec fn flag(&self) -> Arc<AtomicBool> {
        self.visible
    }

    /// The presentation state for the devices' startup snapshots, showing
    /// each device's current value, with no interaction in progress. With no
    /// devices there is nothing to present, and construction fails.
    pub fn new(devices: &Vec<DeviceSnapshot>, visible: Arc<AtomicBool>, cooldown_ms: u64) -> (r:
        Option<TrayBrightUI>)
        ensures
            r is None <==> devices@.len() == 0,
            match r {
                Some(u) => {
                    &&& u@.wf()
                    &&& u@.device_count() == devices@.len()
                    &&& u@.cooldown_ms == cooldown_ms
                    &&& u.flag() == visible
                    &&& u@.names == devices@.map_values(|d: DeviceSnapshot| d.name@)
                    &&& u@.values == devices@.map_values(|d: DeviceSnapshot| d.current)
                    &&& u@.ranges == devices@.map_values(|d: DeviceSnapshot| (d.min, d.max))
                    &&& u@.cooldowns == Seq::new(devices@.len(), |i: int| None::<u64>)
                },
                None => true,
            },
    {
        if devices.len() == 0 {
            return None;
        }
        let mut monitor_names: Vec<String> = Vec::new();
        let mut brightness_values: Vec<u32> = Vec::new();
        let mut min_max: Vec<(u32, u32)> = Vec::new();
        let mut user_cooldowns: Vec<Option<u64>> = Vec::new();
        let mut i: usize = 0;
        while i < devices.len()
            invariant
                i <= devices@.len(),
                monitor_names@.len() == i,
                brightness_values@.len() == i,
                min_max@.len() == i,
                user_cooldowns@.len() == i,
                forall|j: int| 0 <= j < i ==> (#[trigger] monitor_names@[j])@ == devices@[j].name@,
                forall|j: int| 0 <= j < i ==> #[trigger] brightness_values@[j] == devices@[j].current,
                forall|j: int|
                    0 <= j < i ==> #[trigger] min_max@[j] == (devices@[j].min, devices@[j].max),
                forall|j: int| 0 <= j < i ==> #[trigger] user_cooldowns@[j] == None::<u64>,
            decreases devices@.len() - i,
        {
            let device = &devices[i];
            monitor_names.push(device.name.clone());
            brightness_values.push(device.current);
            min_max.push((device.min, device.max));
            user_cooldowns.push(None);
            i = i + 1;
        }
        let r = TrayBrightUI {
            monitor_names,
            brightness_values,
            min_max,
            user_cooldowns,
            cooldown_ms,
            visible,
        };
        proof {
            assert(r@.names =~= devices@.map_values(|d: DeviceSnapshot| d.name@));
            assert(r@.values =~= devices@.map_values(|d: DeviceSnapshot| d.current));
            assert(r@.ranges =~= devices@.map_values(|d: DeviceSnapshot| (d.min, d.max)));
            assert(r@.cooldowns =~= Seq::new(devices@.len(), |i: int| None::<u64>));
        }
        Some(r)
    }

    /// A handle to the shared visibility flag, for the window's handlers.
    pub fn visible_flag(&self) -> (r: Arc<AtomicBool>)
        ensures
            r == self.flag(),
    {
        share_flag(&self.visible)
    }

    pub fn monitor_count(&self) -> (n: usize)
        ensures
            n == self@.device_count(),
    {
        self.monitor_names.len()
    }

    pub fn monitor_name(&self, index: usize) -> (r: &String)
        requires
            self@.wf(),
            index < self@.device_count(),
        ensures
            r@ == self@.names[index as int],
    {
        &self.monitor_names[index]
    }

    pub fn brightness(&self, index: usize) -> (r: u32)
        requires
            self@.wf(),
            index < self@.device_count(),
        ensures
            r == self@.values[index as int],
    {
        self.brightness_values[index]
    }

    /// The `(min, max)` range the slider of device `index` offers.
    pub fn range(&self, index: usize) -> (r: (u32, u32))
        requires
            self@.wf(),
            index < self@.device_count(),
        ensures
            r == self@.ranges[index as int],
    {
        self.min_max[index]
    }

    /// Whether updates for device `index` are ignored at `now`.
    pub fn is_interacting(&self, index: usize, now: u64) -> (r: bool)
        requires
            self@.wf(),
            index < self@.device_count(),
        ensures
            r == self@.interacting(index as int, now),
    {
        match self.user_cooldowns[index] {
            Some(t) => now < t || now - t < self.cooldown_ms,
            None => false,
        }
    }

    /// Applies an update from the worker, unless the user is interacting with
    /// that device; returns whether the displayed value was replaced.
    pub fn apply_update(&mut self, update: MonitorUpdate, now: u64) -> (applied: bool)
        requires
            old(self)@.wf(),
            update.index < old(self)@.device_count(),
        ensures
            final(self)@.wf(),
            final(self)@ == old(self)@.received(update, now),
            applied == !old(self)@.interacting(update.index as int, now),
    {
        if self.is_interacting(update.index, now) {
            false
        } else {
            self.brightness_values.set(update.index, update.brightness);
            true
        }
    }

    /// The user moved the slider of device `index` to `value` at `now`: the
    /// value is shown at once and updates for the device are held off.
    pub fn slider_moved(&mut self, index: usize, value: u32, now: u64)
        requires
            old(self)@.wf(),
            index < old(self)@.device_count(),
        ensures
            final(self)@.wf(),
            final(self)@ == old(self)@.moved(index as int, value, now),
    {
        self.brightness_values.set(index, value);
        self.user_cooldowns.set(index, Some(now));
    }

    /// The user let go of the slider of device `index`: the hold-off restarts
    /// from `now`, and the command to send to the worker is returned.
    pub fn slider_released(&mut self, index: usize, now: u64) -> (cmd: MonitorCmd)
        requires
            old(self)@.wf(),
            index < old(self)@.device_count(),
        ensures
            final(self)@.wf(),
            final(self)@ == old(self)@.released(index as int, now),
            cmd == MonitorCmd::SetBrightness(index, old(self)@.values[index as int]),
    {
        self.user_cooldowns.set(index, Some(now));
        proof {
            assert(self.brightness_values@ =~= old(self).brightness_values@.update(
                index as int,
                old(self).brightness_values@[index as int],
            ));
        }
        MonitorCmd::SetBrightness(index, self.brightness_values[index])
    }
}

/// Presentation suppression: once the user has touched the slider of device
/// `index` at time `from` (moving it or letting go of it), any update for
/// that device received before `from + cooldown` leaves the displayed value
/// unchanged.
pub proof fn presentation_suppression_law(
    s: UiState,
    index: int,
    value: u32,
    from: u64,
    update: MonitorUpdate,
    now: u64,
)
    requires
        s.wf(),
        0 <= index < s.device_count(),
        update.index == index,
        now < from + s.cooldown_ms,
    ensures
        s.moved(index, value, from).received(update, now).values == s.moved(index, value, from).values,
        s.released(index, from).received(update, now).values == s.released(index, from).values,
{
}

} // verus!
