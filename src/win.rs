//! Windows monitors and window: what is remembered between Win32 calls.

use vstd::prelude::*;
use crate::protocol::{clamp_brightness, clamp_spec};
use crate::device::{FALLBACK_MAX, FALLBACK_MIN};

verus! {

/// Read access to what a monitor last reported.
pub trait MonitorControl: Sized {
    spec fn spec_name(&self) -> Seq<char>;

    spec fn spec_min(&self) -> Option<u32>;

    spec fn spec_current(&self) -> Option<u32>;

    spec fn spec_max(&self) -> Option<u32>;

    /// A monitor for which nothing has been reported yet.
    fn new(name: String, handle: isize) -> (r: Self)
        ensures
            r.spec_name() == name@,
            r.spec_min() is None,
            r.spec_current() is None,
            r.spec_max() is None,
    ;

    /// `(min, current, max)`, once all three are known.
    fn get_brightness_range(&self) -> (r: Option<(u32, u32, u32)>)
        ensures
            r == match (self.spec_min(), self.spec_current(), self.spec_max()) {
                (Some(min), Some(current), Some(max)) => Some((min, current, max)),
                _ => None,
            },
    ;

    fn get_current_brightness(&self) -> (r: Option<u32>)
        ensures
            r == self.spec_current(),
    ;

    fn get_min_brightness(&self) -> (r: Option<u32>)
        ensures
            r == self.spec_min(),
    ;

    fn get_max_brightness(&self) -> (r: Option<u32>)
        ensures
            r == self.spec_max(),
    ;

    fn name(&self) -> (r: &str)
        ensures
            r@ == self.spec_name(),
    ;
}

/// The abstract state of a physical monitor.
pub struct WinMonitorState {
    pub name: Seq<char>,
    pub handle: isize,
    pub min: Option<u32>,
    pub current: Option<u32>,
    pub max: Option<u32>,
}

/// A physical monitor reached through its `PHYSICAL_MONITOR` handle.
pub struct WinMonitor {
    name: String,
    pub handle: isize,
    min_brightness: Option<u32>,
    current_brightness: Option<u32>,
    max_brightness: Option<u32>,
}

impl View for WinMonitor {
    type V = WinMonitorState;

    closed spec fn view(&self) -> WinMonitorState {
        WinMonitorState {
            name: self.name@,
            handle: self.handle,
            min: self.min_brightness,
            current: self.current_brightness,
            max: self.max_brightness,
        }
    }
}

/// The value a write sends when `value` is requested: clamped to the last
/// reported range, or to the fallback range where it is unknown.
pub open spec fn win_write_target(s: WinMonitorState, value: u32) -> u32 {
    clamp_spec(
        value,
        match s.min {
            Some(m) => m,
            None => FALLBACK_MIN,
        },
        match s.max {
            Some(m) => m,
            None => FALLBACK_MAX,
        },
    )
}

/// The range writes are clamped to has its minimum at most its maximum.
pub open spec fn win_range_ordered(s: WinMonitorState) -> bool {
    let min = match s.min {
        Some(m) => m,
        None => FALLBACK_MIN,
    };
    let max = match s.max {
        Some(m) => m,
        None => FALLBACK_MAX,
    };
    min <= max
}

impl WinMonitor {
    pub fn create(name: String, handle: isize) -> (r: WinMonitor)
        ensures
            r@ == (WinMonitorState { name: name@, handle, min: None, current: None, max: None }),
    {
        WinMonitor {
            name,
            handle,
            min_brightness: None,
            current_brightness: None,
            max_brightness: None,
        }
    }

    /// Takes in what `GetMonitorBrightness` reported; returns it as
    /// `(current, min, max)`.
    pub fn record_brightness(&mut self, min: u32, current: u32, max: u32) -> (r: (u32, u32, u32))
        ensures
            final(self)@ == (WinMonitorState {
                min: Some(min),
                current: Some(current),
                max: Some(max),
                ..old(self)@
            }),
            r == (current, min, max),
    {
        self.min_brightness = Some(min);
        self.current_brightness = Some(current);
        self.max_brightness = Some(max);
        (current, min, max)
    }

    /// The value to hand to `SetMonitorBrightness` when `value` is requested.
    /// The range it clamps to must be ordered, as a device reports it.
    pub fn write_target(&self, value: u32) -> (r: u32)
        requires
            win_range_ordered(self@),
        ensures
            r == win_write_target(self@, value),
    {
        let max = match self.max_brightness {
            Some(m) => m,
            None => FALLBACK_MAX,
        };
        let min = match self.min_brightness {
            Some(m) => m,
            None => FALLBACK_MIN,
        };
        clamp_brightness(value, min, max)
    }

    /// Takes in a successful write of `value`.
    pub fn record_written(&mut self, value: u32)
        ensures
            final(self)@ == (WinMonitorState { current: Some(value), ..old(self)@ }),
    {
        self.current_brightness = Some(value);
    }
}

impl MonitorControl for WinMonitor {
    open spec fn spec_name(&self) -> Seq<char> {
        self@.name
    }

    open spec fn spec_min(&self) -> Option<u32> {
        self@.min
    }

    open spec fn spec_current(&self) -> Option<u32> {
        self@.current
    }

    open spec fn spec_max(&self) -> Option<u32> {
        self@.max
    }

    fn new(name: String, handle: isize) -> WinMonitor {
        WinMonitor::create(name, handle)
    }

    fn get_brightness_range(&self) -> Option<(u32, u32, u32)> {
        match (self.min_brightness, self.current_brightness, self.max_brightness) {
            (Some(min), Some(current), Some(max)) => Some((min, current, max)),
            _ => None,
        }
    }

    fn get_current_brightness(&self) -> Option<u32> {
        self.current_brightness
    }

    fn get_min_brightness(&self) -> Option<u32> {
        self.min_brightness
    }

    fn get_max_brightness(&self) -> Option<u32> {
        self.max_brightness
    }

    fn name(&self) -> &str {
        self.name.as_str()
    }
}

/// `current` raised by `percent` of the range, at most `max`.
pub open spec fn raised(min: u32, current: u32, max: u32, percent: u32) -> int {
    let amount = (max - min) * percent / 100;
    if current + amount > max {
        max as int
    } else {
        current + amount
    }
}

/// `current` lowered by `percent` of the range, at least `min` and zero.
pub open spec fn lowered(min: u32, current: u32, max: u32, percent: u32) -> int {
    let amount = (max - min) * percent / 100;
    let dropped = if current >= amount {
        current - amount
    } else {
        0
    };
    if dropped < min {
        min as int
    } else {
        dropped
    }
}

/// The brightness one step of `percent` up from `current`.
pub fn increased_brightness(min: u32, current: u32, max: u32, percent: u32) -> (r: u32)
    requires
        min <= max,
    ensures
        r == raised(min, current, max, percent),
{
    let range = (max - min) as u64;
    assert(range * (percent as u64) <= 0xffff_ffffu64 * 0xffff_ffffu64) by (nonlinear_arith)
        requires
            range <= 0xffff_ffffu64,
            percent <= 0xffff_ffffu32,
    ;
    let amount = range * (percent as u64) / 100;
    assert(amount <= 0xffff_ffffu64 * 0xffff_ffffu64 / 100) by (nonlinear_arith)
        requires
            amount == range * (percent as u64) / 100,
            range * (percent as u64) <= 0xffff_ffffu64 * 0xffff_ffffu64,
    ;
    let target = current as u64 + amount;
    if target > max as u64 {
        max
    } else {
        target as u32
    }
}

/// The brightness one step of `percent` down from `current`.
pub fn decreased_brightness(min: u32, current: u32, max: u32, percent: u32) -> (r: u32)
    requires
        min <= max,
    ensures
        r == lowered(min, current, max, percent),
{
    let range = (max - min) as u64;
    assert(range * (percent as u64) <= 0xffff_ffffu64 * 0xffff_ffffu64) by (nonlinear_arith)
        requires
            range <= 0xffff_ffffu64,
            percent <= 0xffff_ffffu32,
    ;
    let amount = range * (percent as u64) / 100;
    let dropped: u64 = if current as u64 >= amount {
        current as u64 - amount
    } else {
        0
    };
    if dropped < min as u64 {
        min
    } else {
        dropped as u32
    }
}

/// Finds the physical monitors of the system.
pub struct WinMonitorProvider;

impl WinMonitorProvider {
    pub fn new() -> (r: WinMonitorProvider) {
        WinMonitorProvider
    }

    /// Pairs the monitors' friendly names with their physical handles, which
    /// the system enumerates in the opposite order; surplus names or handles
    /// are dropped. Without a name or without a handle no monitor is found,
    /// and enumeration fails.
    pub fn assemble(names: Vec<String>, handles: &Vec<isize>) -> (r: Option<Vec<WinMonitor>>)
        ensures
            r is None <==> (names@.len() == 0 || handles@.len() == 0),
            match r {
                Some(ms) => {
                    &&& ms@.len() == if names@.len() <= handles@.len() {
                        names@.len()
                    } else {
                        handles@.len()
                    }
                    &&& forall|i: int|
                        0 <= i < ms@.len() ==> (#[trigger] ms@[i])@ == (WinMonitorState {
                            name: names@[i]@,
                            handle: handles@[handles@.len() - 1 - i],
                            min: None,
                            current: None,
                            max: None,
                        })
                },
                None => true,
            },
    {
        let count = if names.len() <= handles.len() {
            names.len()
        } else {
            handles.len()
        };
        if count == 0 {
            return None;
        }
        let mut monitors: Vec<WinMonitor> = Vec::new();
        let mut i: usize = 0;
        while i < count
            invariant
                i <= count,
                count <= names@.len(),
                count <= handles@.len(),
                monitors@.len() == i,
                forall|j: int|
                    0 <= j < i ==> (#[trigger] monitors@[j])@ == (WinMonitorState {
                        name: names@[j]@,
                        handle: handles@[handles@.len() - 1 - j],
                        min: None,
                        current: None,
                        max: None,
                    }),
            decreases count - i,
        {
            let name = names[i].clone();
            let handle = handles[handles.len() - 1 - i];
            monitors.push(WinMonitor::create(name, handle));
            i = i + 1;
        }
        Some(monitors)
    }
}

/// The window's visibility as last set, with its `HWND`.
pub struct WinWindowController {
    hwnd: isize,
    visible: bool,
}

impl WinWindowController {
    pub closed spec fn spec_visible(&self) -> bool {
        self.visible
    }

    pub closed spec fn spec_hwnd(&self) -> isize {
        self.hwnd
    }

    /// A controller for a window that is shown.
    pub fn new(hwnd: isize) -> (r: WinWindowController)
        ensures
            r.spec_visible(),
            r.spec_hwnd() == hwnd,
    {
        WinWindowController { hwnd, visible: true }
    }

    pub fn hwnd(&self) -> (r: isize)
        ensures
            r == self.spec_hwnd(),
    {
        self.hwnd
    }

    pub fn is_visible(&self) -> (r: bool)
        ensures
            r == self.spec_visible(),
    {
        self.visible
    }

    /// Marks the window shown; returns whether `ShowWindow` must be called.
    pub fn show_window(&mut self) -> (call: bool)
        ensures
            final(self).spec_visible(),
            final(self).spec_hwnd() == old(self).spec_hwnd(),
            call == !old(self).spec_visible(),
    {
        if !self.visible {
            self.visible = true;
            true
        } else {
            false
        }
    }

    /// Marks the window hidden; returns whether `ShowWindow` must be called.
    pub fn hide_window(&mut self) -> (call: bool)
        ensures
            !final(self).spec_visible(),
            final(self).spec_hwnd() == old(self).spec_hwnd(),
            call == old(self).spec_visible(),
    {
        if self.visible {
            self.visible = false;
            true
        } else {
            false
        }
    }

    /// Flips the visibility; a native call is always due.
    pub fn toggle(&mut self)
        ensures
            final(self).spec_visible() == !old(self).spec_visible(),
            final(self).spec_hwnd() == old(self).spec_hwnd(),
    {
        if self.visible {
            self.hide_window();
        } else {
            self.show_window();
        }
    }

    /// Shows or hides the window; returns whether a native call is due.
    pub fn set_visible(&mut self, visible: bool) -> (call: bool)
        ensures
            final(self).spec_visible() == visible,
            final(self).spec_hwnd() == old(self).spec_hwnd(),
            call == (old(self).spec_visible() != visible),
    {
        if visible {
            self.show_window()
        } else {
            self.hide_window()
        }
    }
}

/// Registers the application under the current user's `Run` key.
pub struct WinAutostartManager;

impl WinAutostartManager {
    pub fn new() -> (r: WinAutostartManager) {
        WinAutostartManager
    }
}

} // verus!
