//! macOS monitors reached over DDC/CI: what the enumeration of displays
//! makes of each display's identity and VCP brightness reading.

use vstd::prelude::*;
use vstd::string::*;
use crate::device::{DeviceSnapshot, FALLBACK_MAX};

verus! {

/// The maximum a display reports, or the fallback where it reports zero.
pub open spec fn vcp_maximum(maximum: u16) -> u32 {
    if maximum > 0 {
        maximum as u32
    } else {
        FALLBACK_MAX
    }
}

/// `(current, min, max)` from a VCP brightness read giving `(value, maximum)`.
pub open spec fn vcp_reading(vcp: Option<(u16, u16)>) -> (u32, u32, u32) {
    match vcp {
        Some((value, maximum)) => (value as u32, 0u32, vcp_maximum(maximum)),
        None => (0u32, 0u32, FALLBACK_MAX),
    }
}

/// What enumeration learns of one display.
pub struct MacDisplay {
    pub id: String,
    pub model_name: Option<String>,
    /// The `(value, maximum)` of the brightness feature, if it could be read.
    pub vcp: Option<(u16, u16)>,
}

/// A display's model name, or `Display <id>` where it has none.
pub open spec fn mac_display_name(d: MacDisplay) -> Seq<char> {
    match d.model_name {
        Some(m) => m@,
        None => seq!['D', 'i', 's', 'p', 'l', 'a', 'y', ' '] + d.id@,
    }
}

/// Finds the DDC-capable displays.
pub struct MacMonitorProvider;

impl MacMonitorProvider {
    pub fn new() -> (r: MacMonitorProvider) {
        MacMonitorProvider
    }

    /// `(current, min, max)` from a VCP brightness read giving
    /// `(value, maximum)`; a failed read gives `(0, 0, 100)`.
    pub fn reading_from_vcp(vcp: Option<(u16, u16)>) -> (r: (u32, u32, u32))
        ensures
            r == vcp_reading(vcp),
    {
        match vcp {
            Some((value, maximum)) => {
                let max: u32 = if maximum > 0 {
                    maximum as u32
                } else {
                    FALLBACK_MAX
                };
                (value as u32, 0, max)
            },
            None => (0, 0, FALLBACK_MAX),
        }
    }

    /// The name a display is shown under.
    pub fn display_name(display: &MacDisplay) -> (r: String)
        ensures
            r@ == mac_display_name(*display),
    {
        proof {
            reveal_strlit("Display ");
        }
        match &display.model_name {
            Some(m) => m.clone(),
            None => "Display ".to_owned().concat(display.id.as_str()),
        }
    }

    /// The startup snapshot of each enumerated display, in order. With no
    /// display there is nothing to control, and enumeration fails.
    pub fn snapshots(displays: &Vec<MacDisplay>) -> (r: Option<Vec<DeviceSnapshot>>)
        ensures
            r is None <==> displays@.len() == 0,
            match r {
                Some(v) => {
                    &&& v@.len() == displays@.len()
                    &&& forall|i: int|
                        0 <= i < v@.len() ==> {
                            &&& (#[trigger] v@[i]).name@ == mac_display_name(displays@[i])
                            &&& (v@[i].current, v@[i].min, v@[i].max) == vcp_reading(
                                displays@[i].vcp,
                            )
                        }
                },
                None => true,
            },
    {
        if displays.len() == 0 {
            return None;
        }
        let mut v: Vec<DeviceSnapshot> = Vec::new();
        let mut i: usize = 0;
        while i < displays.len()
            invariant
                i <= displays@.len(),
                v@.len() == i,
                forall|j: int|
                    0 <= j < i ==> {
                        &&& (#[trigger] v@[j]).name@ == mac_display_name(displays@[j])
                        &&& (v@[j].current, v@[j].min, v@[j].max) == vcp_reading(
                            displays@[j].vcp,
                        )
                    },
            decreases displays@.len() - i,
        {
            let display = &displays[i];
            let name = Self::display_name(display);
            let (current, min, max) = Self::reading_from_vcp(display.vcp);
            v.push(DeviceSnapshot { name, min, current, max });
            i = i + 1;
        }
        Some(v)
    }
}

} // verus!
