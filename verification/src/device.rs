//! Emulated input devices, as far as they are known from the EI connection.
//!
//! Protocol objects are named by their object ids.

use vstd::prelude::*;

use crate::keymap::{reverse_map_wf, KeyCombination, KeymapProcessor};
use crate::region::Region;
use crate::text::optional_view;

verus! {

/// The interfaces of a device, each by the id of its protocol object.
#[derive(Debug, Clone, Copy, PartialEq, Eq, Structural)]
pub struct Interfaces {
    pub pointer: Option<u64>,
    pub pointer_absolute: Option<u64>,
    pub keyboard: Option<u64>,
    pub button: Option<u64>,
    pub scroll: Option<u64>,
}

/// Information about a device being configured.
#[derive(Debug)]
pub struct PendingDeviceInfo {
    pub device: u64,
    pub name: Option<String>,
    pub interfaces: Interfaces,
    pub regions: Vec<Region>,
    pub keymap: Option<KeymapProcessor>,
}

/// What a device being configured amounts to.
#[verifier::ext_equal]
pub struct PendingView {
    pub device: u64,
    pub name: Option<Seq<char>>,
    pub interfaces: Interfaces,
    pub regions: Seq<Region>,
    pub keymap: Option<Map<u32, Seq<KeyCombination>>>,
}

/// What an optional keymap maps.
pub open spec fn keymap_view(keymap: Option<KeymapProcessor>) -> Option<
    Map<u32, Seq<KeyCombination>>,
> {
    match keymap {
        Some(keymap) => Some(keymap@),
        None => None,
    }
}

/// Whether a keymap, where there is one, is well-formed.
pub open spec fn keymap_wf(keymap: Option<Map<u32, Seq<KeyCombination>>>) -> bool {
    match keymap {
        Some(map) => reverse_map_wf(map),
        None => true,
    }
}

impl View for PendingDeviceInfo {
    type V = PendingView;

    open spec fn view(&self) -> PendingView {
        PendingView {
            device: self.device,
            name: optional_view(self.name),
            interfaces: self.interfaces,
            regions: self.regions@,
            keymap: keymap_view(self.keymap),
        }
    }
}

/// A device without any interface.
pub open spec fn no_interfaces() -> Interfaces {
    Interfaces {
        pointer: None,
        pointer_absolute: None,
        keyboard: None,
        button: None,
        scroll: None,
    }
}

/// A device of which nothing is known but its object.
pub open spec fn unconfigured(device: u64) -> PendingView {
    PendingView {
        device,
        name: None,
        interfaces: no_interfaces(),
        regions: Seq::empty(),
        keymap: None,
    }
}

impl PendingDeviceInfo {
    /// A device that has just been announced.
    pub fn new(device: u64) -> (pending: PendingDeviceInfo)
        ensures
            pending@ == unconfigured(device),
    {
        PendingDeviceInfo {
            device,
            name: None,
            interfaces: Interfaces {
                pointer: None,
                pointer_absolute: None,
                keyboard: None,
                button: None,
                scroll: None,
            },
            regions: Vec::new(),
            keymap: None,
        }
    }
}

/// Information about a configured device ready to send events.
#[derive(Debug)]
pub struct DeviceInfo {
    pub device: u64,
    pub name: String,
    pub interfaces: Interfaces,
    pub regions: Vec<Region>,
    pub paused: bool,
    pub keymap: Option<KeymapProcessor>,
}

/// What a configured device amounts to.
#[verifier::ext_equal]
pub struct DeviceView {
    pub device: u64,
    pub name: Seq<char>,
    pub interfaces: Interfaces,
    pub regions: Seq<Region>,
    pub paused: bool,
    pub keymap: Option<Map<u32, Seq<KeyCombination>>>,
}

impl View for DeviceInfo {
    type V = DeviceView;

    open spec fn view(&self) -> DeviceView {
        DeviceView {
            device: self.device,
            name: self.name@,
            interfaces: self.interfaces,
            regions: self.regions@,
            paused: self.paused,
            keymap: keymap_view(self.keymap),
        }
    }
}

/// The configured device that a device with a name becomes: it starts paused.
pub open spec fn configured(pending: PendingView, name: Seq<char>) -> DeviceView {
    DeviceView {
        device: pending.device,
        name,
        interfaces: pending.interfaces,
        regions: pending.regions,
        paused: true,
        keymap: pending.keymap,
    }
}

} // verus!
