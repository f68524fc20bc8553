//! The state of an EI connection.
//!
//! Follows the events of the connection to learn which devices there are and what they
//! can do, and says which requests to answer each event with.

use vstd::hash_map::StringHashMap;
use vstd::prelude::*;

use crate::compiler;
use crate::device::{
    configured, keymap_wf, unconfigured, DeviceInfo, DeviceView, Interfaces, PendingDeviceInfo,
    PendingView,
};
use crate::event::{
    ConnectionEvent, DeviceEvent, Event, EventError, KeyboardEvent, PendingEvent, Request,
    SeatEvent,
};
use crate::keymap::{reverse, searched, KeyCombination, KeymapError, KeymapProcessor};
use crate::region::{region_fits, regions_fit, screen, BoundingBox, Region, SCALE_ONE};
use crate::text::same_text;

verus! {

/// The state of an EI connection.
pub struct Context {
    seats: StringHashMap<u64>,
    capabilities: StringHashMap<u64>,
    pending_devices: Vec<PendingDeviceInfo>,
    devices: Vec<DeviceInfo>,
}

/// What is known of an EI connection.
#[verifier::ext_equal]
pub struct ContextView {
    /// The bound seats, by name.
    pub seats: Map<Seq<char>, u64>,
    /// The masks of the interfaces that the seats offer, by interface name.
    pub capabilities: Map<Seq<char>, u64>,
    /// The devices being configured, the one that came first in front.
    pub pending: Seq<PendingView>,
    /// The configured devices, in the order in which they were completed.
    pub devices: Seq<DeviceView>,
}

impl View for Context {
    type V = ContextView;

    closed spec fn view(&self) -> ContextView {
        ContextView {
            seats: self.seats@,
            capabilities: self.capabilities@,
            pending: self.pending_devices@.map_values(|p: PendingDeviceInfo| p@),
            devices: self.devices@.map_values(|d: DeviceInfo| d@),
        }
    }
}

impl ContextView {
    /// No two pending devices have the same object, and all keymaps are well-formed.
    pub open spec fn wf(self) -> bool {
        &&& forall|i: int, j: int|
            0 <= i < j < self.pending.len() ==> (#[trigger] self.pending[i]).device != (
            #[trigger] self.pending[j]).device
        &&& forall|i: int|
            0 <= i < self.pending.len() ==> keymap_wf((#[trigger] self.pending[i]).keymap)
        &&& forall|i: int|
            0 <= i < self.devices.len() ==> keymap_wf((#[trigger] self.devices[i]).keymap)
    }

    /// The state with another first pending device, if there is any.
    pub open spec fn with_current(self, f: spec_fn(PendingView) -> PendingView) -> ContextView {
        if self.pending.len() > 0 {
            ContextView { pending: self.pending.update(0, f(self.pending[0])), ..self }
        } else {
            self
        }
    }

    /// The state with the most recent device paused or resumed, if there is any.
    pub open spec fn with_last_paused(self, paused: bool) -> ContextView {
        if self.devices.len() > 0 {
            let last = self.devices.len() - 1;
            ContextView {
                devices: self.devices.update(last, DeviceView { paused, ..self.devices[last] }),
                ..self
            }
        } else {
            self
        }
    }
}

/// The interfaces with one more of them known; only those that input is sent through
/// are kept.
pub open spec fn with_interface(
    interfaces: Interfaces,
    interface: Seq<char>,
    object: u64,
) -> Interfaces {
    if interface == "ei_pointer"@ {
        Interfaces { pointer: Some(object), ..interfaces }
    } else if interface == "ei_pointer_absolute"@ {
        Interfaces { pointer_absolute: Some(object), ..interfaces }
    } else if interface == "ei_keyboard"@ {
        Interfaces { keyboard: Some(object), ..interfaces }
    } else if interface == "ei_button"@ {
        Interfaces { button: Some(object), ..interfaces }
    } else if interface == "ei_scroll"@ {
        Interfaces { scroll: Some(object), ..interfaces }
    } else {
        interfaces
    }
}

/// The state after an event of a device.
pub open spec fn after_device_event(s: ContextView, event: DeviceEvent) -> ContextView {
    match event {
        DeviceEvent::Name { name } => s.with_current(
            |p: PendingView| PendingView { name: Some(name@), ..p },
        ),
        DeviceEvent::Dimensions { width, height } => s.with_current(
            |p: PendingView|
                if p.regions.len() == 0 {
                    let whole = Region { x: 0, y: 0, width, height, scale_bits: SCALE_ONE };
                    PendingView { regions: p.regions.push(whole), ..p }
                } else {
                    p
                },
        ),
        DeviceEvent::Region { offset_x, offset_y, width, height, scale_bits } => s.with_current(
            |p: PendingView|
                {
                    let region = Region { x: offset_x, y: offset_y, width, height, scale_bits };
                    PendingView { regions: p.regions.push(region), ..p }
                },
        ),
        DeviceEvent::Interface { interface, object } => s.with_current(
            |p: PendingView|
                PendingView {
                    interfaces: with_interface(p.interfaces, interface@, object),
                    ..p
                },
        ),
        DeviceEvent::Done => if s.pending.len() == 0 {
            s
        } else {
            ContextView {
                pending: s.pending.drop_first(),
                devices: match s.pending[0].name {
                    Some(name) => s.devices.push(configured(s.pending[0], name)),
                    None => s.devices,
                },
                ..s
            }
        },
        DeviceEvent::Resumed => s.with_last_paused(false),
        DeviceEvent::Paused => s.with_last_paused(true),
        DeviceEvent::Destroyed => ContextView {
            pending: Seq::empty(),
            devices: if s.devices.len() > 0 {
                s.devices.drop_last()
            } else {
                s.devices
            },
            ..s
        },
        DeviceEvent::DeviceType | DeviceEvent::Other => s,
    }
}

/// The mask of an interface, or no bit at all where no seat offers the interface.
pub open spec fn capability(capabilities: Map<Seq<char>, u64>, interface: Seq<char>) -> u64 {
    if capabilities.contains_key(interface) {
        capabilities[interface]
    } else {
        0
    }
}

/// The capabilities to bind to: those of the keyboard and pointer interfaces.
pub open spec fn bind_mask(capabilities: Map<Seq<char>, u64>) -> u64 {
    capability(capabilities, "ei_keyboard"@) | capability(capabilities, "ei_pointer"@) | capability(
        capabilities,
        "ei_pointer_absolute"@,
    ) | capability(capabilities, "ei_button"@) | capability(capabilities, "ei_scroll"@)
}

/// The requests that bind to a seat: none where it offers nothing of use.
pub open spec fn bind_requests(capabilities: Map<Seq<char>, u64>, seat: u64) -> Seq<Request> {
    if bind_mask(capabilities) == 0 {
        Seq::empty()
    } else {
        seq![Request::Bind { seat, capabilities: bind_mask(capabilities) }, Request::Flush]
    }
}

/// The pending devices with another one; it takes the place of one with the same object.
pub open spec fn with_pending(pending: Seq<PendingView>, device: PendingView) -> Seq<PendingView> {
    if exists|i: int| 0 <= i < pending.len() && #[trigger] pending[i].device == device.device {
        let i = choose|i: int|
            0 <= i < pending.len() && #[trigger] pending[i].device == device.device;
        pending.update(i, device)
    } else {
        pending.push(device)
    }
}

/// The state after an event of a seat.
pub open spec fn after_seat_event(s: ContextView, event: SeatEvent) -> ContextView {
    match event {
        SeatEvent::Capability { mask, interface } => ContextView {
            capabilities: s.capabilities.insert(interface@, mask),
            ..s
        },
        SeatEvent::Device { device } => ContextView {
            pending: with_pending(s.pending, unconfigured(device)),
            ..s
        },
        SeatEvent::Name | SeatEvent::Done | SeatEvent::Destroyed | SeatEvent::Other => s,
    }
}

/// The requests that answer an event of a seat.
pub open spec fn seat_event_requests(s: ContextView, seat: u64, event: SeatEvent) -> Seq<Request> {
    match event {
        SeatEvent::Done => bind_requests(s.capabilities, seat),
        _ => Seq::empty(),
    }
}

/// The requests that answer a ping.
pub open spec fn pong(ping: u64) -> Seq<Request> {
    seq![Request::PingDone { ping, callback_data: 0 }, Request::Flush]
}

/// The requests that answer an event of the connection.
pub open spec fn connection_event_requests(event: ConnectionEvent) -> Seq<Request> {
    match event {
        ConnectionEvent::Ping { ping } => pong(ping),
        _ => Seq::empty(),
    }
}

/// The state with the given keymap on the device that is being configured.
pub open spec fn with_keymap(
    s: ContextView,
    keymap: Map<u32, Seq<KeyCombination>>,
) -> ContextView {
    s.with_current(|p: PendingView| PendingView { keymap: Some(keymap), ..p })
}

/// Whether one state comes after another by an event of a keyboard: a keymap that
/// can be read and that compiles goes to the device that is being configured, and
/// nothing else changes.
pub open spec fn follows_keyboard_event(
    before: ContextView,
    event: KeyboardEvent,
    after: ContextView,
) -> bool {
    match event {
        KeyboardEvent::Keymap { text: Some(text) } => if compiler::keymap_text_accepted(text@) {
            exists|keysyms: Map<(u32, u32, u32), u32>| #[trigger]
                compiler::compilations(text@).contains(keysyms) && after == with_keymap(
                    before,
                    reverse(keysyms, searched()),
                )
        } else {
            after == before
        },
        _ => after == before,
    }
}

/// Whether one state comes after another by an event.
pub open spec fn follows_event(before: ContextView, event: Event, after: ContextView) -> bool {
    match event {
        Event::Seat { seat, event } => after == after_seat_event(before, event),
        Event::Device { device, event } => after == after_device_event(before, event),
        Event::Keyboard { event } => follows_keyboard_event(before, event, after),
        _ => after == before,
    }
}

/// The requests that answer an event.
pub open spec fn event_requests(s: ContextView, event: Event) -> Seq<Request> {
    match event {
        Event::Connection { event } => connection_event_requests(event),
        Event::Seat { seat, event } => seat_event_requests(s, seat, event),
        Event::Pingpong { pingpong } => pong(pingpong),
        _ => Seq::empty(),
    }
}

/// The first device that is wanted.
pub open spec fn first_device(
    devices: Seq<DeviceView>,
    wanted: spec_fn(DeviceView) -> bool,
) -> Option<DeviceView>
    decreases devices.len(),
{
    if devices.len() == 0 {
        None
    } else if wanted(devices[0]) {
        Some(devices[0])
    } else {
        first_device(devices.drop_first(), wanted)
    }
}

/// A device with a keyboard.
pub open spec fn a_keyboard() -> spec_fn(DeviceView) -> bool {
    |d: DeviceView| d.interfaces.keyboard is Some
}

/// A device with an absolute pointer.
pub open spec fn an_absolute_pointer() -> spec_fn(DeviceView) -> bool {
    |d: DeviceView| d.interfaces.pointer_absolute is Some
}

/// A device with a relative pointer.
pub open spec fn a_relative_pointer() -> spec_fn(DeviceView) -> bool {
    |d: DeviceView| d.interfaces.pointer is Some
}

/// A device with a pointer, relative or absolute.
pub open spec fn a_pointer() -> spec_fn(DeviceView) -> bool {
    |d: DeviceView| d.interfaces.pointer is Some || d.interfaces.pointer_absolute is Some
}

/// What a device is looked for that it can do.
#[derive(Clone, Copy)]
enum Ability {
    Keyboard,
    AbsolutePointer,
    RelativePointer,
    Pointer,
}

impl Ability {
    /// The devices with this ability.
    spec fn wanted(self) -> spec_fn(DeviceView) -> bool {
        match self {
            Ability::Keyboard => a_keyboard(),
            Ability::AbsolutePointer => an_absolute_pointer(),
            Ability::RelativePointer => a_relative_pointer(),
            Ability::Pointer => a_pointer(),
        }
    }

    /// Whether a device has this ability.
    fn is_of(self, device: &DeviceInfo) -> (able: bool)
        ensures
            able == self.wanted()(device@),
    {
        let interfaces = &device.interfaces;
        match self {
            Ability::Keyboard => interfaces.keyboard.is_some(),
            Ability::AbsolutePointer => interfaces.pointer_absolute.is_some(),
            Ability::RelativePointer => interfaces.pointer.is_some(),
            Ability::Pointer => interfaces.pointer.is_some()
                || interfaces.pointer_absolute.is_some(),
        }
    }
}

/// Whether one of the devices is wanted and may send events.
pub open spec fn has_resumed(
    devices: Seq<DeviceView>,
    wanted: spec_fn(DeviceView) -> bool,
) -> bool {
    exists|i: int| 0 <= i < devices.len() && !(#[trigger] devices[i]).paused && wanted(devices[i])
}

/// The regions of all devices, one device after the other.
pub open spec fn all_regions(devices: Seq<DeviceView>) -> Seq<Region>
    decreases devices.len(),
{
    if devices.len() == 0 {
        Seq::empty()
    } else {
        all_regions(devices.drop_last()) + devices.last().regions
    }
}

/// Each region of each device is one of all regions.
pub(crate) proof fn lemma_regions_of_device(devices: Seq<DeviceView>, i: int, j: int)
    requires
        0 <= i < devices.len(),
        0 <= j < devices[i].regions.len(),
    ensures
        all_regions(devices).contains(devices[i].regions[j]),
    decreases devices.len(),
{
    let before = all_regions(devices.drop_last());
    let all = all_regions(devices);
    if i == devices.len() - 1 {
        assert(all[before.len() + j] == devices[i].regions[j]);
    } else {
        lemma_regions_of_device(devices.drop_last(), i, j);
        let k = choose|k: int| 0 <= k < before.len() && before[k] == devices[i].regions[j];
        assert(all[k] == devices[i].regions[j]);
    }
}

impl Context {
    /// The state is well-formed.
    pub open spec fn wf(&self) -> bool {
        self@.wf()
    }

    /// The state of a connection on which no event has arrived yet.
    pub fn new() -> (context: Context)
        ensures
            context.wf(),
            context@ == (ContextView {
                seats: Map::empty(),
                capabilities: Map::empty(),
                pending: Seq::empty(),
                devices: Seq::empty(),
            }),
    {
        let context = Context {
            seats: StringHashMap::new(),
            capabilities: StringHashMap::new(),
            pending_devices: Vec::new(),
            devices: Vec::new(),
        };
        assert(context@.pending =~= Seq::empty());
        assert(context@.devices =~= Seq::empty());
        context
    }

    /// The device that is being configured.
    ///
    /// Devices are configured one at a time, so this is the first, and typically the
    /// only, pending device.
    fn get_current_pending_device_mut(&mut self) -> (current: Option<&mut PendingDeviceInfo>)
        ensures
            match current {
                Some(pending) => {
                    &&& old(self)@.pending.len() > 0
                    &&& pending@ == old(self)@.pending[0]
                    &&& final(self)@ == old(self)@.with_current(|p: PendingView| final(pending)@)
                },
                None => old(self)@.pending.len() == 0 && final(self)@ == old(self)@,
            },
    {
        if self.pending_devices.len() == 0 {
            None
        } else {
            Some(&mut self.pending_devices[0])
        }
    }

    /// Takes note of an interface of the device that is being configured.
    fn set_interface(&mut self, interface: &str, object: u64)
        ensures
            final(self)@ == old(self)@.with_current(
                |p: PendingView|
                    PendingView {
                        interfaces: with_interface(p.interfaces, interface@, object),
                        ..p
                    },
            ),
    {
        if let Some(pending) = self.get_current_pending_device_mut() {
            if same_text(interface, "ei_pointer") {
                pending.interfaces.pointer = Some(object);
            } else if same_text(interface, "ei_pointer_absolute") {
                pending.interfaces.pointer_absolute = Some(object);
            } else if same_text(interface, "ei_keyboard") {
                pending.interfaces.keyboard = Some(object);
            } else if same_text(interface, "ei_button") {
                pending.interfaces.button = Some(object);
            } else if same_text(interface, "ei_scroll") {
                pending.interfaces.scroll = Some(object);
            }
        }
    }

    /// Moves the device that is being configured to the configured ones, or drops it
    /// where it has no name.
    fn complete_device(&mut self)
        ensures
            final(self)@ == after_device_event(old(self)@, DeviceEvent::Done),
    {
        if self.pending_devices.len() > 0 {
            let pending = self.pending_devices.remove(0);
            if let Some(name) = pending.name {
                let device_info = DeviceInfo {
                    device: pending.device,
                    name,
                    interfaces: pending.interfaces,
                    regions: pending.regions,
                    paused: true,
                    keymap: pending.keymap,
                };
                self.devices.push(device_info);
            }
            assert(self@.pending =~= old(self)@.pending.drop_first());
            assert(self@ =~= after_device_event(old(self)@, DeviceEvent::Done));
        }
    }

    /// Pauses or resumes the device that was completed last.
    fn set_last_paused(&mut self, paused: bool)
        ensures
            final(self)@ == old(self)@.with_last_paused(paused),
    {
        let count = self.devices.len();
        if count > 0 {
            let device_info = &mut self.devices[count - 1];
            device_info.paused = paused;
        }
        assert(self@.devices =~= old(self)@.with_last_paused(paused).devices);
    }

    /// Handles an event of a device.
    pub fn handle_device_event(&mut self, event: DeviceEvent)
        requires
            old(self).wf(),
        ensures
            final(self).wf(),
            final(self)@ == after_device_event(old(self)@, event),
    {
        match event {
            DeviceEvent::Name { name } => {
                if let Some(pending) = self.get_current_pending_device_mut() {
                    pending.name = Some(name);
                }
            },
            DeviceEvent::Dimensions { width, height } => {
                if let Some(pending) = self.get_current_pending_device_mut() {
                    if pending.regions.len() == 0 {
                        pending.regions.push(
                            Region { x: 0, y: 0, width, height, scale_bits: SCALE_ONE },
                        );
                    }
                }
            },
            DeviceEvent::Region { offset_x, offset_y, width, height, scale_bits } => {
                if let Some(pending) = self.get_current_pending_device_mut() {
                    pending.regions.push(
                        Region { x: offset_x, y: offset_y, width, height, scale_bits },
                    );
                }
            },
            DeviceEvent::Interface { interface, object } => {
                self.set_interface(interface.as_str(), object);
            },
            DeviceEvent::Done => {
                self.complete_device();
            },
            DeviceEvent::Resumed => {
                self.set_last_paused(false);
            },
            DeviceEvent::Paused => {
                self.set_last_paused(true);
            },
            DeviceEvent::Destroyed => {
                self.pending_devices.clear();
                if self.devices.len() > 0 {
                    self.devices.pop();
                }
            },
            DeviceEvent::DeviceType | DeviceEvent::Other => {},
        }
        assert(self@ =~= after_device_event(old(self)@, event));
    }

    /// The mask of an interface, or no bit at all where no seat offers the interface.
    fn capability_mask(&self, interface: &str) -> (mask: u64)
        ensures
            mask == capability(self@.capabilities, interface@),
    {
        match self.capabilities.get(interface) {
            Some(mask) => *mask,
            None => 0,
        }
    }

    /// Binds to a seat with its keyboard and pointer capabilities.
    ///
    /// Once the requests have been carried out, `seat_bound` is to be called.
    pub fn bind_to_seat(&self, seat: u64) -> (requests: Vec<Request>)
        ensures
            requests@ == bind_requests(self@.capabilities, seat),
    {
        let capabilities: u64 = self.capability_mask("ei_keyboard") | self.capability_mask(
            "ei_pointer",
        ) | self.capability_mask("ei_pointer_absolute") | self.capability_mask("ei_button")
            | self.capability_mask("ei_scroll");
        let mut requests: Vec<Request> = Vec::new();
        if capabilities != 0 {
            requests.push(Request::Bind { seat, capabilities });
            requests.push(Request::Flush);
        }
        assert(requests@ =~= bind_requests(self@.capabilities, seat));
        requests
    }

    /// Takes note of a seat that has been bound to.
    pub fn seat_bound(&mut self, seat: u64)
        requires
            old(self).wf(),
        ensures
            final(self).wf(),
            final(self)@ == (ContextView {
                seats: old(self)@.seats.insert("default"@, seat),
                ..old(self)@
            }),
    {
        self.seats.insert("default".to_owned(), seat);
        assert(self@.pending =~= old(self)@.pending);
        assert(self@.devices =~= old(self)@.devices);
    }

    /// Takes note of a device that has been announced.
    fn announce_device(&mut self, device: u64)
        requires
            old(self).wf(),
        ensures
            final(self).wf(),
            final(self)@ == after_seat_event(old(self)@, SeatEvent::Device { device }),
    {
        let mut i: usize = 0;
        while i < self.pending_devices.len() && self.pending_devices[i].device != device
            invariant
                *self == *old(self),
                i <= self.pending_devices.len(),
                forall|j: int| 0 <= j < i ==> self@.pending[j].device != device,
            decreases self.pending_devices.len() - i,
        {
            i = i + 1;
        }
        let ghost before = self@.pending;
        let ghost added = unconfigured(device);
        if i < self.pending_devices.len() {
            assert(before[i as int].device == device);
            self.pending_devices.set(i, PendingDeviceInfo::new(device));
            assert(self@.pending =~= before.update(i as int, added));
        } else {
            self.pending_devices.push(PendingDeviceInfo::new(device));
            assert(self@.pending =~= before.push(added));
        }
        assert(self@ =~= after_seat_event(old(self)@, SeatEvent::Device { device }));
    }

    /// Handles an event of a seat, and binds to the seat when it is ready.
    pub fn handle_seat_event(&mut self, seat: u64, event: SeatEvent) -> (requests: Vec<Request>)
        requires
            old(self).wf(),
        ensures
            final(self).wf(),
            final(self)@ == after_seat_event(old(self)@, event),
            requests@ == seat_event_requests(old(self)@, seat, event),
    {
        match event {
            SeatEvent::Capability { mask, interface } => {
                self.capabilities.insert(interface, mask);
                assert(self@ =~= after_seat_event(old(self)@, event));
                Vec::new()
            },
            SeatEvent::Done => self.bind_to_seat(seat),
            SeatEvent::Device { device } => {
                self.announce_device(device);
                Vec::new()
            },
            SeatEvent::Name | SeatEvent::Destroyed | SeatEvent::Other => Vec::new(),
        }
    }

    /// Handles an event of the connection.
    pub fn handle_connection_event(&self, event: ConnectionEvent) -> (requests: Vec<Request>)
        ensures
            requests@ == connection_event_requests(event),
    {
        match event {
            ConnectionEvent::Ping { ping } => Self::pong(ping),
            ConnectionEvent::Seat | ConnectionEvent::Disconnected
            | ConnectionEvent::InvalidObject | ConnectionEvent::Other => Vec::new(),
        }
    }

    /// The requests that answer a ping.
    fn pong(ping: u64) -> (requests: Vec<Request>)
        ensures
            requests@ == pong(ping),
    {
        let mut requests: Vec<Request> = Vec::new();
        requests.push(Request::PingDone { ping, callback_data: 0 });
        requests.push(Request::Flush);
        assert(requests@ =~= pong(ping));
        requests
    }

    /// Gives a keymap to the device that is being configured, where the keymap could be
    /// made.
    pub fn attach_keymap(&mut self, keymap: Result<KeymapProcessor, KeymapError>)
        requires
            old(self).wf(),
            keymap matches Ok(processor) ==> processor.wf(),
        ensures
            final(self).wf(),
            final(self)@ == match keymap {
                Ok(processor) => with_keymap(old(self)@, processor@),
                Err(_) => old(self)@,
            },
    {
        if let Ok(processor) = keymap {
            if let Some(pending) = self.get_current_pending_device_mut() {
                pending.keymap = Some(processor);
            }
        }
    }

    /// Handles an event of a keyboard, to learn its keymap.
    pub fn handle_keyboard_event(&mut self, event: KeyboardEvent)
        requires
            old(self).wf(),
        ensures
            final(self).wf(),
            follows_keyboard_event(old(self)@, event, final(self)@),
    {
        match event {
            KeyboardEvent::Keymap { text: Some(text) } => {
                let keymap = KeymapProcessor::new(text.as_slice());
                self.attach_keymap(keymap);
            },
            KeyboardEvent::Keymap { text: None } | KeyboardEvent::Other => {},
        }
    }

    /// Handles a single event.
    pub fn handle_event(&mut self, event: Event) -> (requests: Vec<Request>)
        requires
            old(self).wf(),
        ensures
            final(self).wf(),
            follows_event(old(self)@, event, final(self)@),
            requests@ == event_requests(old(self)@, event),
    {
        match event {
            Event::Connection { event } => self.handle_connection_event(event),
            Event::Seat { seat, event } => self.handle_seat_event(seat, event),
            Event::Device { device: _, event } => {
                self.handle_device_event(event);
                Vec::new()
            },
            Event::Pingpong { pingpong } => Self::pong(pingpong),
            Event::Keyboard { event } => {
                self.handle_keyboard_event(event);
                Vec::new()
            },
            Event::Handshake | Event::Callback | Event::Other => Vec::new(),
        }
    }

    /// Handles what comes next from the connection: an event, or a message that ends
    /// the processing of events.
    pub fn process_event(&mut self, pending: PendingEvent) -> (result: Result<
        Vec<Request>,
        EventError,
    >)
        requires
            old(self).wf(),
        ensures
            final(self).wf(),
            match pending {
                PendingEvent::Event { event } => {
                    &&& follows_event(old(self)@, event, final(self)@)
                    &&& result matches Ok(requests)
                    &&& requests@ == event_requests(old(self)@, event)
                },
                PendingEvent::ParseError { reason } => {
                    &&& final(self)@ == old(self)@
                    &&& result == Err::<Vec<Request>, EventError>(EventError::ParseError { reason })
                },
                PendingEvent::InvalidObject { id } => {
                    &&& final(self)@ == old(self)@
                    &&& result == Err::<Vec<Request>, EventError>(EventError::InvalidObject { id })
                },
            },
    {
        match pending {
            PendingEvent::Event { event } => Ok(self.handle_event(event)),
            PendingEvent::ParseError { reason } => Err(EventError::ParseError { reason }),
            PendingEvent::InvalidObject { id } => Err(EventError::InvalidObject { id }),
        }
    }

    /// The first device with an ability.
    fn find_device(&self, ability: Ability) -> (device: Option<&DeviceInfo>)
        ensures
            match device {
                Some(d) => first_device(self@.devices, ability.wanted()) == Some(d@),
                None => first_device(self@.devices, ability.wanted()) is None,
            },
    {
        let ghost devices = self@.devices;
        let mut i: usize = 0;
        assert(devices.skip(0) =~= devices);
        while i < self.devices.len()
            invariant
                i <= self.devices.len(),
                devices == self@.devices,
                first_device(devices, ability.wanted()) == first_device(
                    devices.skip(i as int),
                    ability.wanted(),
                ),
            decreases self.devices.len() - i,
        {
            assert(devices.skip(i as int).drop_first() =~= devices.skip(i + 1));
            if ability.is_of(&self.devices[i]) {
                return Some(&self.devices[i]);
            }
            i = i + 1;
        }
        None
    }

    /// Whether a device with an ability may send events.
    fn has_resumed_device(&self, ability: Ability) -> (has: bool)
        ensures
            has == has_resumed(self@.devices, ability.wanted()),
    {
        let mut i: usize = 0;
        while i < self.devices.len()
            invariant
                i <= self.devices.len(),
                forall|j: int|
                    0 <= j < i ==> (#[trigger] self@.devices[j]).paused || !ability.wanted()(
                        self@.devices[j],
                    ),
            decreases self.devices.len() - i,
        {
            assert(self@.devices[i as int] == self.devices[i as int]@);
            if !self.devices[i].paused && ability.is_of(&self.devices[i]) {
                return true;
            }
            i = i + 1;
        }
        false
    }

    /// The first device with a keyboard.
    pub fn get_keyboard_device(&self) -> (device: Option<&DeviceInfo>)
        ensures
            match device {
                Some(d) => first_device(self@.devices, a_keyboard()) == Some(d@),
                None => first_device(self@.devices, a_keyboard()) is None,
            },
    {
        self.find_device(Ability::Keyboard)
    }

    /// The first device with an absolute pointer, for absolute motion.
    pub fn get_absolute_pointer_device(&self) -> (device: Option<&DeviceInfo>)
        ensures
            match device {
                Some(d) => first_device(self@.devices, an_absolute_pointer()) == Some(d@),
                None => first_device(self@.devices, an_absolute_pointer()) is None,
            },
    {
        self.find_device(Ability::AbsolutePointer)
    }

    /// The first device with a relative pointer, for relative motion.
    pub fn get_relative_pointer_device(&self) -> (device: Option<&DeviceInfo>)
        ensures
            match device {
                Some(d) => first_device(self@.devices, a_relative_pointer()) == Some(d@),
                None => first_device(self@.devices, a_relative_pointer()) is None,
            },
    {
        self.find_device(Ability::RelativePointer)
    }

    /// The first device with a pointer, relative or absolute.
    pub fn get_pointer_device(&self) -> (device: Option<&DeviceInfo>)
        ensures
            match device {
                Some(d) => first_device(self@.devices, a_pointer()) == Some(d@),
                None => first_device(self@.devices, a_pointer()) is None,
            },
    {
        self.find_device(Ability::Pointer)
    }

    /// Whether there is at least one resumed keyboard device.
    pub fn has_keyboard(&self) -> (has: bool)
        ensures
            has == has_resumed(self@.devices, a_keyboard()),
    {
        self.has_resumed_device(Ability::Keyboard)
    }

    /// Whether there is at least one resumed pointer device, relative or absolute.
    pub fn has_pointer(&self) -> (has: bool)
        ensures
            has == has_resumed(self@.devices, a_pointer()),
    {
        self.has_resumed_device(Ability::Pointer)
    }

    /// Whether every region of every device ends within the coordinate range.
    pub fn regions_fit(&self) -> (fit: bool)
        ensures
            fit == regions_fit(all_regions(self@.devices)),
    {
        let ghost devices = self@.devices;
        let mut i: usize = 0;
        assert(devices.take(0) =~= Seq::empty());
        while i < self.devices.len()
            invariant
                i <= self.devices.len(),
                devices == self@.devices,
                regions_fit(all_regions(devices.take(i as int))),
            decreases self.devices.len() - i,
        {
            let regions = &self.devices[i].regions;
            assert(devices[i as int].regions == regions@);
            let mut j: usize = 0;
            while j < regions.len()
                invariant
                    j <= regions.len(),
                    i < devices.len(),
                    devices == self@.devices,
                    devices[i as int].regions == regions@,
                    forall|k: int| 0 <= k < j ==> region_fits(#[trigger] regions@[k]),
                decreases regions.len() - j,
            {
                let region = regions[j];
                if region.width > u32::MAX - region.x || region.height > u32::MAX - region.y {
                    proof {
                        lemma_regions_of_device(devices, i as int, j as int);
                        let all = all_regions(devices);
                        let k = choose|k: int| 0 <= k < all.len() && all[k] == region;
                        assert(!region_fits(all[k]));
                    }
                    return false;
                }
                j = j + 1;
            }
            assert(devices.take(i + 1).drop_last() =~= devices.take(i as int));
            i = i + 1;
        }
        assert(devices.take(i as int) =~= devices);
        true
    }

    /// The screen dimensions from all device regions.
    ///
    /// Returns (x, y, width, height) representing the bounding box of all regions.
    pub fn get_screen_dimensions(&self) -> (dimensions: (u16, u16, u16, u16))
        requires
            regions_fit(all_regions(self@.devices)),
        ensures
            dimensions == screen(all_regions(self@.devices)),
    {
        let ghost devices = self@.devices;
        let mut bounding_box = BoundingBox::new();
        let mut i: usize = 0;
        assert(devices.take(0) =~= Seq::empty());
        while i < self.devices.len()
            invariant
                i <= self.devices.len(),
                devices == self@.devices,
                regions_fit(all_regions(devices)),
                bounding_box.bounds(all_regions(devices.take(i as int))),
            decreases self.devices.len() - i,
        {
            let regions = &self.devices[i].regions;
            let ghost before = all_regions(devices.take(i as int));
            assert(devices[i as int].regions == regions@);
            assert(before + regions@.take(0) =~= before);
            let mut j: usize = 0;
            while j < regions.len()
                invariant
                    j <= regions.len(),
                    i < devices.len(),
                    devices == self@.devices,
                    devices[i as int].regions == regions@,
                    regions_fit(all_regions(devices)),
                    bounding_box.bounds(before + regions@.take(j as int)),
                decreases regions.len() - j,
            {
                proof {
                    lemma_regions_of_device(devices, i as int, j as int);
                    let all = all_regions(devices);
                    let k = choose|k: int| 0 <= k < all.len() && all[k] == regions@[j as int];
                    assert(region_fits(all[k]));
                }
                bounding_box.extend(&regions[j]);
                assert((before + regions@.take(j as int)).push(regions@[j as int]) =~= before
                    + regions@.take(j + 1));
                j = j + 1;
            }
            assert(regions@.take(j as int) =~= regions@);
            assert(devices.take(i + 1).drop_last() =~= devices.take(i as int));
            i = i + 1;
        }
        assert(devices.take(i as int) =~= devices);
        bounding_box.to_screen()
    }

    /// How many devices have been configured.
    pub fn device_count(&self) -> (count: usize)
        ensures
            count == self@.devices.len(),
    {
        self.devices.len()
    }

    /// The device at an index, in the order in which the devices were completed.
    pub fn device(&self, index: usize) -> (device: &DeviceInfo)
        requires
            index < self@.devices.len(),
        ensures
            device@ == self@.devices[index as int],
    {
        &self.devices[index]
    }
}

/// A device that is announced while no other is pending, named, and completed is the
/// last of the configured devices, and it starts paused.
pub proof fn completed_device_starts_paused(s: ContextView, device: u64, name: String)
    requires
        s.pending.len() == 0,
    ensures
        ({
            let announced = after_seat_event(s, SeatEvent::Device { device });
            let named = after_device_event(announced, DeviceEvent::Name { name });
            let done = after_device_event(named, DeviceEvent::Done);
            &&& done.pending == s.pending
            &&& done.devices == s.devices.push(configured(unconfigured(device), name@))
            &&& done.devices.last().paused
        }),
{
    let announced = after_seat_event(s, SeatEvent::Device { device });
    let named = after_device_event(announced, DeviceEvent::Name { name });
    let done = after_device_event(named, DeviceEvent::Done);
    assert(done.pending =~= s.pending);
    assert(done.devices.last() == configured(unconfigured(device), name@));
}

/// A device that is completed without a name is dropped.
pub proof fn nameless_device_is_dropped(s: ContextView)
    requires
        s.pending.len() > 0,
        s.pending[0].name is None,
    ensures
        after_device_event(s, DeviceEvent::Done).devices == s.devices,
        after_device_event(s, DeviceEvent::Done).pending == s.pending.drop_first(),
{
}

/// Resuming undoes pausing, and pausing undoes resuming: the last of such events counts.
pub proof fn last_pause_or_resume_counts(s: ContextView)
    ensures
        after_device_event(after_device_event(s, DeviceEvent::Paused), DeviceEvent::Resumed)
            == after_device_event(s, DeviceEvent::Resumed),
        after_device_event(after_device_event(s, DeviceEvent::Resumed), DeviceEvent::Paused)
            == after_device_event(s, DeviceEvent::Paused),
{
    assert(after_device_event(after_device_event(s, DeviceEvent::Paused), DeviceEvent::Resumed)
        =~= after_device_event(s, DeviceEvent::Resumed));
    assert(after_device_event(after_device_event(s, DeviceEvent::Resumed), DeviceEvent::Paused)
        =~= after_device_event(s, DeviceEvent::Paused));
}

/// What is learnt of a device while it is being configured leaves the configured
/// devices alone: only completing, pausing, resuming and destroying concern them.
pub proof fn configuration_leaves_devices_alone(
    before: ContextView,
    event: Event,
    after: ContextView,
)
    requires
        follows_event(before, event, after),
        !(event matches Event::Device {
            device,
            event: DeviceEvent::Done | DeviceEvent::Paused | DeviceEvent::Resumed
            | DeviceEvent::Destroyed,
        }),
    ensures
        after.devices == before.devices,
{
}

/// A region that a device tells of is kept, and dimensions count only as long as it has
/// told of none.
pub proof fn regions_take_precedence_over_dimensions(
    s: ContextView,
    region: Region,
    width: u32,
    height: u32,
)
    ensures
        ({
            let told = after_device_event(
                s,
                DeviceEvent::Region {
                    offset_x: region.x,
                    offset_y: region.y,
                    width: region.width,
                    height: region.height,
                    scale_bits: region.scale_bits,
                },
            );
            &&& after_device_event(told, DeviceEvent::Dimensions { width, height }) == told
            &&& s.pending.len() > 0 ==> told.pending[0].regions.last() == region
        }),
{
    let told = after_device_event(
        s,
        DeviceEvent::Region {
            offset_x: region.x,
            offset_y: region.y,
            width: region.width,
            height: region.height,
            scale_bits: region.scale_bits,
        },
    );
    assert(after_device_event(told, DeviceEvent::Dimensions { width, height }).pending
        =~= told.pending);
}

/// Every capability of use that a seat offers is bound to, and nothing else is.
pub proof fn binding_is_exact(capabilities: Map<Seq<char>, u64>, bit: u64)
    requires
        bit < 64,
    ensures
        (bind_mask(capabilities) >> bit) & 1 == 1 <==> {
            ||| (capability(capabilities, "ei_keyboard"@) >> bit) & 1 == 1
            ||| (capability(capabilities, "ei_pointer"@) >> bit) & 1 == 1
            ||| (capability(capabilities, "ei_pointer_absolute"@) >> bit) & 1 == 1
            ||| (capability(capabilities, "ei_button"@) >> bit) & 1 == 1
            ||| (capability(capabilities, "ei_scroll"@) >> bit) & 1 == 1
        },
{
    let k = capability(capabilities, "ei_keyboard"@);
    let p = capability(capabilities, "ei_pointer"@);
    let a = capability(capabilities, "ei_pointer_absolute"@);
    let b = capability(capabilities, "ei_button"@);
    let c = capability(capabilities, "ei_scroll"@);
    assert(((k | p | a | b | c) >> bit) & 1 == 1 <==> ((k >> bit) & 1 == 1 || (p >> bit) & 1 == 1
        || (a >> bit) & 1 == 1 || (b >> bit) & 1 == 1 || (c >> bit) & 1 == 1)) by (bit_vector)
        requires
            bit < 64,
    ;
}

/// Whatever is requested in answer to an event is also sent: the last request is a flush,
/// and no other is.
pub proof fn answers_end_with_a_flush(s: ContextView, event: Event, i: int)
    requires
        0 <= i < event_requests(s, event).len(),
    ensures
        event_requests(s, event)[i] is Flush <==> i == event_requests(s, event).len() - 1,
{
}

} // verus!
