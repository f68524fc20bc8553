//! What becomes of the events of an EI connection, told by what was known before and what
//! is known after.

use vstd::prelude::*;

use crate::compiler;
use crate::device::{DeviceInfo, DeviceView, PendingView};
use crate::ei::{
    a_keyboard, a_pointer, a_relative_pointer, after_device_event, after_seat_event, all_regions,
    an_absolute_pointer, binding_is_exact, event_requests, first_device, follows_event,
    has_resumed, lemma_regions_of_device, with_keymap, Context, ContextView,
};
use crate::event::{ConnectionEvent, DeviceEvent, Event, KeyboardEvent, Request, SeatEvent};
use crate::keymap::{reverse, searched, KeyCombination};
use crate::region::{
    fitting_in_full, regions_fit, screen, screen_in_full, screen_without_regions, Region,
};

verus! {

/// Whether two states differ in the first pending device at most.
pub open spec fn same_but_current(before: ContextView, after: ContextView) -> bool {
    &&& after.seats == before.seats
    &&& after.capabilities == before.capabilities
    &&& after.devices == before.devices
    &&& after.pending.len() == before.pending.len()
    &&& forall|i: int| 0 < i < before.pending.len() ==> #[trigger] after.pending[i]
        == before.pending[i]
}

/// The name of a device that is being configured is kept, and nothing else changes.
pub proof fn name_is_kept(s: ContextView, name: String)
    requires
        s.pending.len() > 0,
    ensures
        ({
            let after = after_device_event(s, DeviceEvent::Name { name });
            let (p, q) = (s.pending[0], after.pending[0]);
            &&& same_but_current(s, after)
            &&& q.name == Some(name@)
            &&& q.device == p.device && q.interfaces == p.interfaces && q.regions == p.regions
            &&& q.keymap == p.keymap
        }),
{
}

/// A region of a device that is being configured is put behind those that it has, and
/// nothing else changes.
pub proof fn region_is_kept(
    s: ContextView,
    offset_x: u32,
    offset_y: u32,
    width: u32,
    height: u32,
    scale_bits: u32,
)
    requires
        s.pending.len() > 0,
    ensures
        ({
            let after = after_device_event(
                s,
                DeviceEvent::Region { offset_x, offset_y, width, height, scale_bits },
            );
            let (p, q) = (s.pending[0], after.pending[0]);
            &&& same_but_current(s, after)
            &&& q.regions.len() == p.regions.len() + 1
            &&& q.regions.drop_last() == p.regions
            &&& q.regions.last().x == offset_x && q.regions.last().y == offset_y
            &&& q.regions.last().width == width && q.regions.last().height == height
            &&& q.regions.last().scale_bits == scale_bits
            &&& q.device == p.device && q.name == p.name && q.interfaces == p.interfaces
            &&& q.keymap == p.keymap
        }),
{
    let after = after_device_event(
        s,
        DeviceEvent::Region { offset_x, offset_y, width, height, scale_bits },
    );
    assert(after.pending[0].regions.drop_last() =~= s.pending[0].regions);
}

/// The dimensions of a device without regions are one region at the origin, in the scale
/// of one. With regions they change nothing.
pub proof fn dimensions_are_a_region(s: ContextView, width: u32, height: u32)
    requires
        s.pending.len() > 0,
    ensures
        ({
            let after = after_device_event(s, DeviceEvent::Dimensions { width, height });
            let (p, q) = (s.pending[0], after.pending[0]);
            &&& same_but_current(s, after)
            &&& p.regions.len() > 0 ==> q == p
            &&& p.regions.len() == 0 ==> {
                &&& q.regions.len() == 1
                &&& q.regions[0].x == 0 && q.regions[0].y == 0
                &&& q.regions[0].width == width && q.regions[0].height == height
                &&& q.regions[0].scale_bits == 0x3f80_0000
                &&& q.device == p.device && q.name == p.name && q.interfaces == p.interfaces
                &&& q.keymap == p.keymap
            }
        }),
{
}

/// An interface of a device that is being configured is kept under its name, the five
/// that input is sent through and no other, and nothing else changes.
pub proof fn interface_is_kept(s: ContextView, interface: String, object: u64)
    requires
        s.pending.len() > 0,
    ensures
        ({
            let after = after_device_event(s, DeviceEvent::Interface { interface, object });
            let (p, q) = (s.pending[0], after.pending[0]);
            let (a, b) = (p.interfaces, q.interfaces);
            &&& same_but_current(s, after)
            &&& q.device == p.device && q.name == p.name && q.regions == p.regions
            &&& q.keymap == p.keymap
            &&& b.pointer == if interface@ == "ei_pointer"@ { Some(object) } else { a.pointer }
            &&& b.pointer_absolute == if interface@ == "ei_pointer_absolute"@ {
                Some(object)
            } else {
                a.pointer_absolute
            }
            &&& b.keyboard == if interface@ == "ei_keyboard"@ { Some(object) } else { a.keyboard }
            &&& b.button == if interface@ == "ei_button"@ { Some(object) } else { a.button }
            &&& b.scroll == if interface@ == "ei_scroll"@ { Some(object) } else { a.scroll }
        }),
{
    lemma_interface_names();
}

/// The names of the interfaces are different.
proof fn lemma_interface_names()
    ensures
        "ei_pointer"@ != "ei_pointer_absolute"@,
        "ei_pointer"@ != "ei_keyboard"@,
        "ei_pointer"@ != "ei_button"@,
        "ei_pointer"@ != "ei_scroll"@,
        "ei_pointer_absolute"@ != "ei_keyboard"@,
        "ei_pointer_absolute"@ != "ei_button"@,
        "ei_pointer_absolute"@ != "ei_scroll"@,
        "ei_keyboard"@ != "ei_button"@,
        "ei_keyboard"@ != "ei_scroll"@,
        "ei_button"@ != "ei_scroll"@,
{
    reveal_strlit("ei_pointer");
    reveal_strlit("ei_pointer_absolute");
    reveal_strlit("ei_keyboard");
    reveal_strlit("ei_button");
    reveal_strlit("ei_scroll");
    assert("ei_pointer"@[3] == 'p');
    assert("ei_pointer_absolute"@[3] == 'p');
    assert("ei_keyboard"@[3] == 'k');
    assert("ei_button"@[3] == 'b');
    assert("ei_scroll"@[3] == 's');
    assert("ei_pointer"@.len() != "ei_pointer_absolute"@.len());
}

/// A device that is completed leaves the pending ones and, where it has a name, comes
/// behind the configured ones: paused, and with all that is known of it.
pub proof fn completion_in_full(s: ContextView)
    requires
        s.pending.len() > 0,
    ensures
        ({
            let after = after_device_event(s, DeviceEvent::Done);
            let p = s.pending[0];
            &&& after.seats == s.seats && after.capabilities == s.capabilities
            &&& after.pending.len() == s.pending.len() - 1
            &&& forall|i: int| 0 <= i < after.pending.len() ==> #[trigger] after.pending[i]
                == s.pending[i + 1]
            &&& p.name is None ==> after.devices == s.devices
            &&& p.name matches Some(name) ==> {
                let d = after.devices.last();
                &&& after.devices.len() == s.devices.len() + 1
                &&& after.devices.drop_last() == s.devices
                &&& d.device == p.device && d.name == name && d.interfaces == p.interfaces
                &&& d.regions == p.regions && d.keymap == p.keymap && d.paused
            }
        }),
{
    let after = after_device_event(s, DeviceEvent::Done);
    if s.pending[0].name is Some {
        assert(after.devices.drop_last() =~= s.devices);
    }
}

/// Pausing and resuming concern the device that was completed last, and nothing of it but
/// whether it is paused.
pub proof fn pausing_in_full(s: ContextView, paused: bool)
    ensures
        ({
            let after = after_device_event(
                s,
                if paused {
                    DeviceEvent::Paused
                } else {
                    DeviceEvent::Resumed
                },
            );
            &&& after.seats == s.seats && after.capabilities == s.capabilities
            &&& after.pending == s.pending
            &&& after.devices.len() == s.devices.len()
            &&& s.devices.len() > 0 ==> {
                let (d, e) = (s.devices.last(), after.devices.last());
                &&& after.devices.drop_last() == s.devices.drop_last()
                &&& e.paused == paused
                &&& e.device == d.device && e.name == d.name && e.interfaces == d.interfaces
                &&& e.regions == d.regions && e.keymap == d.keymap
            }
        }),
{
    let after = after_device_event(
        s,
        if paused {
            DeviceEvent::Paused
        } else {
            DeviceEvent::Resumed
        },
    );
    if s.devices.len() > 0 {
        assert(after.devices.drop_last() =~= s.devices.drop_last());
    }
}

/// A device that is destroyed is the one that was completed last, and whatever was being
/// configured is forgotten.
pub proof fn destruction_in_full(s: ContextView)
    ensures
        ({
            let after = after_device_event(s, DeviceEvent::Destroyed);
            &&& after.seats == s.seats && after.capabilities == s.capabilities
            &&& after.pending.len() == 0
            &&& s.devices.len() > 0 ==> after.devices == s.devices.drop_last()
            &&& s.devices.len() == 0 ==> after.devices.len() == 0
        }),
{
}

/// Nothing is configured without a pending device, and some events say nothing of use.
pub proof fn other_device_events_change_nothing(s: ContextView, event: DeviceEvent)
    requires
        event is DeviceType || event is Other || (s.pending.len() == 0 && !(event is Resumed)
            && !(event is Paused) && !(event is Destroyed)),
    ensures
        after_device_event(s, event) == s,
{
}

/// A mask that a seat offers an interface under is kept under the name of the interface.
pub proof fn capability_is_kept(s: ContextView, mask: u64, interface: String, other: Seq<char>)
    requires
        other != interface@,
    ensures
        ({
            let after = after_seat_event(s, SeatEvent::Capability { mask, interface });
            &&& after.seats == s.seats && after.pending == s.pending && after.devices == s.devices
            &&& after.capabilities.contains_pair(interface@, mask)
            &&& after.capabilities.contains_key(other) == s.capabilities.contains_key(other)
            &&& s.capabilities.contains_key(other) ==> after.capabilities[other]
                == s.capabilities[other]
        }),
{
}

/// Whether nothing is known of a pending device but its object.
pub open spec fn is_blank(p: PendingView, device: u64) -> bool {
    &&& p.device == device
    &&& p.name is None
    &&& p.interfaces.pointer is None
    &&& p.interfaces.pointer_absolute is None
    &&& p.interfaces.keyboard is None
    &&& p.interfaces.button is None
    &&& p.interfaces.scroll is None
    &&& p.regions.len() == 0
    &&& p.keymap is None
}

/// A device that is announced comes behind the pending ones, or in the place of the one
/// with the same object, and nothing is known of it yet.
pub proof fn announcement_in_full(s: ContextView, device: u64, i: int)
    requires
        s.wf(),
    ensures
        ({
            let after = after_seat_event(s, SeatEvent::Device { device });
            &&& after.seats == s.seats && after.capabilities == s.capabilities
            &&& after.devices == s.devices
            &&& (forall|j: int| 0 <= j < s.pending.len() ==> (#[trigger] s.pending[j]).device
                != device) ==> {
                &&& after.pending.len() == s.pending.len() + 1
                &&& after.pending.drop_last() == s.pending
                &&& is_blank(after.pending.last(), device)
            }
            &&& 0 <= i < s.pending.len() && s.pending[i].device == device ==> {
                &&& after.pending.len() == s.pending.len()
                &&& is_blank(after.pending[i], device)
                &&& forall|j: int|
                    0 <= j < s.pending.len() && j != i ==> #[trigger] after.pending[j]
                        == s.pending[j]
            }
        }),
{
    let after = after_seat_event(s, SeatEvent::Device { device });
    if forall|j: int| 0 <= j < s.pending.len() ==> (#[trigger] s.pending[j]).device != device {
        assert(after.pending.drop_last() =~= s.pending);
    }
    if 0 <= i < s.pending.len() && s.pending[i].device == device {
        let k = choose|k: int|
            0 <= k < s.pending.len() && #[trigger] s.pending[k].device == device;
        assert(s.pending[i].device == device);
        assert(k == i);
    }
}

/// All other events of a seat change nothing.
pub proof fn other_seat_events_change_nothing(s: ContextView, event: SeatEvent)
    requires
        !(event is Capability) && !(event is Device),
    ensures
        after_seat_event(s, event) == s,
{
}

/// An event of a seat or a device does what such an event does, and an event of anything
/// but a seat, a device or a keyboard changes nothing.
pub proof fn events_are_told_apart(before: ContextView, event: Event, after: ContextView)
    requires
        follows_event(before, event, after),
    ensures
        event matches Event::Seat { seat, event } ==> after == after_seat_event(before, event),
        event matches Event::Device { device, event } ==> after == after_device_event(
            before,
            event,
        ),
        !(event is Seat) && !(event is Device) && !(event is Keyboard) ==> after == before,
{
}

/// Whether a seat offers an interface with the given bit.
pub open spec fn offers(s: ContextView, interface: Seq<char>, bit: u64) -> bool {
    s.capabilities.contains_key(interface) && (s.capabilities[interface] >> bit) & 1 == 1
}

/// Whether a seat offers an interface that input is sent through with the given bit.
pub open spec fn offers_input(s: ContextView, bit: u64) -> bool {
    ||| offers(s, "ei_keyboard"@, bit)
    ||| offers(s, "ei_pointer"@, bit)
    ||| offers(s, "ei_pointer_absolute"@, bit)
    ||| offers(s, "ei_button"@, bit)
    ||| offers(s, "ei_scroll"@, bit)
}

/// A seat that is described is bound to with every bit under which it offers an interface
/// that input is sent through, and with no other; it is left alone where there is no such
/// bit.
pub proof fn binding_in_full(s: ContextView, seat: u64, bit: u64)
    requires
        bit < 64,
    ensures
        ({
            let requests = event_requests(s, Event::Seat { seat, event: SeatEvent::Done });
            if requests.len() == 0 {
                !offers_input(s, bit)
            } else {
                &&& requests.len() == 2
                &&& requests[0] matches Request::Bind { seat: bound, capabilities }
                &&& bound == seat
                &&& capabilities != 0
                &&& (capabilities >> bit) & 1 == 1 <==> offers_input(s, bit)
                &&& requests[1] is Flush
            }
        }),
{
    binding_is_exact(s.capabilities, bit);
    assert((0u64 >> bit) & 1 != 1) by (bit_vector)
        requires
            bit < 64,
    ;
}

/// A ping is answered on its own object and the answer is sent; no other event but the end
/// of a seat's description is answered.
pub proof fn answers_in_full(s: ContextView, event: Event)
    ensures
        event matches Event::Connection { event: ConnectionEvent::Ping { ping } } ==> {
            let requests = event_requests(s, event);
            &&& requests.len() == 2
            &&& requests[0] == (Request::PingDone { ping, callback_data: 0 })
            &&& requests[1] is Flush
        },
        event matches Event::Pingpong { pingpong } ==> {
            let requests = event_requests(s, event);
            &&& requests.len() == 2
            &&& requests[0] == (Request::PingDone { ping: pingpong, callback_data: 0 })
            &&& requests[1] is Flush
        },
        !(event is Pingpong) && !(event matches Event::Connection {
            event: ConnectionEvent::Ping { .. },
        }) && !(event matches Event::Seat { seat, event: SeatEvent::Done }) ==> event_requests(
            s,
            event,
        ).len() == 0,
{
}

/// A keymap goes to the device that is being configured, whatever else is known of it, and
/// nothing else changes.
pub proof fn keymap_is_attached(s: ContextView, map: Map<u32, Seq<KeyCombination>>)
    ensures
        s.pending.len() == 0 ==> with_keymap(s, map) == s,
        s.pending.len() > 0 ==> {
            let after = with_keymap(s, map);
            let (p, q) = (s.pending[0], after.pending[0]);
            &&& same_but_current(s, after)
            &&& q.keymap == Some(map)
            &&& q.device == p.device && q.name == p.name && q.interfaces == p.interfaces
            &&& q.regions == p.regions
        },
{
}

/// A keymap text that compiles gives the device that is being configured, whatever is
/// known of it, the reverse of one of the keymaps that the text can be compiled to. One
/// that does not compile or cannot be read changes nothing, nor does any other event of a
/// keyboard.
pub proof fn keymap_is_learnt(before: ContextView, event: KeyboardEvent, after: ContextView)
    requires
        follows_event(before, Event::Keyboard { event }, after),
    ensures
        event matches KeyboardEvent::Keymap { text: Some(text) } ==> {
            &&& before.pending.len() > 0 && compiler::compilations(text@) != Set::<
                Map<(u32, u32, u32), u32>,
            >::empty() ==> {
                let (p, q) = (before.pending[0], after.pending[0]);
                &&& same_but_current(before, after)
                &&& q.device == p.device && q.name == p.name && q.interfaces == p.interfaces
                &&& q.regions == p.regions
                &&& exists|keysyms: Map<(u32, u32, u32), u32>| #[trigger]
                    compiler::compilations(text@).contains(keysyms) && q.keymap == Some(
                        reverse(keysyms, searched()),
                    )
            }
            &&& before.pending.len() == 0 || compiler::compilations(text@) == Set::<
                Map<(u32, u32, u32), u32>,
            >::empty() ==> after == before
        },
        !(event matches KeyboardEvent::Keymap { text: Some(_) }) ==> after == before,
{
    if let KeyboardEvent::Keymap { text: Some(text) } = event {
        let all = compiler::compilations(text@);
        if compiler::keymap_text_accepted(text@) {
            let keysyms = choose|keysyms: Map<(u32, u32, u32), u32>| #[trigger]
                all.contains(keysyms) && after == with_keymap(
                    before,
                    reverse(keysyms, searched()),
                );
            assert(all.contains(keysyms));
        } else {
            assert(all =~= Set::empty());
        }
    }
}

/// The first device that is wanted is the one before which none is.
proof fn lemma_first_at(devices: Seq<DeviceView>, wanted: spec_fn(DeviceView) -> bool, i: int)
    requires
        0 <= i < devices.len(),
        wanted(devices[i]),
        forall|j: int| 0 <= j < i ==> !wanted(#[trigger] devices[j]),
    ensures
        first_device(devices, wanted) == Some(devices[i]),
    decreases i,
{
    if i > 0 {
        assert(!wanted(devices[0]));
        let rest = devices.drop_first();
        assert forall|j: int| 0 <= j < i - 1 implies !wanted(#[trigger] rest[j]) by {
            assert(rest[j] == devices[j + 1]);
        }
        lemma_first_at(rest, wanted, i - 1);
    }
}

/// Where no device is wanted, there is no first one.
proof fn lemma_first_none(devices: Seq<DeviceView>, wanted: spec_fn(DeviceView) -> bool)
    requires
        forall|j: int| 0 <= j < devices.len() ==> !wanted(#[trigger] devices[j]),
    ensures
        first_device(devices, wanted) is None,
    decreases devices.len(),
{
    if devices.len() > 0 {
        assert(!wanted(devices[0]));
        let rest = devices.drop_first();
        assert forall|j: int| 0 <= j < rest.len() implies !wanted(#[trigger] rest[j]) by {
            assert(rest[j] == devices[j + 1]);
        }
        lemma_first_none(rest, wanted);
    }
}

/// Whether a device has a pointer, relative or absolute.
pub open spec fn points(d: DeviceView) -> bool {
    d.interfaces.pointer is Some || d.interfaces.pointer_absolute is Some
}

/// The first device of a kind is the one before which no other is of that kind.
pub proof fn first_devices_in_full(devices: Seq<DeviceView>, i: int)
    requires
        0 <= i < devices.len(),
    ensures
        devices[i].interfaces.keyboard is Some && (forall|j: int|
            0 <= j < i ==> (#[trigger] devices[j]).interfaces.keyboard is None) ==> first_device(
            devices,
            a_keyboard(),
        ) == Some(devices[i]),
        devices[i].interfaces.pointer_absolute is Some && (forall|j: int|
            0 <= j < i ==> (#[trigger] devices[j]).interfaces.pointer_absolute is None)
            ==> first_device(devices, an_absolute_pointer()) == Some(devices[i]),
        devices[i].interfaces.pointer is Some && (forall|j: int|
            0 <= j < i ==> (#[trigger] devices[j]).interfaces.pointer is None) ==> first_device(
            devices,
            a_relative_pointer(),
        ) == Some(devices[i]),
        points(devices[i]) && (forall|j: int| 0 <= j < i ==> !points(#[trigger] devices[j]))
            ==> first_device(devices, a_pointer()) == Some(devices[i]),
{
    if devices[i].interfaces.keyboard is Some && (forall|j: int|
        0 <= j < i ==> (#[trigger] devices[j]).interfaces.keyboard is None) {
        lemma_first_at(devices, a_keyboard(), i);
    }
    if devices[i].interfaces.pointer_absolute is Some && (forall|j: int|
        0 <= j < i ==> (#[trigger] devices[j]).interfaces.pointer_absolute is None) {
        lemma_first_at(devices, an_absolute_pointer(), i);
    }
    if devices[i].interfaces.pointer is Some && (forall|j: int|
        0 <= j < i ==> (#[trigger] devices[j]).interfaces.pointer is None) {
        lemma_first_at(devices, a_relative_pointer(), i);
    }
    if points(devices[i]) && (forall|j: int| 0 <= j < i ==> !points(#[trigger] devices[j])) {
        lemma_first_at(devices, a_pointer(), i);
    }
}

/// Where no device is of a kind, none is found.
pub proof fn missing_devices_are_not_found(devices: Seq<DeviceView>)
    ensures
        (forall|j: int|
            0 <= j < devices.len() ==> (#[trigger] devices[j]).interfaces.keyboard is None)
            ==> first_device(devices, a_keyboard()) is None,
        (forall|j: int|
            0 <= j < devices.len() ==> (#[trigger] devices[j]).interfaces.pointer_absolute
                is None) ==> first_device(devices, an_absolute_pointer()) is None,
        (forall|j: int|
            0 <= j < devices.len() ==> (#[trigger] devices[j]).interfaces.pointer is None)
            ==> first_device(devices, a_relative_pointer()) is None,
        (forall|j: int| 0 <= j < devices.len() ==> !points(#[trigger] devices[j]))
            ==> first_device(devices, a_pointer()) is None,
{
    if forall|j: int|
        0 <= j < devices.len() ==> (#[trigger] devices[j]).interfaces.keyboard is None {
        lemma_first_none(devices, a_keyboard());
    }
    if forall|j: int|
        0 <= j < devices.len() ==> (#[trigger] devices[j]).interfaces.pointer_absolute is None {
        lemma_first_none(devices, an_absolute_pointer());
    }
    if forall|j: int|
        0 <= j < devices.len() ==> (#[trigger] devices[j]).interfaces.pointer is None {
        lemma_first_none(devices, a_relative_pointer());
    }
    if forall|j: int| 0 <= j < devices.len() ==> !points(#[trigger] devices[j]) {
        lemma_first_none(devices, a_pointer());
    }
}

/// There is a keyboard, or a pointer, where some device has one and is not paused.
pub proof fn resumed_devices_in_full(devices: Seq<DeviceView>)
    ensures
        has_resumed(devices, a_keyboard()) <==> exists|i: int|
            0 <= i < devices.len() && (#[trigger] devices[i]).interfaces.keyboard is Some
                && !devices[i].paused,
        has_resumed(devices, a_pointer()) <==> exists|i: int|
            0 <= i < devices.len() && points(#[trigger] devices[i]) && !devices[i].paused,
{
    if exists|i: int|
        0 <= i < devices.len() && (#[trigger] devices[i]).interfaces.keyboard is Some
            && !devices[i].paused {
        let i = choose|i: int|
            0 <= i < devices.len() && (#[trigger] devices[i]).interfaces.keyboard is Some
                && !devices[i].paused;
        assert(!devices[i].paused && a_keyboard()(devices[i]));
    }
    if exists|i: int| 0 <= i < devices.len() && points(#[trigger] devices[i]) && !devices[i].paused {
        let i = choose|i: int|
            0 <= i < devices.len() && points(#[trigger] devices[i]) && !devices[i].paused;
        assert(!devices[i].paused && a_pointer()(devices[i]));
    }
}

/// What is told of a configured device is what it holds.
pub proof fn device_is_told_as_it_is(d: DeviceInfo)
    ensures
        d@.device == d.device,
        d@.name == d.name@,
        d@.interfaces == d.interfaces,
        d@.regions == d.regions@,
        d@.paused == d.paused,
        d.keymap is None <==> d@.keymap is None,
        d.keymap matches Some(keymap) ==> d@.keymap == Some(keymap@),
{
}

/// Every region of all devices is a region of one of them.
proof fn lemma_region_has_device(devices: Seq<DeviceView>, k: int) -> (at: (int, int))
    requires
        0 <= k < all_regions(devices).len(),
    ensures
        0 <= at.0 < devices.len(),
        0 <= at.1 < devices[at.0].regions.len(),
        devices[at.0].regions[at.1] == all_regions(devices)[k],
    decreases devices.len(),
{
    let before = all_regions(devices.drop_last());
    if k < before.len() {
        let at = lemma_region_has_device(devices.drop_last(), k);
        at
    } else {
        (devices.len() - 1, k - before.len())
    }
}

/// Whether a region is one of a device.
pub open spec fn has_region(devices: Seq<DeviceView>, r: Region) -> bool {
    exists|i: int, j: int|
        0 <= i < devices.len() && 0 <= j < devices[i].regions.len()
            && #[trigger] devices[i].regions[j] == r
}

/// The regions of all devices are those that some device has.
proof fn lemma_all_regions(devices: Seq<DeviceView>, r: Region)
    ensures
        has_region(devices, r) <==> all_regions(devices).contains(r),
{
    if has_region(devices, r) {
        let (i, j) = choose|i: int, j: int|
            0 <= i < devices.len() && 0 <= j < devices[i].regions.len()
                && #[trigger] devices[i].regions[j] == r;
        lemma_regions_of_device(devices, i, j);
    }
    if all_regions(devices).contains(r) {
        let k = choose|k: int| 0 <= k < all_regions(devices).len() && all_regions(devices)[k] == r;
        let at = lemma_region_has_device(devices, k);
        assert(devices[at.0].regions[at.1] == r);
    }
}

/// The screen is made up of the regions of all devices: from the least left to the greatest
/// right edge that any device has, and from the least top to the greatest bottom edge.
pub proof fn screen_of_devices_in_full(
    devices: Seq<DeviceView>,
    leftmost: Region,
    topmost: Region,
    rightmost: Region,
    bottommost: Region,
)
    requires
        has_region(devices, leftmost),
        has_region(devices, topmost),
        has_region(devices, rightmost),
        has_region(devices, bottommost),
        forall|r: Region| #[trigger]
            has_region(devices, r) ==> {
                &&& leftmost.x <= r.x
                &&& topmost.y <= r.y
                &&& r.x + r.width <= rightmost.x + rightmost.width
                &&& r.y + r.height <= bottommost.y + bottommost.height
            },
    ensures
        ({
            let (x, y, width, height) = screen(all_regions(devices));
            let w = rightmost.x + rightmost.width - leftmost.x;
            let h = bottommost.y + bottommost.height - topmost.y;
            &&& x == leftmost.x % 0x1_0000
            &&& y == topmost.y % 0x1_0000
            &&& w <= 65535 ==> width == w
            &&& w > 65535 ==> width == 65535
            &&& h <= 65535 ==> height == h
            &&& h > 65535 ==> height == 65535
        }),
{
    let all = all_regions(devices);
    lemma_all_regions(devices, leftmost);
    lemma_all_regions(devices, topmost);
    lemma_all_regions(devices, rightmost);
    lemma_all_regions(devices, bottommost);
    let a = choose|k: int| 0 <= k < all.len() && all[k] == leftmost;
    let b = choose|k: int| 0 <= k < all.len() && all[k] == topmost;
    let c = choose|k: int| 0 <= k < all.len() && all[k] == rightmost;
    let d = choose|k: int| 0 <= k < all.len() && all[k] == bottommost;
    assert forall|k: int| 0 <= k < all.len() implies {
        let r = #[trigger] all[k];
        &&& all[a].x <= r.x
        &&& all[b].y <= r.y
        &&& r.x + r.width <= all[c].x + all[c].width
        &&& r.y + r.height <= all[d].y + all[d].height
    } by {
        lemma_all_regions(devices, all[k]);
        assert(all.contains(all[k]));
    }
    screen_in_full(all, a, b, c, d);
}

/// Devices without regions make the default screen, however many they are, and regions fit
/// where no device has one that ends beyond the largest coordinate.
pub proof fn regions_of_devices_in_full(devices: Seq<DeviceView>)
    ensures
        (forall|r: Region| !#[trigger] has_region(devices, r)) ==> screen(all_regions(devices))
            == (0u16, 0u16, 1920u16, 1080u16),
        regions_fit(all_regions(devices)) <==> forall|r: Region| #[trigger]
            has_region(devices, r) ==> r.x + r.width <= 0xffff_ffff && r.y + r.height
                <= 0xffff_ffff,
{
    let all = all_regions(devices);
    assert forall|r: Region| #[trigger] has_region(devices, r) <==> all.contains(r) by {
        lemma_all_regions(devices, r);
    }
    fitting_in_full(all);
    screen_without_regions();
    if forall|r: Region| !#[trigger] has_region(devices, r) {
        if all.len() > 0 {
            assert(all.contains(all[0]));
            assert(has_region(devices, all[0]));
        }
        assert(all =~= Seq::empty());
    }
    if forall|r: Region| #[trigger]
        has_region(devices, r) ==> r.x + r.width <= 0xffff_ffff && r.y + r.height <= 0xffff_ffff {
        assert forall|k: int| 0 <= k < all.len() implies (#[trigger] all[k]).x + all[k].width
            <= 0xffff_ffff && all[k].y + all[k].height <= 0xffff_ffff by {
            assert(all.contains(all[k]));
            assert(has_region(devices, all[k]));
        }
    }
}

/// Whether there are a resumed keyboard and a resumed pointer, and how large the screen is,
/// is told from the configured devices.
pub proof fn devices_are_told(
    context: Context,
    keyboard: bool,
    pointer: bool,
    fit: bool,
    dimensions: (u16, u16, u16, u16),
)
    requires
        call_ensures(Context::has_keyboard, (&context,), keyboard),
        call_ensures(Context::has_pointer, (&context,), pointer),
        call_ensures(Context::regions_fit, (&context,), fit),
        call_ensures(Context::get_screen_dimensions, (&context,), dimensions),
    ensures
        keyboard == has_resumed(context@.devices, a_keyboard()),
        pointer == has_resumed(context@.devices, a_pointer()),
        fit == regions_fit(all_regions(context@.devices)),
        dimensions == screen(all_regions(context@.devices)),
{
}

} // verus!
