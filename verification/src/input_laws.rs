//! What input the messages of a server become, told by the devices that there are.

use vstd::prelude::*;

use crate::compiler;
use crate::connection_laws::{
    announcement_in_full, completion_in_full, first_devices_in_full, interface_is_kept,
    keymap_is_learnt, missing_devices_are_not_found, name_is_kept,
    pausing_in_full, points,
};
use crate::device::DeviceView;
use crate::ei::{follows_event, Context, ContextView};
use crate::event::{DeviceEvent, Event, KeyState, KeyboardEvent, Request, SeatEvent};
use crate::keymap::{
    lookup_in_full, reverse, searched, simplest_combination, simplest_has_x11_keycode,
    KeyCombination, KeymapProcessor,
};
use crate::message::Message;
use crate::synergy::{
    button_code, handle_synergy_message, linux_button, message_requests,
    translate_synergy_keysym, x11_keysym,
};

verus! {

/// Whether requests send one input event through a device: the event, the end of the
/// device's frame, and a flush.
pub open spec fn sends(requests: Seq<Request>, d: DeviceView, input: Request) -> bool {
    &&& requests.len() == 3
    &&& requests[0] == input
    &&& requests[1] == (Request::Frame { device: d.device, last_serial: 0 })
    &&& requests[2] is Flush
}

/// The sixteen modifier keysyms of Synergy are 0x1000 lower than those of X11, in the same
/// order, and all other keysyms are the same.
pub proof fn keysym_translation_in_full(keysym: u32, translated: u32)
    requires
        call_ensures(translate_synergy_keysym, (keysym,), translated),
    ensures
        translated == x11_keysym(keysym),
        61408 <= keysym <= 61423 ==> translated == keysym + 4096,
        !(61408 <= keysym <= 61423) ==> translated == keysym,
{
}

/// Two Synergy keysyms are the same modifier only where they are the same, but for one that
/// is an X11 keysym already.
pub proof fn keysym_translation_keeps_keys_apart(a: u32, b: u32)
    requires
        x11_keysym(a) == x11_keysym(b),
    ensures
        a == b || a == b + 0x1000 || b == a + 0x1000,
        0xefe0 <= a <= 0xefef && 0xefe0 <= b <= 0xefef ==> a == b,
        0xefe0 <= a <= 0xefef ==> x11_keysym(a) - a == 0x1000,
        !(0xefe0 <= a <= 0xefef) ==> x11_keysym(a) == a,
{
}

/// The buttons 1, 2 and 3 are the left, the middle and the right one, which Linux numbers
/// from 0x110 on as left, right and middle. All others keep their numbers.
pub proof fn button_translation_in_full(button: u8, code: u32)
    requires
        call_ensures(button_code, (button,), code),
    ensures
        code == linux_button(button),
        button == 1 ==> code == 272,
        button == 2 ==> code == 274,
        button == 3 ==> code == 273,
        button == 0 || button > 3 ==> code == button,
{
}

/// Whether a device is the first one that has a pointer.
pub open spec fn is_first_pointer(s: ContextView, i: int) -> bool {
    &&& 0 <= i < s.devices.len()
    &&& points(s.devices[i])
    &&& forall|j: int| 0 <= j < i ==> !points(#[trigger] s.devices[j])
}

/// A mouse button of any number goes through the button interface of the first pointer, in
/// both directions, whenever that device is resumed and has the interface, and otherwise
/// not at all.
pub proof fn buttons_in_full(s: ContextView, i: int, button: u8)
    requires
        is_first_pointer(s, i),
    ensures
        ({
            let d = s.devices[i];
            let down = message_requests(s, Message::MouseButtonDown { button });
            let up = message_requests(s, Message::MouseButtonUp { button });
            let code: u32 = if button == 1 {
                272
            } else if button == 2 {
                274
            } else if button == 3 {
                273
            } else {
                button as u32
            };
            &&& !d.paused ==> (d.interfaces.button matches Some(interface) ==> {
                &&& sends(down, d, Request::Button { interface, button: code, state: KeyState::Press })
                &&& sends(up, d, Request::Button { interface, button: code, state: KeyState::Released })
            })
            &&& d.paused || d.interfaces.button is None ==> down.len() == 0 && up.len() == 0
        }),
{
    first_devices_in_full(s.devices, i);
}

/// The wheel goes, by its vertical distance, through the scroll interface of the first
/// pointer whenever that device is resumed and has the interface, and otherwise not at all.
pub proof fn wheel_in_full(s: ContextView, i: int, xdelta: i16, ydelta: i16)
    requires
        is_first_pointer(s, i),
    ensures
        ({
            let d = s.devices[i];
            let requests = message_requests(s, Message::MouseWheel { xdelta, ydelta });
            &&& !d.paused ==> (d.interfaces.scroll matches Some(interface) ==> sends(
                requests,
                d,
                Request::Scroll { interface, x: 0, y: ydelta },
            ))
            &&& d.paused || d.interfaces.scroll is None ==> requests.len() == 0
        }),
{
    first_devices_in_full(s.devices, i);
}

/// Absolute motion goes to the same place through the first absolute pointer, whenever that
/// device is resumed, and otherwise not at all.
pub proof fn absolute_motion_in_full(s: ContextView, i: int, pointer: u64, x: i16, y: i16)
    requires
        0 <= i < s.devices.len(),
        s.devices[i].interfaces.pointer_absolute == Some(pointer),
        forall|j: int|
            0 <= j < i ==> (#[trigger] s.devices[j]).interfaces.pointer_absolute is None,
    ensures
        ({
            let d = s.devices[i];
            let requests = message_requests(s, Message::MouseMove { x, y });
            &&& !d.paused ==> sends(requests, d, Request::MotionAbsolute { pointer, x, y })
            &&& d.paused ==> requests.len() == 0
        }),
{
    first_devices_in_full(s.devices, i);
}

/// Relative motion goes by the same distance through the first relative pointer, whenever
/// that device is resumed, and otherwise not at all.
pub proof fn relative_motion_in_full(s: ContextView, i: int, pointer: u64, x: i16, y: i16)
    requires
        0 <= i < s.devices.len(),
        s.devices[i].interfaces.pointer == Some(pointer),
        forall|j: int| 0 <= j < i ==> (#[trigger] s.devices[j]).interfaces.pointer is None,
    ensures
        ({
            let d = s.devices[i];
            let requests = message_requests(s, Message::MouseRelativeMove { x, y });
            &&& !d.paused ==> sends(requests, d, Request::MotionRelative { pointer, x, y })
            &&& d.paused ==> requests.len() == 0
        }),
{
    first_devices_in_full(s.devices, i);
}

/// Whether a device is the first one that has a keyboard, which is the given object.
pub open spec fn is_first_keyboard(s: ContextView, i: int, keyboard: u64) -> bool {
    &&& 0 <= i < s.devices.len()
    &&& s.devices[i].interfaces.keyboard == Some(keyboard)
    &&& forall|j: int| 0 <= j < i ==> (#[trigger] s.devices[j]).interfaces.keyboard is None
}

/// The X11 keysym of a key that the server names.
pub open spec fn keysym_of(keyid: u16) -> u32 {
    if 61408 <= keyid <= 61423 {
        (keyid + 4096) as u32
    } else {
        keyid as u32
    }
}

/// A key goes through the first keyboard, down with every press and repetition and up with
/// the release, as the key that the keymap gives for its keysym, counted from 0 instead of
/// 8. It does so whenever that device is resumed and its keymap gives one, and otherwise
/// not at all. Modifiers, languages, counts and buttons play no role.
pub proof fn keys_in_full(
    s: ContextView,
    i: int,
    keyboard: u64,
    keyid: u16,
    mask: u16,
    count: u16,
    button: u16,
    lang: String,
)
    requires
        s.wf(),
        is_first_keyboard(s, i, keyboard),
    ensures
        ({
            let d = s.devices[i];
            let down = message_requests(s, Message::KeyDown { keyid, mask, button });
            let spoken = message_requests(
                s,
                Message::KeyDownWithLanguage { keyid, mask, button, lang },
            );
            let held = message_requests(s, Message::KeyRepeat { keyid, mask, count, button, lang });
            let up = message_requests(s, Message::KeyUp { keyid, mask, button });
            match d.keymap {
                Some(map) => match simplest_combination(map, keysym_of(keyid)) {
                    Some(c) if !d.paused => {
                        let key = (c.keycode - 8) as u32;
                        let press = Request::Key { interface: keyboard, key, state: KeyState::Press };
                        let release = Request::Key {
                            interface: keyboard,
                            key,
                            state: KeyState::Released,
                        };
                        &&& key == c.keycode - 8
                        &&& sends(down, d, press)
                        &&& sends(spoken, d, press)
                        &&& sends(held, d, press)
                        &&& sends(up, d, release)
                    },
                    _ => down.len() == 0 && spoken.len() == 0 && held.len() == 0 && up.len() == 0,
                },
                None => down.len() == 0 && spoken.len() == 0 && held.len() == 0 && up.len() == 0,
            }
        }),
{
    first_devices_in_full(s.devices, i);
    if let Some(map) = s.devices[i].keymap {
        simplest_has_x11_keycode(map, keysym_of(keyid));
    }
}

/// Where no device can send an input, nothing is sent.
pub proof fn missing_devices_send_nothing(
    s: ContextView,
    x: i16,
    y: i16,
    keyid: u16,
    mask: u16,
    count: u16,
    button: u16,
    number: u8,
    lang: String,
)
    ensures
        (forall|j: int| 0 <= j < s.devices.len() ==> !points(#[trigger] s.devices[j])) ==> {
            &&& message_requests(s, Message::MouseButtonDown { button: number }).len() == 0
            &&& message_requests(s, Message::MouseButtonUp { button: number }).len() == 0
            &&& message_requests(s, Message::MouseWheel { xdelta: x, ydelta: y }).len() == 0
        },
        (forall|j: int|
            0 <= j < s.devices.len() ==> (#[trigger] s.devices[j]).interfaces.pointer_absolute
                is None) ==> message_requests(s, Message::MouseMove { x, y }).len() == 0,
        (forall|j: int|
            0 <= j < s.devices.len() ==> (#[trigger] s.devices[j]).interfaces.pointer is None)
            ==> message_requests(s, Message::MouseRelativeMove { x, y }).len() == 0,
        (forall|j: int|
            0 <= j < s.devices.len() ==> (#[trigger] s.devices[j]).interfaces.keyboard is None)
            ==> {
            &&& message_requests(s, Message::KeyDown { keyid, mask, button }).len() == 0
            &&& message_requests(s, Message::KeyDownWithLanguage { keyid, mask, button, lang }).len()
                == 0
            &&& message_requests(s, Message::KeyRepeat { keyid, mask, count, button, lang }).len()
                == 0
            &&& message_requests(s, Message::KeyUp { keyid, mask, button }).len() == 0
        },
{
    missing_devices_are_not_found(s.devices);
}

/// When the cursor enters, emulation starts on every device, with the sequence number of
/// the entering, and when it leaves, emulation stops on every device; then all is sent.
/// Without devices there is nothing to start.
pub proof fn crossings_in_full(s: ContextView, x: i16, y: i16, sequence: u32, mask: u16)
    ensures
        ({
            let start = message_requests(s, Message::CursorEntered { x, y, sequence, mask });
            let stop = message_requests(s, Message::CursorLeft);
            &&& s.devices.len() == 0 ==> start.len() == 0
            &&& s.devices.len() > 0 ==> {
                &&& start.len() == s.devices.len() + 1
                &&& start.last() is Flush
                &&& forall|i: int|
                    0 <= i < s.devices.len() ==> #[trigger] start[i] == (Request::StartEmulating {
                        device: s.devices[i].device,
                        last_serial: 0,
                        sequence,
                    })
            }
            &&& stop.len() == s.devices.len() + 1
            &&& stop.last() is Flush
            &&& forall|i: int|
                0 <= i < s.devices.len() ==> #[trigger] stop[i] == (Request::StopEmulating {
                    device: s.devices[i].device,
                    last_serial: 0,
                })
        }),
{
}

/// Messages that are no input lead to no requests.
pub proof fn other_messages_send_nothing(s: ContextView, message: Message)
    requires
        message is ScreenSaverChange || message is ResetOptions || message is KeepAlive
            || message is ClientClipboard || message is ClipboardData || message is Other,
    ensures
        message_requests(s, message).len() == 0,
{
}

/// A keyboard works from end to end. A device is announced and named, tells of its keyboard
/// and its keymap, which compiles, and is completed and resumed; no other device is being
/// configured, and none before it has a keyboard. Then every keysym that some keycode
/// produces with some modifiers under the keymap is sent as such a keycode: pressed when
/// the key goes down and released when it goes up.
pub proof fn keyboard_works_from_end_to_end(
    states: Seq<ContextView>,
    seat: u64,
    device: u64,
    keyboard: u64,
    name: String,
    interface: String,
    text: Vec<u8>,
) -> (keysyms: Map<(u32, u32, u32), u32>)
    requires
        states.len() == 7,
        states[0].wf(),
        states[0].pending.len() == 0,
        forall|j: int|
            0 <= j < states[0].devices.len() ==> (#[trigger] states[0].devices[j]).interfaces.keyboard
                is None,
        interface@ == "ei_keyboard"@,
        compiler::compilations(text@) != Set::<Map<(u32, u32, u32), u32>>::empty(),
        follows_event(
            states[0],
            Event::Seat { seat, event: SeatEvent::Device { device } },
            states[1],
        ),
        follows_event(
            states[1],
            Event::Device { device, event: DeviceEvent::Name { name } },
            states[2],
        ),
        follows_event(
            states[2],
            Event::Device { device, event: DeviceEvent::Interface { interface, object: keyboard } },
            states[3],
        ),
        follows_event(
            states[3],
            Event::Keyboard { event: KeyboardEvent::Keymap { text: Some(text) } },
            states[4],
        ),
        follows_event(states[4], Event::Device { device, event: DeviceEvent::Done }, states[5]),
        follows_event(states[5], Event::Device { device, event: DeviceEvent::Resumed }, states[6]),
    ensures
        compiler::compilations(text@).contains(keysyms),
        forall|keyid: u16, mask: u16, button: u16, keycode: u32, modifiers: u32|
            keyid != 0 && 8 <= keycode <= 255 && modifiers <= 255
                && #[trigger] keysyms.contains_pair(
                (0, modifiers, keycode),
                keysym_of(keyid),
            ) ==> #[trigger] works(states[6], device, keyboard, keysyms, keyid, mask, button),
{
    let last = states[0].devices.len() as int;
    announcement_in_full(states[0], device, 0);
    assert(states[1].pending.len() == 1);
    assert(states[1].pending[0] == states[1].pending.last());
    name_is_kept(states[1], name);
    interface_is_kept(states[2], interface, keyboard);
    keymap_is_learnt(states[3], KeyboardEvent::Keymap { text: Some(text) }, states[4]);
    let keysyms = choose|keysyms: Map<(u32, u32, u32), u32>| #[trigger]
        compiler::compilations(text@).contains(keysyms) && states[4].pending[0].keymap == Some(
            reverse(keysyms, searched()),
        );
    completion_in_full(states[4]);
    pausing_in_full(states[5], false);
    let s = states[6];
    let map = reverse(keysyms, searched());
    assert(s.devices[last] == s.devices.last());
    assert(s.devices[last].interfaces.keyboard == Some(keyboard));
    assert(s.devices[last].keymap == Some(map));
    assert forall|j: int| 0 <= j < last implies (#[trigger] s.devices[j]).interfaces.keyboard
        is None by {
        assert(s.devices.drop_last()[j] == states[5].devices.drop_last()[j]);
        assert(states[5].devices.drop_last()[j] == states[0].devices[j]);
    }
    first_devices_in_full(s.devices, last);
    assert forall|keyid: u16, mask: u16, button: u16, keycode: u32, modifiers: u32|
        keyid != 0 && 8 <= keycode <= 255 && modifiers <= 255 && #[trigger] keysyms.contains_pair(
            (0, modifiers, keycode),
            keysym_of(keyid),
        ) implies #[trigger] works(s, device, keyboard, keysyms, keyid, mask, button) by {
        lookup_in_full(keysyms, keysym_of(keyid), keycode, modifiers);
        let c = simplest_combination(map, keysym_of(keyid))->0;
        let down = message_requests(s, Message::KeyDown { keyid, mask, button });
        let up = message_requests(s, Message::KeyUp { keyid, mask, button });
        let key = (c.keycode - 8) as u32;
        assert(down[0] == (Request::Key { interface: keyboard, key, state: KeyState::Press }));
        assert(up[0] == (Request::Key { interface: keyboard, key, state: KeyState::Released }));
        assert(keysyms.contains_pair((0, c.modifiers, (key + 8) as u32), keysym_of(keyid)));
    }
    keysyms
}

/// Whether a key that the server names goes down and up through a keyboard as a key that
/// produces its keysym.
pub open spec fn works(
    s: ContextView,
    device: u64,
    keyboard: u64,
    keysyms: Map<(u32, u32, u32), u32>,
    keyid: u16,
    mask: u16,
    button: u16,
) -> bool {
    let down = message_requests(s, Message::KeyDown { keyid, mask, button });
    let up = message_requests(s, Message::KeyUp { keyid, mask, button });
    &&& down.len() == 3
    &&& up.len() == 3
    &&& down[0] matches Request::Key { interface, key, state }
    &&& interface == keyboard
    &&& state == KeyState::Press
    &&& up[0] == (Request::Key { interface, key, state: KeyState::Released })
    &&& down[1] == (Request::Frame { device, last_serial: 0 })
    &&& up[1] == down[1]
    &&& down[2] is Flush
    &&& up[2] is Flush
    &&& exists|m: u32|
        m <= 255 && #[trigger] keysyms.contains_pair((0, m, (key + 8) as u32), keysym_of(keyid))
}

/// A message is answered with the requests that it leads to under what is known of the
/// connection.
pub proof fn messages_are_answered(context: Context, message: Message, requests: Vec<Request>)
    requires
        call_ensures(handle_synergy_message, (&context, &message), requests),
    ensures
        requests@ == message_requests(context@, message),
{
}

/// Looking up a keysym gives the combination that is to be used for it.
pub proof fn keysyms_are_looked_up(
    processor: KeymapProcessor,
    keysym: u32,
    combination: Option<KeyCombination>,
)
    requires
        call_ensures(KeymapProcessor::lookup_keysym, (&processor, keysym), combination),
    ensures
        combination == simplest_combination(processor@, keysym),
{
}

} // verus!
