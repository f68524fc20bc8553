//! Turning the messages of a Synergy server into requests for emulated input.

use vstd::prelude::*;

use crate::device::{DeviceInfo, DeviceView};
use crate::ei::{
    a_keyboard, a_pointer, a_relative_pointer, an_absolute_pointer, first_device, Context,
    ContextView,
};
use crate::event::{KeyState, Request};
use crate::keymap::{
    lookup_finds_every_keysym, lookup_inverts_keymap, produces, reverse, searched,
    searched_combinations, simplest_combination, simplest_has_x11_keycode, KeyCombination,
};
use crate::message::Message;

verus! {

/// The X11 keysym of a Synergy keysym: those of the modifier keys, 0xefe0 to 0xefef,
/// are 0x1000 lower than the standard ones.
pub open spec fn x11_keysym(synergy_keysym: u32) -> u32 {
    if 0xefe0 <= synergy_keysym <= 0xefef {
        (synergy_keysym + 0x1000) as u32
    } else {
        synergy_keysym
    }
}

/// Translates Synergy keysyms to standard X11 keysyms.
pub fn translate_synergy_keysym(synergy_keysym: u32) -> (keysym: u32)
    ensures
        keysym == x11_keysym(synergy_keysym),
{
    if 0xefe0 <= synergy_keysym && synergy_keysym <= 0xefef {
        synergy_keysym + 0x1000
    } else {
        synergy_keysym
    }
}

/// The Linux code of a Synergy button: 1 is the left one (`BTN_LEFT`), 2 the middle
/// one (`BTN_MIDDLE`), 3 the right one (`BTN_RIGHT`), and any other stays as it is.
pub open spec fn linux_button(button: u8) -> u32 {
    if button == 1 {
        0x110
    } else if button == 2 {
        0x112
    } else if button == 3 {
        0x111
    } else {
        button as u32
    }
}

/// Translates Synergy button numbers to Linux button codes.
pub fn button_code(button: u8) -> (code: u32)
    ensures
        code == linux_button(button),
{
    match button {
        1 => 0x110,
        2 => 0x112,
        3 => 0x111,
        _ => button as u32,
    }
}

/// The requests that send one input event: the event, the end of its frame, and a flush.
pub open spec fn framed(device: DeviceView, input: Request) -> Seq<Request> {
    seq![input, Request::Frame { device: device.device, last_serial: 0 }, Request::Flush]
}

/// The requests that send input through a device: none where there is no device, it is
/// paused, or it cannot send the input.
pub open spec fn input_requests(
    device: Option<DeviceView>,
    input: spec_fn(DeviceView) -> Option<Request>,
) -> Seq<Request> {
    match device {
        Some(d) => match input(d) {
            Some(request) if !d.paused => framed(d, request),
            _ => Seq::empty(),
        },
        None => Seq::empty(),
    }
}

/// The input that moves an absolute pointer.
pub open spec fn motion_input(d: DeviceView, x: i16, y: i16) -> Option<Request> {
    match d.interfaces.pointer_absolute {
        Some(pointer) => Some(Request::MotionAbsolute { pointer, x, y }),
        None => None,
    }
}

/// The input that moves a relative pointer.
pub open spec fn relative_input(d: DeviceView, x: i16, y: i16) -> Option<Request> {
    match d.interfaces.pointer {
        Some(pointer) => Some(Request::MotionRelative { pointer, x, y }),
        None => None,
    }
}

/// The input that presses or releases a mouse button.
pub open spec fn button_input(d: DeviceView, button: u8, state: KeyState) -> Option<Request> {
    match d.interfaces.button {
        Some(interface) => Some(
            Request::Button { interface, button: linux_button(button), state },
        ),
        None => None,
    }
}

/// The input that scrolls vertically.
pub open spec fn scroll_input(d: DeviceView, ydelta: i16) -> Option<Request> {
    match d.interfaces.scroll {
        Some(interface) => Some(Request::Scroll { interface, x: 0, y: ydelta }),
        None => None,
    }
}

/// The input that presses or releases the key that produces a Synergy keysym. The keymap
/// gives an X11 keycode; the evdev keycode is 8 lower.
pub open spec fn key_input(d: DeviceView, keyid: u16, state: KeyState) -> Option<Request> {
    match (d.interfaces.keyboard, d.keymap) {
        (Some(interface), Some(map)) => match simplest_combination(map, x11_keysym(keyid as u32)) {
            Some(combination) => Some(
                Request::Key { interface, key: (combination.keycode - 8) as u32, state },
            ),
            None => None,
        },
        _ => None,
    }
}

/// The requests that send a key event through the first keyboard.
pub open spec fn key_requests(s: ContextView, keyid: u16, state: KeyState) -> Seq<Request> {
    input_requests(
        first_device(s.devices, a_keyboard()),
        |d: DeviceView| key_input(d, keyid, state),
    )
}

/// The requests that send a button event through the first pointer.
pub open spec fn button_requests(s: ContextView, button: u8, state: KeyState) -> Seq<Request> {
    input_requests(
        first_device(s.devices, a_pointer()),
        |d: DeviceView| button_input(d, button, state),
    )
}

/// The requests that a message leads to.
pub open spec fn message_requests(s: ContextView, message: Message) -> Seq<Request> {
    match message {
        Message::CursorEntered { x, y, sequence, mask } => if s.devices.len() == 0 {
            Seq::empty()
        } else {
            s.devices.map_values(
                |d: DeviceView|
                    Request::StartEmulating { device: d.device, last_serial: 0, sequence },
            ).push(Request::Flush)
        },
        Message::CursorLeft => s.devices.map_values(
            |d: DeviceView| Request::StopEmulating { device: d.device, last_serial: 0 },
        ).push(Request::Flush),
        Message::MouseMove { x, y } => input_requests(
            first_device(s.devices, an_absolute_pointer()),
            |d: DeviceView| motion_input(d, x, y),
        ),
        Message::MouseRelativeMove { x, y } => input_requests(
            first_device(s.devices, a_relative_pointer()),
            |d: DeviceView| relative_input(d, x, y),
        ),
        Message::MouseButtonDown { button } => button_requests(s, button, KeyState::Press),
        Message::MouseButtonUp { button } => button_requests(s, button, KeyState::Released),
        Message::MouseWheel { xdelta, ydelta } => input_requests(
            first_device(s.devices, a_pointer()),
            |d: DeviceView| scroll_input(d, ydelta),
        ),
        Message::KeyDown { keyid, mask, button } => key_requests(s, keyid, KeyState::Press),
        Message::KeyDownWithLanguage { keyid, mask, button, lang } => key_requests(
            s,
            keyid,
            KeyState::Press,
        ),
        Message::KeyUp { keyid, mask, button } => key_requests(s, keyid, KeyState::Released),
        Message::KeyRepeat { keyid, mask, count, button, lang } => key_requests(
            s,
            keyid,
            KeyState::Press,
        ),
        _ => Seq::empty(),
    }
}

/// The first device that is found is one of the devices, and it is wanted.
proof fn lemma_first_device(devices: Seq<DeviceView>, wanted: spec_fn(DeviceView) -> bool)
    ensures
        first_device(devices, wanted) matches Some(d) ==> devices.contains(d) && wanted(d),
    decreases devices.len(),
{
    if devices.len() > 0 && !wanted(devices[0]) {
        let rest = devices.drop_first();
        lemma_first_device(rest, wanted);
        if let Some(d) = first_device(rest, wanted) {
            let i = choose|i: int| 0 <= i < rest.len() && rest[i] == d;
            assert(devices[i + 1] == d);
        }
    }
}

/// Sends one input event through a device.
fn send_input(device: &DeviceInfo, input: Request) -> (requests: Vec<Request>)
    ensures
        requests@ == framed(device@, input),
{
    let mut requests: Vec<Request> = Vec::new();
    requests.push(input);
    requests.push(Request::Frame { device: device.device, last_serial: 0 });
    requests.push(Request::Flush);
    assert(requests@ =~= framed(device@, input));
    requests
}

/// Presses or releases a mouse button.
fn send_button(context: &Context, button: u8, state: KeyState) -> (requests: Vec<Request>)
    ensures
        requests@ == button_requests(context@, button, state),
{
    if let Some(device) = context.get_pointer_device() {
        if !device.paused {
            if let Some(interface) = device.interfaces.button {
                let button = button_code(button);
                return send_input(device, Request::Button { interface, button, state });
            }
        }
    }
    Vec::new()
}

/// Presses or releases the key that produces a Synergy keysym.
fn send_key(context: &Context, keyid: u16, state: KeyState) -> (requests: Vec<Request>)
    requires
        context.wf(),
    ensures
        requests@ == key_requests(context@, keyid, state),
{
    if let Some(device) = context.get_keyboard_device() {
        if !device.paused {
            if let (Some(interface), Some(keymap)) = (device.interfaces.keyboard, &device.keymap) {
                let keysym = translate_synergy_keysym(keyid as u32);
                if let Some(combination) = keymap.lookup_keysym(keysym) {
                    proof {
                        lemma_first_device(context@.devices, a_keyboard());
                        simplest_has_x11_keycode(keymap@, keysym);
                    }
                    let key: u32 = combination.keycode - 8;
                    return send_input(device, Request::Key { interface, key, state });
                }
            }
        }
    }
    Vec::new()
}

/// Handles a message of a Synergy server: the requests that turn it into emulated input.
pub fn handle_synergy_message(context: &Context, message: &Message) -> (requests: Vec<Request>)
    requires
        context.wf(),
    ensures
        requests@ == message_requests(context@, *message),
{
    match message {
        Message::CursorEntered { x: _, y: _, sequence, mask: _ } => {
            let mut requests: Vec<Request> = Vec::new();
            if context.device_count() > 0 {
                let mut i: usize = 0;
                while i < context.device_count()
                    invariant
                        i <= context@.devices.len(),
                        requests@.len() == i,
                        forall|j: int|
                            0 <= j < i ==> #[trigger] requests@[j] == (Request::StartEmulating {
                                device: context@.devices[j].device,
                                last_serial: 0,
                                sequence: *sequence,
                            }),
                    decreases context@.devices.len() - i,
                {
                    let device = context.device(i).device;
                    requests.push(
                        Request::StartEmulating { device, last_serial: 0, sequence: *sequence },
                    );
                    i = i + 1;
                }
                requests.push(Request::Flush);
            }
            assert(requests@ =~= message_requests(context@, *message));
            requests
        },
        Message::CursorLeft => {
            let mut requests: Vec<Request> = Vec::new();
            let mut i: usize = 0;
            while i < context.device_count()
                invariant
                    i <= context@.devices.len(),
                    requests@.len() == i,
                    forall|j: int|
                        0 <= j < i ==> #[trigger] requests@[j] == (Request::StopEmulating {
                            device: context@.devices[j].device,
                            last_serial: 0,
                        }),
                decreases context@.devices.len() - i,
            {
                let device = context.device(i).device;
                requests.push(Request::StopEmulating { device, last_serial: 0 });
                i = i + 1;
            }
            requests.push(Request::Flush);
            assert(requests@ =~= message_requests(context@, *message));
            requests
        },
        Message::MouseMove { x, y } => {
            if let Some(device) = context.get_absolute_pointer_device() {
                if !device.paused {
                    if let Some(pointer) = device.interfaces.pointer_absolute {
                        return send_input(
                            device,
                            Request::MotionAbsolute { pointer, x: *x, y: *y },
                        );
                    }
                }
            }
            Vec::new()
        },
        Message::MouseRelativeMove { x, y } => {
            if let Some(device) = context.get_relative_pointer_device() {
                if !device.paused {
                    if let Some(pointer) = device.interfaces.pointer {
                        return send_input(
                            device,
                            Request::MotionRelative { pointer, x: *x, y: *y },
                        );
                    }
                }
            }
            Vec::new()
        },
        Message::MouseButtonDown { button } => send_button(context, *button, KeyState::Press),
        Message::MouseButtonUp { button } => send_button(context, *button, KeyState::Released),
        Message::MouseWheel { xdelta: _, ydelta } => {
            if let Some(device) = context.get_pointer_device() {
                if !device.paused {
                    if let Some(interface) = device.interfaces.scroll {
                        return send_input(
                            device,
                            Request::Scroll { interface, x: 0, y: *ydelta },
                        );
                    }
                }
            }
            Vec::new()
        },
        Message::KeyDown { keyid, mask: _, button: _ } => send_key(
            context,
            *keyid,
            KeyState::Press,
        ),
        Message::KeyDownWithLanguage { keyid, mask: _, button: _, lang: _ } => send_key(
            context,
            *keyid,
            KeyState::Press,
        ),
        Message::KeyUp { keyid, mask: _, button: _ } => send_key(
            context,
            *keyid,
            KeyState::Released,
        ),
        Message::KeyRepeat { keyid, mask: _, count: _, button: _, lang: _ } => send_key(
            context,
            *keyid,
            KeyState::Press,
        ),
        _ => Vec::new(),
    }
}

/// Translating a keysym twice is translating it once.
pub proof fn translation_is_idempotent(keysym: u32)
    ensures
        x11_keysym(x11_keysym(keysym)) == x11_keysym(keysym),
{
}

/// Whether a message starts or stops emulation, rather than being input itself.
pub open spec fn is_crossing(message: Message) -> bool {
    message is CursorEntered || message is CursorLeft
}

/// Input goes through one device only, which is not paused: it is one event, the end of
/// that device's frame, and a flush.
pub proof fn input_needs_a_resumed_device(s: ContextView, message: Message)
    requires
        !is_crossing(message),
        message_requests(s, message).len() > 0,
    ensures
        exists|i: int|
            0 <= i < s.devices.len() && !(#[trigger] s.devices[i]).paused && message_requests(
                s,
                message,
            ) == framed(s.devices[i], message_requests(s, message)[0]),
{
    lemma_first_device(s.devices, a_keyboard());
    lemma_first_device(s.devices, a_pointer());
    lemma_first_device(s.devices, an_absolute_pointer());
    lemma_first_device(s.devices, a_relative_pointer());
}

/// While all devices are paused, no input is sent.
pub proof fn paused_devices_send_no_input(s: ContextView, message: Message)
    requires
        !is_crossing(message),
        forall|i: int| 0 <= i < s.devices.len() ==> (#[trigger] s.devices[i]).paused,
    ensures
        message_requests(s, message) == Seq::<Request>::empty(),
{
    if message_requests(s, message).len() > 0 {
        input_needs_a_resumed_device(s, message);
    }
}

/// Whatever is requested is also sent: the last request is a flush, and no other is.
pub proof fn requests_end_with_a_flush(s: ContextView, message: Message, i: int)
    requires
        0 <= i < message_requests(s, message).len(),
    ensures
        message_requests(s, message)[i] is Flush <==> i == message_requests(s, message).len() - 1,
{
    if !is_crossing(message) {
        input_needs_a_resumed_device(s, message);
    }
}

/// A key goes up where it went down: the two requests differ in the state alone.
pub proof fn key_up_releases_what_key_down_pressed(
    s: ContextView,
    keyid: u16,
    mask: u16,
    button: u16,
)
    ensures
        ({
            let down = message_requests(s, Message::KeyDown { keyid, mask, button });
            let up = message_requests(s, Message::KeyUp { keyid, mask, button });
            &&& down.len() == up.len()
            &&& down.len() > 0 ==> {
                &&& down[0] matches Request::Key { interface, key, state }
                &&& state == KeyState::Press
                &&& up == down.update(0, Request::Key { interface, key, state: KeyState::Released })
            }
        }),
{
    let down = message_requests(s, Message::KeyDown { keyid, mask, button });
    let up = message_requests(s, Message::KeyUp { keyid, mask, button });
    if down.len() > 0 {
        if let Request::Key { interface, key, state } = down[0] {
            assert(up =~= down.update(0, Request::Key { interface, key, state: KeyState::Released }));
        }
    }
}

/// A held key is pressed again, and the language of a key press plays no role.
pub proof fn repeats_and_languages_press_the_same_key(
    s: ContextView,
    keyid: u16,
    mask: u16,
    count: u16,
    button: u16,
    lang: String,
)
    ensures
        message_requests(s, Message::KeyRepeat { keyid, mask, count, button, lang })
            == message_requests(s, Message::KeyDown { keyid, mask, button }),
        message_requests(s, Message::KeyDownWithLanguage { keyid, mask, button, lang })
            == message_requests(s, Message::KeyDown { keyid, mask, button }),
{
}

/// A mouse button goes up where it went down: the two requests differ in the state alone.
pub proof fn button_up_releases_what_button_down_pressed(s: ContextView, button: u8)
    ensures
        ({
            let down = message_requests(s, Message::MouseButtonDown { button });
            let up = message_requests(s, Message::MouseButtonUp { button });
            &&& down.len() == up.len()
            &&& down.len() > 0 ==> {
                &&& down[0] matches Request::Button { interface, button: code, state }
                &&& code == linux_button(button)
                &&& state == KeyState::Press
                &&& up == down.update(
                    0,
                    Request::Button { interface, button: code, state: KeyState::Released },
                )
            }
        }),
{
    let down = message_requests(s, Message::MouseButtonDown { button });
    let up = message_requests(s, Message::MouseButtonUp { button });
    if down.len() > 0 {
        if let Request::Button { interface, button: code, state } = down[0] {
            assert(up =~= down.update(
                0,
                Request::Button { interface, button: code, state: KeyState::Released },
            ));
        }
    }
}

/// A key that is sent has an evdev keycode that an X11 keycode corresponds to.
pub proof fn keys_are_evdev_keycodes(s: ContextView, keyid: u16, state: KeyState)
    requires
        s.wf(),
        key_requests(s, keyid, state).len() > 0,
    ensures
        key_requests(s, keyid, state)[0] matches Request::Key { interface, key, state } && key
            < 248,
{
    lemma_first_device(s.devices, a_keyboard());
    let d = first_device(s.devices, a_keyboard())->0;
    simplest_has_x11_keycode(d.keymap->0, x11_keysym(keyid as u32));
}

/// A key that is sent through a device with the reverse mapping of a keymap produces,
/// under that keymap and with some modifiers, the keysym that was asked for.
pub proof fn sent_key_produces_the_keysym(
    s: ContextView,
    keysyms: Map<(u32, u32, u32), u32>,
    keyid: u16,
    state: KeyState,
)
    requires
        first_device(s.devices, a_keyboard()) matches Some(d) && d.keymap == Some(
            reverse(keysyms, searched()),
        ),
        key_requests(s, keyid, state).len() > 0,
    ensures
        key_requests(s, keyid, state)[0] matches Request::Key { interface, key, state: sent }
            && sent == state && exists|modifiers: u32|
            modifiers < 256 && #[trigger] produces(
                keysyms,
                KeyCombination { keycode: (key + 8) as u32, modifiers },
                x11_keysym(keyid as u32),
            ),
{
    let combination = simplest_combination(
        reverse(keysyms, searched()),
        x11_keysym(keyid as u32),
    )->0;
    lookup_inverts_keymap(keysyms, x11_keysym(keyid as u32), combination);
    searched_combinations(combination);
    let key = key_requests(s, keyid, state)[0]->key;
    assert(key == combination.keycode - 8);
    assert(produces(
        keysyms,
        KeyCombination { keycode: (key + 8) as u32, modifiers: combination.modifiers },
        x11_keysym(keyid as u32),
    ));
}

/// A key is sent whenever the first keyboard is resumed and a searched combination
/// produces the keysym that was asked for.
pub proof fn producible_keysym_is_sent(
    s: ContextView,
    keysyms: Map<(u32, u32, u32), u32>,
    combination: KeyCombination,
    keyid: u16,
    state: KeyState,
)
    requires
        first_device(s.devices, a_keyboard()) matches Some(d) && !d.paused && d.keymap == Some(
            reverse(keysyms, searched()),
        ),
        keyid != 0,
        searched().contains(combination),
        produces(keysyms, combination, x11_keysym(keyid as u32)),
    ensures
        key_requests(s, keyid, state).len() > 0,
{
    lemma_first_device(s.devices, a_keyboard());
    lookup_finds_every_keysym(keysyms, x11_keysym(keyid as u32), combination);
}

/// Motion is forwarded whenever the first device that can move that way is resumed:
/// absolute motion through an absolute pointer, relative motion through a relative one.
pub proof fn motion_is_forwarded(s: ContextView, d: DeviceView, x: i16, y: i16)
    requires
        !d.paused,
    ensures
        first_device(s.devices, an_absolute_pointer()) == Some(d) ==> message_requests(
            s,
            Message::MouseMove { x, y },
        ) == framed(
            d,
            Request::MotionAbsolute { pointer: d.interfaces.pointer_absolute->0, x, y },
        ),
        first_device(s.devices, a_relative_pointer()) == Some(d) ==> message_requests(
            s,
            Message::MouseRelativeMove { x, y },
        ) == framed(d, Request::MotionRelative { pointer: d.interfaces.pointer->0, x, y }),
{
    lemma_first_device(s.devices, an_absolute_pointer());
    lemma_first_device(s.devices, a_relative_pointer());
}

/// Emulation stops on the devices on which it starts: all of them, in the same order.
pub proof fn emulation_stops_where_it_starts(s: ContextView, x: i16, y: i16, sequence: u32, mask: u16)
    requires
        s.devices.len() > 0,
    ensures
        ({
            let start = message_requests(s, Message::CursorEntered { x, y, sequence, mask });
            let stop = message_requests(s, Message::CursorLeft);
            &&& start.len() == stop.len() == s.devices.len() + 1
            &&& forall|i: int|
                #![trigger s.devices[i]]
                0 <= i < s.devices.len() ==> start[i] == (Request::StartEmulating {
                    device: s.devices[i].device,
                    last_serial: 0,
                    sequence,
                }) && stop[i] == (Request::StopEmulating {
                    device: s.devices[i].device,
                    last_serial: 0,
                })
        }),
{
}

} // verus!
