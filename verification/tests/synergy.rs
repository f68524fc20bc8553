use schengen_client::ei::Context;
use schengen_client::event::{DeviceEvent, KeyState, Request, SeatEvent};
use schengen_client::keymap::{KeyCombination, KeymapProcessor};
use schengen_client::message::Message;
use schengen_client::session::{ClientEvent, LoopAction, LoopEvent, Session};
use schengen_client::synergy::{button_code, handle_synergy_message, translate_synergy_keysym};

/// Completes a device with the given interfaces.
fn complete(context: &mut Context, id: u64, interfaces: &[(&str, u64)], resumed: bool) {
    context.handle_seat_event(1, SeatEvent::Device { device: id });
    context.handle_device_event(DeviceEvent::Name { name: format!("device {}", id) });
    for (interface, object) in interfaces {
        context.handle_device_event(DeviceEvent::Interface {
            interface: interface.to_string(),
            object: *object,
        });
    }
    let mut keymap = KeymapProcessor::empty();
    keymap.record(Some(0x61), KeyCombination { keycode: 38, modifiers: 0 });
    keymap.record(Some(0x41), KeyCombination { keycode: 38, modifiers: 1 });
    keymap.record(Some(0xffe1), KeyCombination { keycode: 50, modifiers: 0 });
    keymap.record(Some(0xff1b), KeyCombination { keycode: 8, modifiers: 0 });
    context.attach_keymap(Ok(keymap));
    context.handle_device_event(DeviceEvent::Done);
    if resumed {
        context.handle_device_event(DeviceEvent::Resumed);
    }
}

const POINTER: &[(&str, u64)] = &[
    ("ei_pointer", 11),
    ("ei_pointer_absolute", 12),
    ("ei_button", 13),
    ("ei_scroll", 14),
];

const KEYBOARD: &[(&str, u64)] = &[("ei_keyboard", 21)];

fn ready() -> Context {
    let mut context = Context::new();
    complete(&mut context, 10, POINTER, true);
    complete(&mut context, 20, KEYBOARD, true);
    context
}

fn framed(device: u64, input: Request) -> Vec<Request> {
    vec![input, Request::Frame { device, last_serial: 0 }, Request::Flush]
}

fn key(keyid: u16) -> [Message; 4] {
    [
        Message::KeyDown { keyid, mask: 0, button: 9 },
        Message::KeyDownWithLanguage { keyid, mask: 0, button: 9, lang: "en".to_string() },
        Message::KeyRepeat { keyid, mask: 0, count: 2, button: 9, lang: String::new() },
        Message::KeyUp { keyid, mask: 0, button: 9 },
    ]
}

#[test]
fn modifier_keysyms_are_translated() {
    assert_eq!(translate_synergy_keysym(0xefe1), 0xffe1);
    assert_eq!(translate_synergy_keysym(0xefe0), 0xffe0);
    assert_eq!(translate_synergy_keysym(0xefef), 0xffef);
    assert_eq!(translate_synergy_keysym(0xefdf), 0xefdf);
    assert_eq!(translate_synergy_keysym(0xeff0), 0xeff0);
    assert_eq!(translate_synergy_keysym(0xffe1), 0xffe1);
    assert_eq!(translate_synergy_keysym(0), 0);
    assert_eq!(translate_synergy_keysym(u32::MAX), u32::MAX);
    for keysym in 0xefd0..0xf000 {
        let once = translate_synergy_keysym(keysym);
        assert_eq!(translate_synergy_keysym(once), once);
    }
}

#[test]
fn buttons_are_translated() {
    assert_eq!(button_code(1), 0x110);
    assert_eq!(button_code(2), 0x112);
    assert_eq!(button_code(3), 0x111);
    assert_eq!(button_code(0), 0);
    assert_eq!(button_code(4), 4);
    assert_eq!(button_code(255), 255);
}

#[test]
fn entering_starts_and_leaving_stops_emulation_everywhere() {
    let context = ready();
    let entered = Message::CursorEntered { x: 1, y: 2, sequence: 99, mask: 0 };
    assert_eq!(
        handle_synergy_message(&context, &entered),
        vec![
            Request::StartEmulating { device: 10, last_serial: 0, sequence: 99 },
            Request::StartEmulating { device: 20, last_serial: 0, sequence: 99 },
            Request::Flush,
        ]
    );
    assert_eq!(
        handle_synergy_message(&context, &Message::CursorLeft),
        vec![
            Request::StopEmulating { device: 10, last_serial: 0 },
            Request::StopEmulating { device: 20, last_serial: 0 },
            Request::Flush,
        ]
    );
}

#[test]
fn crossing_without_devices() {
    let context = Context::new();
    let entered = Message::CursorEntered { x: 1, y: 2, sequence: 99, mask: 0 };
    assert!(handle_synergy_message(&context, &entered).is_empty());
    assert_eq!(handle_synergy_message(&context, &Message::CursorLeft), vec![Request::Flush]);
}

#[test]
fn mouse_is_forwarded() {
    let context = ready();
    assert_eq!(
        handle_synergy_message(&context, &Message::MouseMove { x: -3, y: 700 }),
        framed(10, Request::MotionAbsolute { pointer: 12, x: -3, y: 700 })
    );
    assert_eq!(
        handle_synergy_message(&context, &Message::MouseRelativeMove { x: 4, y: -5 }),
        framed(10, Request::MotionRelative { pointer: 11, x: 4, y: -5 })
    );
    assert_eq!(
        handle_synergy_message(&context, &Message::MouseButtonDown { button: 3 }),
        framed(10, Request::Button { interface: 13, button: 0x111, state: KeyState::Press })
    );
    assert_eq!(
        handle_synergy_message(&context, &Message::MouseButtonUp { button: 3 }),
        framed(10, Request::Button { interface: 13, button: 0x111, state: KeyState::Released })
    );
    assert_eq!(
        handle_synergy_message(&context, &Message::MouseWheel { xdelta: 5, ydelta: -120 }),
        framed(10, Request::Scroll { interface: 14, x: 0, y: -120 })
    );
}

#[test]
fn keys_are_forwarded() {
    let context = ready();
    for message in key(0x61) {
        let state = if matches!(message, Message::KeyUp { .. }) {
            KeyState::Released
        } else {
            KeyState::Press
        };
        assert_eq!(
            handle_synergy_message(&context, &message),
            framed(20, Request::Key { interface: 21, key: 30, state })
        );
    }
    // A shifted keysym goes to the same key, a modifier to its own.
    assert_eq!(
        handle_synergy_message(&context, &key(0x41)[0])[0],
        Request::Key { interface: 21, key: 30, state: KeyState::Press }
    );
    assert_eq!(
        handle_synergy_message(&context, &key(0xefe1)[0])[0],
        Request::Key { interface: 21, key: 42, state: KeyState::Press }
    );
    assert_eq!(
        handle_synergy_message(&context, &key(0xff1b)[0])[0],
        Request::Key { interface: 21, key: 0, state: KeyState::Press }
    );
}

#[test]
fn unmapped_keys_are_not_sent() {
    let context = ready();
    for message in key(0x7a) {
        assert!(handle_synergy_message(&context, &message).is_empty());
    }
}

#[test]
fn keys_need_a_keymap() {
    let mut context = Context::new();
    context.handle_seat_event(1, SeatEvent::Device { device: 20 });
    context.handle_device_event(DeviceEvent::Name { name: "bare".to_string() });
    context.handle_device_event(DeviceEvent::Interface {
        interface: "ei_keyboard".to_string(),
        object: 21,
    });
    context.handle_device_event(DeviceEvent::Done);
    context.handle_device_event(DeviceEvent::Resumed);
    assert!(context.has_keyboard());
    for message in key(0x61) {
        assert!(handle_synergy_message(&context, &message).is_empty());
    }
}

fn inputs() -> Vec<Message> {
    let mut messages = vec![
        Message::MouseMove { x: 1, y: 1 },
        Message::MouseRelativeMove { x: 1, y: 1 },
        Message::MouseButtonDown { button: 1 },
        Message::MouseButtonUp { button: 1 },
        Message::MouseWheel { xdelta: 0, ydelta: 1 },
    ];
    messages.extend(key(0x61));
    messages
}

#[test]
fn paused_and_missing_devices_send_nothing() {
    let mut paused = Context::new();
    complete(&mut paused, 10, POINTER, false);
    complete(&mut paused, 20, KEYBOARD, false);
    let empty = Context::new();
    for message in inputs() {
        assert!(handle_synergy_message(&paused, &message).is_empty());
        assert!(handle_synergy_message(&empty, &message).is_empty());
    }
}

#[test]
fn first_device_decides_even_while_paused() {
    let mut context = Context::new();
    complete(&mut context, 10, POINTER, false);
    complete(&mut context, 20, KEYBOARD, false);
    complete(&mut context, 30, POINTER, true);
    complete(&mut context, 40, KEYBOARD, true);
    assert!(context.has_keyboard() && context.has_pointer());
    for message in inputs() {
        assert!(handle_synergy_message(&context, &message).is_empty());
    }
}

#[test]
fn pointer_without_the_needed_interface_sends_nothing() {
    let mut context = Context::new();
    complete(&mut context, 10, &[("ei_pointer_absolute", 12)], true);
    for message in inputs() {
        if matches!(message, Message::MouseMove { .. }) {
            continue;
        }
        assert!(handle_synergy_message(&context, &message).is_empty());
    }
}

#[test]
fn other_messages_are_ignored() {
    let context = ready();
    for message in [
        Message::ScreenSaverChange { state: 1 },
        Message::ResetOptions,
        Message::KeepAlive,
        Message::ClientClipboard { id: 0, sequence: 1 },
        Message::ClipboardData { id: 0, sequence: 1, mark: 0, data: "x".to_string() },
        Message::Other,
    ] {
        assert!(handle_synergy_message(&context, &message).is_empty());
    }
}

#[test]
fn events_of_the_server_become_input() {
    let context = ready();
    let mut session = Session::new();
    let mut requests = |event| match session.step(LoopEvent::Client { event }) {
        Ok(LoopAction::Forward { message }) => handle_synergy_message(&context, &message),
        Ok(LoopAction::Wait) => Vec::new(),
        other => panic!("{:?}", other),
    };
    let key = |state| framed(20, Request::Key { interface: 21, key: 30, state });
    assert_eq!(
        requests(ClientEvent::KeyDown { key: 0x61, mask: 0, button: 0 }),
        key(KeyState::Press)
    );
    assert_eq!(
        requests(ClientEvent::KeyRepeat { key: 0x61, mask: 0, count: 1, button: 0 }),
        key(KeyState::Press)
    );
    assert_eq!(
        requests(ClientEvent::KeyUp { key: 0x61, mask: 0, button: 0 }),
        key(KeyState::Released)
    );
    assert_eq!(
        requests(ClientEvent::MouseMove { x: 8, y: 9 }),
        framed(10, Request::MotionAbsolute { pointer: 12, x: 8, y: 9 })
    );
    assert_eq!(
        requests(ClientEvent::MouseWheel { horiz: 8, vert: 9 }),
        framed(10, Request::Scroll { interface: 14, x: 0, y: 9 })
    );
    assert_eq!(
        requests(ClientEvent::MouseRelativeMove { dx: -8, dy: 9 }),
        framed(10, Request::MotionRelative { pointer: 11, x: -8, y: 9 })
    );
    assert!(requests(ClientEvent::ScreenSaverChanged { active: true }).is_empty());
    assert!(requests(ClientEvent::ResetOptions).is_empty());
    assert!(requests(ClientEvent::Close).is_empty());
}

#[test]
fn motion_goes_through_the_pointer_of_its_kind() {
    let mut context = Context::new();
    complete(&mut context, 10, &[("ei_pointer_absolute", 12)], true);
    complete(&mut context, 30, &[("ei_pointer", 31)], true);
    assert_eq!(
        handle_synergy_message(&context, &Message::MouseMove { x: 1, y: 2 }),
        framed(10, Request::MotionAbsolute { pointer: 12, x: 1, y: 2 })
    );
    assert_eq!(
        handle_synergy_message(&context, &Message::MouseRelativeMove { x: 1, y: 2 }),
        framed(30, Request::MotionRelative { pointer: 31, x: 1, y: 2 })
    );
}
