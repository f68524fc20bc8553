use schengen_client::ei::Context;
use schengen_client::event::{
    ConnectionEvent, DeviceEvent, Event, EventError, KeyboardEvent, PendingEvent, Request,
    SeatEvent,
};
use schengen_client::keymap::{KeyCombination, KeymapError, KeymapProcessor};
use schengen_client::region::{Region, SCALE_ONE};

fn seat(context: &mut Context, event: SeatEvent) -> Vec<Request> {
    context.handle_event(Event::Seat { seat: 2, event })
}

fn device(context: &mut Context, event: DeviceEvent) {
    let requests = context.handle_event(Event::Device { device: 3, event });
    assert!(requests.is_empty());
}

fn announce(context: &mut Context, id: u64, name: &str) {
    assert!(seat(context, SeatEvent::Device { device: id }).is_empty());
    device(context, DeviceEvent::Name { name: name.to_string() });
}

fn interface(context: &mut Context, interface: &str, object: u64) {
    device(context, DeviceEvent::Interface { interface: interface.to_string(), object });
}

fn region(context: &mut Context, offset_x: u32, offset_y: u32, width: u32, height: u32) {
    device(
        context,
        DeviceEvent::Region { offset_x, offset_y, width, height, scale_bits: SCALE_ONE },
    );
}

fn capability(context: &mut Context, interface: &str, mask: u64) {
    let event = SeatEvent::Capability { mask, interface: interface.to_string() };
    assert!(seat(context, event).is_empty());
}

#[test]
fn seat_is_bound_with_all_useful_capabilities() {
    let mut context = Context::new();
    capability(&mut context, "ei_keyboard", 0x01);
    capability(&mut context, "ei_pointer", 0x02);
    capability(&mut context, "ei_pointer_absolute", 0x04);
    capability(&mut context, "ei_button", 0x08);
    capability(&mut context, "ei_scroll", 0x10);
    capability(&mut context, "ei_touchscreen", 0x20);
    assert_eq!(
        seat(&mut context, SeatEvent::Done),
        vec![Request::Bind { seat: 2, capabilities: 0x1f }, Request::Flush]
    );
    context.seat_bound(2);
}

#[test]
fn later_capability_replaces_earlier_one() {
    let mut context = Context::new();
    capability(&mut context, "ei_keyboard", 0x01);
    capability(&mut context, "ei_keyboard", 0x40);
    assert_eq!(
        context.bind_to_seat(9),
        vec![Request::Bind { seat: 9, capabilities: 0x40 }, Request::Flush]
    );
}

#[test]
fn seat_without_useful_capabilities_is_not_bound() {
    let mut context = Context::new();
    capability(&mut context, "ei_touchscreen", 0x20);
    capability(&mut context, "ei_keyboard_", 0x40);
    assert!(seat(&mut context, SeatEvent::Done).is_empty());
}

#[test]
fn pings_are_answered() {
    let mut context = Context::new();
    let pong = vec![Request::PingDone { ping: 77, callback_data: 0 }, Request::Flush];
    let ping = ConnectionEvent::Ping { ping: 77 };
    assert_eq!(context.handle_event(Event::Connection { event: ping }), pong);
    assert_eq!(context.handle_event(Event::Pingpong { pingpong: 77 }), pong);
}

#[test]
fn other_events_are_ignored() {
    let mut context = Context::new();
    for event in [
        Event::Handshake,
        Event::Callback,
        Event::Other,
        Event::Connection { event: ConnectionEvent::Seat },
        Event::Connection { event: ConnectionEvent::Disconnected },
        Event::Connection { event: ConnectionEvent::InvalidObject },
        Event::Connection { event: ConnectionEvent::Other },
        Event::Seat { seat: 2, event: SeatEvent::Name },
        Event::Seat { seat: 2, event: SeatEvent::Destroyed },
        Event::Seat { seat: 2, event: SeatEvent::Other },
        Event::Device { device: 3, event: DeviceEvent::DeviceType },
        Event::Device { device: 3, event: DeviceEvent::Other },
        Event::Device { device: 3, event: DeviceEvent::Done },
        Event::Device { device: 3, event: DeviceEvent::Resumed },
        Event::Device { device: 3, event: DeviceEvent::Paused },
        Event::Device { device: 3, event: DeviceEvent::Destroyed },
        Event::Keyboard { event: KeyboardEvent::Other },
        Event::Keyboard { event: KeyboardEvent::Keymap { text: None } },
    ] {
        assert!(context.handle_event(event).is_empty());
        assert_eq!(context.device_count(), 0);
    }
}

#[test]
fn broken_messages_are_errors() {
    let mut context = Context::new();
    assert!(matches!(
        context.process_event(PendingEvent::InvalidObject { id: 5 }),
        Err(EventError::InvalidObject { id: 5 })
    ));
    assert!(matches!(
        context.process_event(PendingEvent::ParseError { reason: "short".to_string() }),
        Err(EventError::ParseError { reason }) if reason == "short"
    ));
    let event = Event::Pingpong { pingpong: 1 };
    assert_eq!(context.process_event(PendingEvent::Event { event }).unwrap().len(), 2);
}

#[test]
fn device_is_configured_step_by_step() {
    let mut context = Context::new();
    announce(&mut context, 30, "virtual");
    interface(&mut context, "ei_pointer", 31);
    interface(&mut context, "ei_pointer_absolute", 32);
    interface(&mut context, "ei_keyboard", 33);
    interface(&mut context, "ei_button", 34);
    interface(&mut context, "ei_scroll", 35);
    interface(&mut context, "ei_touchscreen", 36);
    region(&mut context, 1, 2, 3, 4);
    assert_eq!(context.device_count(), 0);
    device(&mut context, DeviceEvent::Done);
    assert_eq!(context.device_count(), 1);
    let info = context.device(0);
    assert_eq!(info.device, 30);
    assert_eq!(info.name, "virtual");
    assert!(info.paused);
    assert_eq!(info.interfaces.pointer, Some(31));
    assert_eq!(info.interfaces.pointer_absolute, Some(32));
    assert_eq!(info.interfaces.keyboard, Some(33));
    assert_eq!(info.interfaces.button, Some(34));
    assert_eq!(info.interfaces.scroll, Some(35));
    assert_eq!(
        info.regions,
        vec![Region { x: 1, y: 2, width: 3, height: 4, scale_bits: SCALE_ONE }]
    );
    assert!(info.keymap.is_none());
}

#[test]
fn device_without_a_name_is_dropped() {
    let mut context = Context::new();
    seat(&mut context, SeatEvent::Device { device: 30 });
    device(&mut context, DeviceEvent::Done);
    assert_eq!(context.device_count(), 0);
    // It is not pending any more either.
    device(&mut context, DeviceEvent::Name { name: "late".to_string() });
    device(&mut context, DeviceEvent::Done);
    assert_eq!(context.device_count(), 0);
}

#[test]
fn devices_are_completed_in_the_order_of_their_announcement() {
    let mut context = Context::new();
    announce(&mut context, 30, "first");
    seat(&mut context, SeatEvent::Device { device: 40 });
    // An announcement of the same device starts it anew, at the same place.
    seat(&mut context, SeatEvent::Device { device: 30 });
    device(&mut context, DeviceEvent::Name { name: "first again".to_string() });
    device(&mut context, DeviceEvent::Done);
    device(&mut context, DeviceEvent::Name { name: "second".to_string() });
    device(&mut context, DeviceEvent::Done);
    assert_eq!(context.device_count(), 2);
    assert_eq!(context.device(0).name, "first again");
    assert_eq!(context.device(0).device, 30);
    assert_eq!(context.device(1).name, "second");
    assert_eq!(context.device(1).device, 40);
}

#[test]
fn last_device_is_resumed_and_paused() {
    let mut context = Context::new();
    announce(&mut context, 30, "keyboard");
    interface(&mut context, "ei_keyboard", 31);
    device(&mut context, DeviceEvent::Done);
    assert!(!context.has_keyboard());
    device(&mut context, DeviceEvent::Resumed);
    assert!(context.has_keyboard());
    assert!(!context.has_pointer());
    announce(&mut context, 40, "pointer");
    interface(&mut context, "ei_pointer_absolute", 41);
    device(&mut context, DeviceEvent::Done);
    assert!(!context.has_pointer());
    device(&mut context, DeviceEvent::Resumed);
    assert!(context.has_keyboard());
    assert!(context.has_pointer());
    device(&mut context, DeviceEvent::Paused);
    assert!(context.has_keyboard());
    assert!(!context.has_pointer());
    device(&mut context, DeviceEvent::Resumed);
    assert!(context.has_pointer());
}

#[test]
fn relative_pointer_is_a_pointer() {
    let mut context = Context::new();
    announce(&mut context, 30, "pointer");
    interface(&mut context, "ei_pointer", 31);
    device(&mut context, DeviceEvent::Done);
    device(&mut context, DeviceEvent::Resumed);
    assert!(context.has_pointer());
    assert!(context.get_pointer_device().is_some());
    assert!(context.get_relative_pointer_device().is_some());
    assert!(context.get_absolute_pointer_device().is_none());
    assert!(context.get_keyboard_device().is_none());
}

#[test]
fn destroying_removes_the_last_device_and_the_pending_ones() {
    let mut context = Context::new();
    announce(&mut context, 30, "one");
    device(&mut context, DeviceEvent::Done);
    announce(&mut context, 40, "two");
    device(&mut context, DeviceEvent::Done);
    announce(&mut context, 50, "three");
    device(&mut context, DeviceEvent::Destroyed);
    assert_eq!(context.device_count(), 1);
    assert_eq!(context.device(0).name, "one");
    device(&mut context, DeviceEvent::Done);
    assert_eq!(context.device_count(), 1);
}

#[test]
fn screen_without_regions_is_the_default() {
    let mut context = Context::new();
    assert!(context.regions_fit());
    assert_eq!(context.get_screen_dimensions(), (0, 0, 1920, 1080));
    announce(&mut context, 30, "keyboard");
    device(&mut context, DeviceEvent::Done);
    assert_eq!(context.get_screen_dimensions(), (0, 0, 1920, 1080));
}

#[test]
fn screen_is_the_bounding_box_of_all_regions() {
    let mut context = Context::new();
    announce(&mut context, 30, "left");
    region(&mut context, 100, 50, 800, 600);
    region(&mut context, 900, 20, 100, 10);
    device(&mut context, DeviceEvent::Done);
    announce(&mut context, 40, "right");
    region(&mut context, 2000, 500, 1000, 1000);
    device(&mut context, DeviceEvent::Done);
    assert!(context.regions_fit());
    assert_eq!(context.get_screen_dimensions(), (100, 20, 2900, 1480));
}

#[test]
fn dimensions_count_without_regions() {
    let mut context = Context::new();
    announce(&mut context, 30, "sized");
    device(&mut context, DeviceEvent::Dimensions { width: 640, height: 480 });
    device(&mut context, DeviceEvent::Dimensions { width: 1, height: 1 });
    device(&mut context, DeviceEvent::Done);
    assert_eq!(
        context.device(0).regions,
        vec![Region { x: 0, y: 0, width: 640, height: 480, scale_bits: SCALE_ONE }]
    );
    assert_eq!(f32::from_bits(SCALE_ONE), 1.0);
    assert_eq!(context.get_screen_dimensions(), (0, 0, 640, 480));
}

#[test]
fn large_screens_are_cut_to_the_protocol() {
    let mut context = Context::new();
    announce(&mut context, 30, "large");
    region(&mut context, 0x1_0005, 0x2_0000, 0x1_0000, 0xffff);
    device(&mut context, DeviceEvent::Done);
    assert_eq!(context.get_screen_dimensions(), (5, 0, 0xffff, 0xffff));
}

#[test]
fn regions_outside_the_coordinate_range_are_noticed() {
    let mut context = Context::new();
    announce(&mut context, 30, "beyond");
    region(&mut context, 1, 0, u32::MAX, 1);
    device(&mut context, DeviceEvent::Done);
    assert!(!context.regions_fit());

    let mut context = Context::new();
    announce(&mut context, 30, "edge");
    region(&mut context, u32::MAX, 0, 0, 1);
    device(&mut context, DeviceEvent::Done);
    assert!(context.regions_fit());
    assert_eq!(context.get_screen_dimensions(), (0xffff, 0, 0, 1));
}

const MAP: &str = "xkb_keymap { xkb_keycodes { <a> = 38; }; xkb_symbols { key <a> { [ a ] }; }; };";

#[test]
fn keymap_goes_to_the_pending_device() {
    let mut context = Context::new();
    let keymap = || Event::Keyboard {
        event: KeyboardEvent::Keymap { text: Some(MAP.as_bytes().to_vec()) },
    };
    // Nobody is there to take it.
    assert!(context.handle_event(keymap()).is_empty());
    announce(&mut context, 30, "keyboard");
    assert!(context.handle_event(keymap()).is_empty());
    // One that does not compile changes nothing.
    let broken = KeyboardEvent::Keymap { text: Some(b"broken".to_vec()) };
    assert!(context.handle_event(Event::Keyboard { event: broken }).is_empty());
    device(&mut context, DeviceEvent::Done);
    let keymap = context.device(0).keymap.as_ref().unwrap();
    assert_eq!(keymap.lookup_keysym(0x61), Some(KeyCombination { keycode: 38, modifiers: 0 }));
}

#[test]
fn keymap_is_attached_only_where_it_could_be_made() {
    let mut context = Context::new();
    announce(&mut context, 30, "keyboard");
    context.attach_keymap(Err(KeymapError::Parse));
    device(&mut context, DeviceEvent::Done);
    announce(&mut context, 40, "keyboard");
    context.attach_keymap(Ok(KeymapProcessor::empty()));
    device(&mut context, DeviceEvent::Done);
    assert!(context.device(0).keymap.is_none());
    assert!(context.device(1).keymap.is_some());
}

#[test]
fn regions_count_before_dimensions() {
    let mut context = Context::new();
    announce(&mut context, 30, "sized");
    region(&mut context, 7, 8, 9, 10);
    device(&mut context, DeviceEvent::Dimensions { width: 640, height: 480 });
    device(&mut context, DeviceEvent::Done);
    assert_eq!(
        context.device(0).regions,
        vec![Region { x: 7, y: 8, width: 9, height: 10, scale_bits: SCALE_ONE }]
    );
}
