use schengen_client::message::Message;
use schengen_client::session::{
    after_claim, offered_mime_types, select_mime_type, ClientEvent, LoopAction, LoopEvent,
    Session, SessionError,
};

fn forward(session: &mut Session, event: ClientEvent) -> Message {
    match session.step(LoopEvent::Client { event }) {
        Ok(LoopAction::Forward { message }) => message,
        other => panic!("{:?}", other),
    }
}

fn act(session: &mut Session, event: LoopEvent) -> LoopAction {
    session.step(event).unwrap()
}

fn receive(session: &mut Session, data: &[u8]) -> Result<LoopAction, SessionError> {
    session.handle_client_event(ClientEvent::ClipboardData {
        id: 0,
        sequence: 3,
        data: data.to_vec(),
    })
}

fn enter(session: &mut Session, sequence_number: u32) -> Message {
    forward(
        session,
        ClientEvent::CursorEntered { x: 1, y: -2, sequence_number, modifier_mask: 4 },
    )
}

#[test]
fn input_is_forwarded() {
    let mut s = Session::new();
    assert!(matches!(
        enter(&mut s, 3),
        Message::CursorEntered { x: 1, y: -2, sequence: 3, mask: 4 }
    ));
    assert!(matches!(forward(&mut s, ClientEvent::CursorLeft), Message::CursorLeft));
    assert!(matches!(
        forward(&mut s, ClientEvent::MouseMove { x: 5, y: 6 }),
        Message::MouseMove { x: 5, y: 6 }
    ));
    assert!(matches!(
        forward(&mut s, ClientEvent::MouseRelativeMove { dx: 5, dy: 6 }),
        Message::MouseRelativeMove { x: 5, y: 6 }
    ));
    assert!(matches!(
        forward(&mut s, ClientEvent::MouseButtonDown { button: 2 }),
        Message::MouseButtonDown { button: 2 }
    ));
    assert!(matches!(
        forward(&mut s, ClientEvent::MouseButtonUp { button: 2 }),
        Message::MouseButtonUp { button: 2 }
    ));
    assert!(matches!(
        forward(&mut s, ClientEvent::MouseWheel { horiz: 1, vert: -2 }),
        Message::MouseWheel { xdelta: 1, ydelta: -2 }
    ));
    assert!(matches!(
        forward(&mut s, ClientEvent::KeyDown { key: 7, mask: 8, button: 9 }),
        Message::KeyDown { keyid: 7, mask: 8, button: 9 }
    ));
    assert!(matches!(
        forward(&mut s, ClientEvent::KeyUp { key: 7, mask: 8, button: 9 }),
        Message::KeyUp { keyid: 7, mask: 8, button: 9 }
    ));
    assert!(matches!(
        forward(&mut s, ClientEvent::KeyRepeat { key: 7, mask: 8, count: 3, button: 9 }),
        Message::KeyRepeat { keyid: 7, mask: 8, count: 3, button: 9, lang } if lang.is_empty()
    ));
    assert!(matches!(
        forward(&mut s, ClientEvent::ScreenSaverChanged { active: true }),
        Message::ScreenSaverChange { state: 1 }
    ));
    assert!(matches!(
        forward(&mut s, ClientEvent::ScreenSaverChanged { active: false }),
        Message::ScreenSaverChange { state: 0 }
    ));
    assert!(matches!(forward(&mut s, ClientEvent::ResetOptions), Message::ResetOptions));
}

#[test]
fn options_and_closing_are_waited_out() {
    let mut s = Session::new();
    for event in [ClientEvent::SetOptions, ClientEvent::Close] {
        assert!(matches!(s.handle_client_event(event), Ok(LoopAction::Wait)));
    }
}

#[test]
fn failed_connections_stop_the_loop() {
    let mut s = Session::new();
    assert!(matches!(act(&mut s, LoopEvent::ClientFailed), LoopAction::Stop));
    assert!(matches!(act(&mut s, LoopEvent::EiFailed), LoopAction::Stop));
    assert!(matches!(act(&mut s, LoopEvent::EiProcessed), LoopAction::Wait));
}

#[test]
fn received_clipboard_is_served() {
    let mut s = Session::new();
    assert!(matches!(act(&mut s, LoopEvent::TransferRequested), LoopAction::Wait));
    assert!(matches!(act(&mut s, LoopEvent::TransferOpened), LoopAction::Wait));
    let text = "caf\u{e9} \u{1f980}";
    assert!(matches!(receive(&mut s, text.as_bytes()), Ok(LoopAction::ClaimClipboard)));
    assert!(matches!(act(&mut s, LoopEvent::TransferRequested), LoopAction::OpenTransfer));
    assert!(matches!(
        act(&mut s, LoopEvent::TransferOpened),
        LoopAction::WriteTransfer { data } if data == text
    ));
    assert!(matches!(
        act(&mut s, LoopEvent::TransferWritten { written: true }),
        LoopAction::FinishTransfer { success: true }
    ));
    assert!(matches!(
        act(&mut s, LoopEvent::TransferWritten { written: false }),
        LoopAction::FinishTransfer { success: false }
    ));
    assert!(matches!(act(&mut s, LoopEvent::TransferRefused), LoopAction::Wait));
}

#[test]
fn clipboard_that_is_no_text_is_refused() {
    let mut s = Session::new();
    receive(&mut s, b"kept").unwrap();
    for bytes in [&b"\xff"[..], b"ab\xc3", b"\xc0\x80", b"\xed\xa0\x80", b"\xf5\x80\x80\x80"] {
        assert!(matches!(receive(&mut s, bytes), Err(SessionError::ClipboardNotUtf8)));
    }
    assert!(matches!(
        act(&mut s, LoopEvent::TransferOpened),
        LoopAction::WriteTransfer { data } if data == "kept"
    ));
}

fn types(names: &[&str]) -> Vec<String> {
    names.iter().map(|name| name.to_string()).collect()
}

#[test]
fn first_supported_type_is_selected() {
    assert_eq!(select_mime_type(&types(&[])), None);
    assert_eq!(select_mime_type(&types(&["image/png", "text/html", "TEXT/PLAIN"])), None);
    assert_eq!(select_mime_type(&types(&["image/png", "text/plain"])), Some(1));
    assert_eq!(
        select_mime_type(&types(&["a", "text/plain", "text/plain;charset=utf-8"])),
        Some(1)
    );
    assert_eq!(
        select_mime_type(&types(&["text/plain;charset=utf-8", "text/plain"])),
        Some(0)
    );
    assert_eq!(offered_mime_types(), ["text/plain;charset=utf-8", "text/plain"]);
}

#[test]
fn clipboard_of_others_is_read() {
    let mut s = Session::new();
    for session_is_owner in [None, Some(false)] {
        let mime_types = types(&["image/png", "text/plain"]);
        assert!(matches!(
            act(&mut s, LoopEvent::OwnerChanged { session_is_owner, mime_types }),
            LoopAction::ReadClipboard { mime_type } if mime_type == "text/plain"
        ));
        let mime_types = types(&["image/png"]);
        assert!(matches!(
            act(&mut s, LoopEvent::OwnerChanged { session_is_owner, mime_types }),
            LoopAction::Wait
        ));
    }
    let mime_types = types(&["text/plain"]);
    assert!(matches!(
        act(&mut s, LoopEvent::OwnerChanged { session_is_owner: Some(true), mime_types }),
        LoopAction::Wait
    ));
}

#[test]
fn read_clipboard_is_sent_with_the_last_sequence() {
    let mut s = Session::new();
    for sequence in [0, 17, 4] {
        if sequence > 0 {
            enter(&mut s, sequence);
            forward(&mut s, ClientEvent::CursorLeft);
        }
        let data = Some("\u{3b1}\u{3b2}".as_bytes().to_vec());
        match act(&mut s, LoopEvent::ClipboardRead { data }) {
            LoopAction::Send {
                claim: Message::ClientClipboard { id: 0, sequence: claimed },
                data: Message::ClipboardData { id: 0, sequence: sent, mark: 0, data },
            } => {
                assert_eq!(claimed, sequence);
                assert_eq!(sent, sequence);
                assert_eq!(data, "\u{3b1}\u{3b2}");
            }
            other => panic!("{:?}", other),
        }
    }
}

#[test]
fn unreadable_clipboard_is_not_sent() {
    let mut s = Session::new();
    assert!(matches!(
        act(&mut s, LoopEvent::ClipboardRead { data: None }),
        LoopAction::Wait
    ));
    let data = Some(vec![0x80]);
    assert!(matches!(act(&mut s, LoopEvent::ClipboardRead { data }), LoopAction::Wait));
}

#[test]
fn data_follows_a_claim_that_was_sent() {
    let mut s = Session::new();
    for claim_sent in [true, false] {
        let read = LoopEvent::ClipboardRead { data: Some(b"text".to_vec()) };
        let next = match act(&mut s, read) {
            LoopAction::Send { claim: _, data } => after_claim(claim_sent, data),
            other => panic!("{:?}", other),
        };
        match next {
            Some(Message::ClipboardData { id: 0, sequence: 0, mark: 0, data }) => {
                assert!(claim_sent);
                assert_eq!(data, "text");
            }
            None => assert!(!claim_sent),
            other => panic!("{:?}", other),
        }
    }
}
