//! What the client does while it is connected: forwarding the events of the server, and
//! keeping the clipboards on both sides the same.

use vstd::prelude::*;
use vstd::utf8::*;

use crate::device::DeviceView;
use crate::ei::{
    a_pointer, a_relative_pointer, an_absolute_pointer, first_device, ContextView,
};
use crate::event::{KeyState, Request};
use crate::message::Message;
use crate::synergy::{
    button_requests, input_requests, key_requests, message_requests, motion_input, relative_input,
    scroll_input,
};
use crate::text::{optional_view, same_text, text_from_utf8};

verus! {

/// An event from the server.
#[derive(Debug)]
#[allow(inconsistent_fields)]
pub enum ClientEvent {
    /// The cursor has entered the screen of the client.
    CursorEntered { x: i16, y: i16, sequence_number: u32, modifier_mask: u16 },
    /// The cursor has left the screen of the client.
    CursorLeft,
    /// A key has gone down.
    KeyDown { key: u16, mask: u16, button: u16 },
    /// A key has gone up.
    KeyUp { key: u16, mask: u16, button: u16 },
    /// A key is held down.
    KeyRepeat { key: u16, mask: u16, count: u16, button: u16 },
    /// The mouse has moved to a position.
    MouseMove { x: i16, y: i16 },
    /// The mouse has moved by a distance.
    MouseRelativeMove { dx: i16, dy: i16 },
    /// A mouse button has gone down.
    MouseButtonDown { button: u8 },
    /// A mouse button has gone up.
    MouseButtonUp { button: u8 },
    /// The mouse wheel has turned.
    MouseWheel { horiz: i16, vert: i16 },
    /// The contents of a clipboard of the server.
    ClipboardData { id: u8, sequence: u32, data: Vec<u8> },
    /// The screen saver has started or stopped.
    ScreenSaverChanged { active: bool },
    /// All options go back to their defaults.
    ResetOptions,
    /// Options are set.
    SetOptions,
    /// The server has closed the connection.
    Close,
}

/// What comes up while the client is connected.
#[derive(Debug)]
pub enum LoopEvent {
    /// An event has come from the server.
    Client { event: ClientEvent },
    /// The connection to the server has failed.
    ClientFailed,
    /// The events of the EI connection have been processed.
    EiProcessed,
    /// The EI connection has failed.
    EiFailed,
    /// Somebody asks for the contents of the clipboard that the client owns.
    TransferRequested,
    /// The contents can be written now.
    TransferOpened,
    /// The contents cannot be written.
    TransferRefused,
    /// The contents have been written, or not all of them could be.
    TransferWritten { written: bool },
    /// The clipboard has another owner, who offers its contents in some types. Whether
    /// it is the client itself may be unknown.
    OwnerChanged { session_is_owner: Option<bool>, mime_types: Vec<String> },
    /// The contents of the clipboard have been read; `None` where that has failed.
    ClipboardRead { data: Option<Vec<u8>> },
}

/// What to do about it.
#[derive(Debug)]
#[allow(inconsistent_fields)]
pub enum LoopAction {
    /// Wait for what comes next.
    Wait,
    /// Stop.
    Stop,
    /// Turn a message into emulated input.
    Forward { message: Message },
    /// Claim the clipboard for the client.
    ClaimClipboard,
    /// Ask for a way to write the contents of the clipboard.
    OpenTransfer,
    /// Write the contents of the clipboard.
    WriteTransfer { data: String },
    /// Say whether all the contents have been written.
    FinishTransfer { success: bool },
    /// Read the contents of the clipboard as the given type.
    ReadClipboard { mime_type: String },
    /// Send the claim to the clipboard to the server, and then what `after_claim` gives.
    Send { claim: Message, data: Message },
}

/// Why the client cannot go on.
#[derive(Debug, Clone, Copy, PartialEq, Eq, Structural)]
pub enum SessionError {
    /// The server has sent clipboard data that is not UTF-8.
    ClipboardNotUtf8,
}

/// What the client has to remember while it is connected.
#[derive(Debug)]
pub struct Session {
    last_sequence: u32,
    clipboard_data: Option<String>,
}

/// What the client remembers.
pub struct SessionView {
    /// The sequence number with which the cursor last entered.
    pub last_sequence: u32,
    /// The contents of the server's clipboard.
    pub clipboard: Option<Seq<char>>,
}

impl View for Session {
    type V = SessionView;

    closed spec fn view(&self) -> SessionView {
        SessionView {
            last_sequence: self.last_sequence,
            clipboard: optional_view(self.clipboard_data),
        }
    }
}

/// Whether an event of the server is forwarded as the given message.
pub open spec fn forwarded_as(event: ClientEvent, message: Message) -> bool {
    match event {
        ClientEvent::CursorEntered { x, y, sequence_number, modifier_mask } => message == (
        Message::CursorEntered { x, y, sequence: sequence_number, mask: modifier_mask }),
        ClientEvent::CursorLeft => message == Message::CursorLeft,
        ClientEvent::KeyDown { key, mask, button } => message == (Message::KeyDown {
            keyid: key,
            mask,
            button,
        }),
        ClientEvent::KeyUp { key, mask, button } => message == (Message::KeyUp {
            keyid: key,
            mask,
            button,
        }),
        ClientEvent::KeyRepeat { key, mask, count, button } => {
            &&& message matches Message::KeyRepeat { keyid, mask: m, count: c, button: b, lang }
            &&& keyid == key && m == mask && c == count && b == button
            &&& lang@ == Seq::<char>::empty()
        },
        ClientEvent::MouseMove { x, y } => message == (Message::MouseMove { x, y }),
        ClientEvent::MouseRelativeMove { dx, dy } => message == (Message::MouseRelativeMove {
            x: dx,
            y: dy,
        }),
        ClientEvent::MouseButtonDown { button } => message == (Message::MouseButtonDown { button }),
        ClientEvent::MouseButtonUp { button } => message == (Message::MouseButtonUp { button }),
        ClientEvent::MouseWheel { horiz, vert } => message == (Message::MouseWheel {
            xdelta: horiz,
            ydelta: vert,
        }),
        ClientEvent::ScreenSaverChanged { active } => message == (Message::ScreenSaverChange {
            state: if active {
                1
            } else {
                0
            },
        }),
        ClientEvent::ResetOptions => message == Message::ResetOptions,
        ClientEvent::ClipboardData { id, sequence, data } => false,
        ClientEvent::SetOptions | ClientEvent::Close => false,
    }
}

/// What the client remembers after an event of the server: the sequence number when the
/// cursor enters, and the contents of a clipboard, if they are text.
pub open spec fn after_client_event(s: SessionView, event: ClientEvent) -> SessionView {
    match event {
        ClientEvent::CursorEntered { x, y, sequence_number, modifier_mask } => SessionView {
            last_sequence: sequence_number,
            ..s
        },
        ClientEvent::ClipboardData { id, sequence, data } => if valid_utf8(data@) {
            SessionView { clipboard: Some(decode_utf8(data@)), ..s }
        } else {
            s
        },
        _ => s,
    }
}

/// Whether the given outcome is what an event of the server leads to.
pub open spec fn client_event_leads_to(
    event: ClientEvent,
    outcome: Result<LoopAction, SessionError>,
) -> bool {
    match event {
        ClientEvent::ClipboardData { id, sequence, data } => outcome == if valid_utf8(data@) {
            Ok::<LoopAction, SessionError>(LoopAction::ClaimClipboard)
        } else {
            Err::<LoopAction, SessionError>(SessionError::ClipboardNotUtf8)
        },
        ClientEvent::SetOptions | ClientEvent::Close => outcome == Ok::<LoopAction, SessionError>(
            LoopAction::Wait,
        ),
        _ => outcome matches Ok(LoopAction::Forward { message }) && forwarded_as(event, message),
    }
}

/// Whether the client can read clipboard contents of a type.
pub open spec fn is_supported(mime_type: Seq<char>) -> bool {
    mime_type == "text/plain;charset=utf-8"@ || mime_type == "text/plain"@
}

/// Whether the first supported type is at the given index.
pub open spec fn first_supported_at(mime_types: Seq<String>, at: int) -> bool {
    &&& 0 <= at < mime_types.len()
    &&& is_supported(mime_types[at]@)
    &&& forall|i: int| 0 <= i < at ==> !is_supported(#[trigger] mime_types[i]@)
}

/// Whether none of the types is supported.
pub open spec fn none_supported(mime_types: Seq<String>) -> bool {
    forall|i: int| 0 <= i < mime_types.len() ==> !is_supported(#[trigger] mime_types[i]@)
}

/// The types in which the client offers text.
pub fn offered_mime_types() -> (mime_types: [&'static str; 2])
    ensures
        mime_types@[0]@ == "text/plain;charset=utf-8"@,
        mime_types@[1]@ == "text/plain"@,
{
    ["text/plain;charset=utf-8", "text/plain"]
}

/// The first of the types that the client can read, by its index.
pub fn select_mime_type(mime_types: &Vec<String>) -> (selected: Option<usize>)
    ensures
        match selected {
            Some(at) => first_supported_at(mime_types@, at as int),
            None => forall|i: int|
                0 <= i < mime_types@.len() ==> !is_supported(#[trigger] mime_types@[i]@),
        },
        selected is None ==> none_supported(mime_types@),
{
    let mut at: usize = 0;
    while at < mime_types.len()
        invariant
            at <= mime_types.len(),
            forall|i: int| 0 <= i < at ==> !is_supported(#[trigger] mime_types@[i]@),
        decreases mime_types.len() - at,
    {
        let mime_type = mime_types[at].as_str();
        if same_text(mime_type, "text/plain;charset=utf-8") || same_text(mime_type, "text/plain") {
            return Some(at);
        }
        at = at + 1;
    }
    None
}

/// Whether the given action is what a change of the clipboard's owner leads to: the
/// contents are read in the first supported type, unless the client is the owner.
pub open spec fn owner_change_leads_to(
    session_is_owner: Option<bool>,
    mime_types: Seq<String>,
    action: LoopAction,
) -> bool {
    if session_is_owner != Some(true) && exists|at: int| first_supported_at(mime_types, at) {
        let at = choose|at: int| first_supported_at(mime_types, at);
        action matches LoopAction::ReadClipboard { mime_type } && mime_type@ == mime_types[at]@
    } else {
        action == LoopAction::Wait
    }
}

/// Whether the given messages tell the server of clipboard contents: both carry the last
/// sequence number, and the contents come in a single chunk.
pub open spec fn tells_clipboard(
    sequence: u32,
    text: Seq<char>,
    claim: Message,
    data: Message,
) -> bool {
    &&& claim == (Message::ClientClipboard { id: 0, sequence })
    &&& data matches Message::ClipboardData { id, sequence: s, mark, data }
    &&& id == 0 && s == sequence && mark == 0 && data@ == text
}

/// What to send to the server after the claim to the clipboard: the data, where the claim
/// has been sent, and nothing where that has failed.
pub fn after_claim(claim_sent: bool, data: Message) -> (next: Option<Message>)
    ensures
        next == if claim_sent {
            Some(data)
        } else {
            None
        },
{
    if claim_sent {
        Some(data)
    } else {
        None
    }
}

/// Whether the given action is what reading the clipboard leads to.
pub open spec fn clipboard_read_leads_to(
    s: SessionView,
    data: Option<Vec<u8>>,
    action: LoopAction,
) -> bool {
    match data {
        Some(bytes) => if valid_utf8(bytes@) {
            action matches LoopAction::Send { claim, data } && tells_clipboard(
                s.last_sequence,
                decode_utf8(bytes@),
                claim,
                data,
            )
        } else {
            action == LoopAction::Wait
        },
        None => action == LoopAction::Wait,
    }
}

/// What the client remembers after an event.
pub open spec fn after_event(s: SessionView, event: LoopEvent) -> SessionView {
    match event {
        LoopEvent::Client { event } => after_client_event(s, event),
        _ => s,
    }
}

/// Whether the given outcome is what an event leads to.
pub open spec fn event_leads_to(
    s: SessionView,
    event: LoopEvent,
    outcome: Result<LoopAction, SessionError>,
) -> bool {
    match event {
        LoopEvent::Client { event } => client_event_leads_to(event, outcome),
        LoopEvent::ClientFailed | LoopEvent::EiFailed => outcome == Ok::<LoopAction, SessionError>(
            LoopAction::Stop,
        ),
        LoopEvent::EiProcessed | LoopEvent::TransferRefused => outcome == Ok::<
            LoopAction,
            SessionError,
        >(LoopAction::Wait),
        LoopEvent::TransferRequested => outcome == Ok::<LoopAction, SessionError>(
            if s.clipboard is Some {
                LoopAction::OpenTransfer
            } else {
                LoopAction::Wait
            },
        ),
        LoopEvent::TransferOpened => match s.clipboard {
            Some(text) => outcome matches Ok(LoopAction::WriteTransfer { data }) && data@ == text,
            None => outcome == Ok::<LoopAction, SessionError>(LoopAction::Wait),
        },
        LoopEvent::TransferWritten { written } => outcome == Ok::<LoopAction, SessionError>(
            LoopAction::FinishTransfer { success: written },
        ),
        LoopEvent::OwnerChanged { session_is_owner, mime_types } => outcome matches Ok(action)
            && owner_change_leads_to(session_is_owner, mime_types@, action),
        LoopEvent::ClipboardRead { data } => outcome matches Ok(action) && clipboard_read_leads_to(
            s,
            data,
            action,
        ),
    }
}

impl Session {
    /// A session that has just begun.
    pub fn new() -> (session: Session)
        ensures
            session@ == (SessionView { last_sequence: 0, clipboard: None }),
    {
        Session { last_sequence: 0, clipboard_data: None }
    }

    /// Handles an event of the server: forwards it, or keeps the contents of a clipboard.
    pub fn handle_client_event(&mut self, event: ClientEvent) -> (outcome: Result<
        LoopAction,
        SessionError,
    >)
        ensures
            final(self)@ == after_client_event(old(self)@, event),
            client_event_leads_to(event, outcome),
    {
        let message = match event {
            ClientEvent::CursorEntered { x, y, sequence_number, modifier_mask } => {
                self.last_sequence = sequence_number;
                Message::CursorEntered { x, y, sequence: sequence_number, mask: modifier_mask }
            },
            ClientEvent::CursorLeft => Message::CursorLeft,
            ClientEvent::MouseMove { x, y } => Message::MouseMove { x, y },
            ClientEvent::MouseRelativeMove { dx, dy } => Message::MouseRelativeMove { x: dx, y: dy },
            ClientEvent::MouseButtonDown { button } => Message::MouseButtonDown { button },
            ClientEvent::MouseButtonUp { button } => Message::MouseButtonUp { button },
            ClientEvent::MouseWheel { horiz, vert } => Message::MouseWheel {
                xdelta: horiz,
                ydelta: vert,
            },
            ClientEvent::KeyDown { key, mask, button } => Message::KeyDown {
                keyid: key,
                mask,
                button,
            },
            ClientEvent::KeyUp { key, mask, button } => Message::KeyUp {
                keyid: key,
                mask,
                button,
            },
            ClientEvent::KeyRepeat { key, mask, count, button } => Message::KeyRepeat {
                keyid: key,
                mask,
                count,
                button,
                lang: String::new(),
            },
            ClientEvent::ClipboardData { id: _, sequence: _, data } => {
                let ghost bytes = data@;
                return match text_from_utf8(data) {
                    Some(text) => {
                        proof {
                            encode_utf8_decode_utf8(text@);
                        }
                        self.clipboard_data = Some(text);
                        assert(self@.clipboard == Some(decode_utf8(bytes)));
                        Ok(LoopAction::ClaimClipboard)
                    },
                    None => Err(SessionError::ClipboardNotUtf8),
                };
            },
            ClientEvent::ScreenSaverChanged { active } => Message::ScreenSaverChange {
                state: if active {
                    1
                } else {
                    0
                },
            },
            ClientEvent::ResetOptions => Message::ResetOptions,
            ClientEvent::SetOptions | ClientEvent::Close => {
                return Ok(LoopAction::Wait);
            },
        };
        Ok(LoopAction::Forward { message })
    }

    /// Handles a change of the clipboard's owner.
    pub fn handle_owner_change(
        &self,
        session_is_owner: Option<bool>,
        mime_types: Vec<String>,
    ) -> (action: LoopAction)
        ensures
            owner_change_leads_to(session_is_owner, mime_types@, action),
    {
        if let Some(true) = session_is_owner {
            return LoopAction::Wait;
        }
        match select_mime_type(&mime_types) {
            Some(at) => {
                assert(first_supported_at(mime_types@, at as int));
                LoopAction::ReadClipboard { mime_type: mime_types[at].clone() }
            },
            None => {
                assert forall|at: int| !first_supported_at(mime_types@, at) by {}
                LoopAction::Wait
            },
        }
    }

    /// Handles the contents of the clipboard: tells the server of them, if they are text.
    pub fn handle_clipboard_read(&self, data: Option<Vec<u8>>) -> (action: LoopAction)
        ensures
            clipboard_read_leads_to(self@, data, action),
    {
        match data {
            Some(bytes) => match text_from_utf8(bytes) {
                Some(text) => {
                    proof {
                        encode_utf8_decode_utf8(text@);
                    }
                    let sequence = self.last_sequence;
                    LoopAction::Send {
                        claim: Message::ClientClipboard { id: 0, sequence },
                        data: Message::ClipboardData { id: 0, sequence, mark: 0, data: text },
                    }
                },
                None => LoopAction::Wait,
            },
            None => LoopAction::Wait,
        }
    }

    /// Handles whatever comes up while the client is connected.
    pub fn step(&mut self, event: LoopEvent) -> (outcome: Result<LoopAction, SessionError>)
        ensures
            final(self)@ == after_event(old(self)@, event),
            event_leads_to(old(self)@, event, outcome),
    {
        match event {
            LoopEvent::Client { event } => self.handle_client_event(event),
            LoopEvent::ClientFailed | LoopEvent::EiFailed => Ok(LoopAction::Stop),
            LoopEvent::EiProcessed | LoopEvent::TransferRefused => Ok(LoopAction::Wait),
            LoopEvent::TransferRequested => {
                if self.clipboard_data.is_some() {
                    Ok(LoopAction::OpenTransfer)
                } else {
                    Ok(LoopAction::Wait)
                }
            },
            LoopEvent::TransferOpened => match &self.clipboard_data {
                Some(data) => Ok(LoopAction::WriteTransfer { data: data.clone() }),
                None => Ok(LoopAction::Wait),
            },
            LoopEvent::TransferWritten { written } => Ok(
                LoopAction::FinishTransfer { success: written },
            ),
            LoopEvent::OwnerChanged { session_is_owner, mime_types } => Ok(
                self.handle_owner_change(session_is_owner, mime_types),
            ),
            LoopEvent::ClipboardRead { data } => Ok(self.handle_clipboard_read(data)),
        }
    }
}

/// The emulated input that an event of the server stands for.
pub open spec fn emulated(c: ContextView, event: ClientEvent) -> Seq<Request> {
    match event {
        ClientEvent::KeyDown { key, mask, button } => key_requests(c, key, KeyState::Press),
        ClientEvent::KeyUp { key, mask, button } => key_requests(c, key, KeyState::Released),
        ClientEvent::KeyRepeat { key, mask, count, button } => key_requests(
            c,
            key,
            KeyState::Press,
        ),
        ClientEvent::MouseMove { x, y } => input_requests(
            first_device(c.devices, an_absolute_pointer()),
            |d: DeviceView| motion_input(d, x, y),
        ),
        ClientEvent::MouseRelativeMove { dx, dy } => input_requests(
            first_device(c.devices, a_relative_pointer()),
            |d: DeviceView| relative_input(d, dx, dy),
        ),
        ClientEvent::MouseButtonDown { button } => button_requests(c, button, KeyState::Press),
        ClientEvent::MouseButtonUp { button } => button_requests(c, button, KeyState::Released),
        ClientEvent::MouseWheel { horiz, vert } => input_requests(
            first_device(c.devices, a_pointer()),
            |d: DeviceView| scroll_input(d, vert),
        ),
        _ => Seq::empty(),
    }
}

/// Input that is received from the server is forwarded: every event but a crossing of the
/// cursor and clipboard contents leads to the emulated input that it stands for, and to
/// nothing where it stands for none.
pub proof fn received_input_is_forwarded(
    c: ContextView,
    event: ClientEvent,
    outcome: Result<LoopAction, SessionError>,
)
    requires
        client_event_leads_to(event, outcome),
        !(event is CursorEntered) && !(event is CursorLeft) && !(event is ClipboardData),
    ensures
        match outcome {
            Ok(LoopAction::Forward { message }) => message_requests(c, message) == emulated(
                c,
                event,
            ),
            Ok(action) => action == LoopAction::Wait && emulated(c, event) == Seq::<
                Request,
            >::empty(),
            Err(_) => false,
        },
{
}

/// The clipboard that the client serves is the one it received: the text that it writes
/// is encoded as the bytes that the server sent.
pub proof fn served_clipboard_is_the_received_one(
    s: SessionView,
    id: u8,
    sequence: u32,
    data: Vec<u8>,
    outcome: Result<LoopAction, SessionError>,
)
    requires
        valid_utf8(data@),
        event_leads_to(
            after_client_event(s, ClientEvent::ClipboardData { id, sequence, data }),
            LoopEvent::TransferOpened,
            outcome,
        ),
    ensures
        outcome matches Ok(LoopAction::WriteTransfer { data: written }) && encode_utf8(written@)
            == data@,
{
    decode_utf8_encode_utf8(data@);
}

/// The clipboard that the client sends is the one it read: the text that it sends is
/// encoded as the bytes that it read.
pub proof fn sent_clipboard_is_the_read_one(s: SessionView, data: Vec<u8>, action: LoopAction)
    requires
        valid_utf8(data@),
        clipboard_read_leads_to(s, Some(data), action),
    ensures
        action matches LoopAction::Send {
            claim,
            data: Message::ClipboardData { id, sequence, mark, data: sent },
        } && encode_utf8(sent@) == data@,
{
    decode_utf8_encode_utf8(data@);
}

/// What the client tells the server of the clipboard carries the sequence number with
/// which the cursor last entered, whatever happened in between that is no entering.
pub proof fn clipboard_carries_the_last_sequence(
    s: SessionView,
    x: i16,
    y: i16,
    sequence_number: u32,
    modifier_mask: u16,
    between: Seq<LoopEvent>,
    data: Vec<u8>,
    action: LoopAction,
)
    requires
        forall|i: int|
            0 <= i < between.len() ==> !(#[trigger] between[i] matches LoopEvent::Client {
                event: ClientEvent::CursorEntered { .. },
            }),
        valid_utf8(data@),
        clipboard_read_leads_to(
            after_events(
                after_client_event(
                    s,
                    ClientEvent::CursorEntered { x, y, sequence_number, modifier_mask },
                ),
                between,
            ),
            Some(data),
            action,
        ),
    ensures
        action matches LoopAction::Send { claim, data: sent } && tells_clipboard(
            sequence_number,
            decode_utf8(data@),
            claim,
            sent,
        ),
{
    let entered = after_client_event(
        s,
        ClientEvent::CursorEntered { x, y, sequence_number, modifier_mask },
    );
    lemma_sequence_stays(entered, between);
}

/// What the client remembers after some events.
pub open spec fn after_events(s: SessionView, events: Seq<LoopEvent>) -> SessionView
    decreases events.len(),
{
    if events.len() == 0 {
        s
    } else {
        after_event(after_events(s, events.drop_last()), events.last())
    }
}

proof fn lemma_sequence_stays(s: SessionView, events: Seq<LoopEvent>)
    requires
        forall|i: int|
            0 <= i < events.len() ==> !(#[trigger] events[i] matches LoopEvent::Client {
                event: ClientEvent::CursorEntered { .. },
            }),
    ensures
        after_events(s, events).last_sequence == s.last_sequence,
    decreases events.len(),
{
    if events.len() > 0 {
        lemma_sequence_stays(s, events.drop_last());
        assert(events[events.len() - 1] == events.last());
    }
}

/// The client does not read the clipboard that it owns itself.
pub proof fn own_clipboard_is_not_read(mime_types: Seq<String>, action: LoopAction)
    requires
        owner_change_leads_to(Some(true), mime_types, action),
    ensures
        action == LoopAction::Wait,
{
}

/// Refused clipboard data leaves what the client remembers alone.
pub proof fn refused_clipboard_changes_nothing(
    s: SessionView,
    event: ClientEvent,
    outcome: Result<LoopAction, SessionError>,
)
    requires
        client_event_leads_to(event, outcome),
        outcome is Err,
    ensures
        after_client_event(s, event) == s,
{
}

} // verus!
