//! What becomes of the events of a session, told by what was remembered and what is done.

use vstd::prelude::*;
use vstd::utf8::*;

use crate::message::Message;
use crate::session::{
    after_claim, after_client_event, after_event, after_events, client_event_leads_to,
    event_leads_to, first_supported_at, is_supported, none_supported, offered_mime_types,
    select_mime_type, ClientEvent, LoopAction, LoopEvent, SessionError, SessionView,
};

verus! {

/// Whether an outcome is to forward the given message.
pub open spec fn forwards(outcome: Result<LoopAction, SessionError>, message: Message) -> bool {
    outcome == Ok::<LoopAction, SessionError>(LoopAction::Forward { message })
}

/// Every input event of the server is forwarded as the message of the same kind with the
/// same values, and options and the end of the connection are waited out.
pub proof fn server_events_in_full(event: ClientEvent, outcome: Result<LoopAction, SessionError>)
    requires
        client_event_leads_to(event, outcome),
    ensures
        match event {
            ClientEvent::CursorEntered { x, y, sequence_number, modifier_mask } => forwards(
                outcome,
                Message::CursorEntered { x, y, sequence: sequence_number, mask: modifier_mask },
            ),
            ClientEvent::CursorLeft => forwards(outcome, Message::CursorLeft),
            ClientEvent::KeyDown { key, mask, button } => forwards(
                outcome,
                Message::KeyDown { keyid: key, mask, button },
            ),
            ClientEvent::KeyUp { key, mask, button } => forwards(
                outcome,
                Message::KeyUp { keyid: key, mask, button },
            ),
            ClientEvent::KeyRepeat { key, mask, count, button } => {
                &&& outcome matches Ok(LoopAction::Forward {
                    message: Message::KeyRepeat { keyid, mask: m, count: n, button: b, lang },
                })
                &&& keyid == key && m == mask && n == count && b == button
                &&& lang@.len() == 0
            },
            ClientEvent::MouseMove { x, y } => forwards(outcome, Message::MouseMove { x, y }),
            ClientEvent::MouseRelativeMove { dx, dy } => forwards(
                outcome,
                Message::MouseRelativeMove { x: dx, y: dy },
            ),
            ClientEvent::MouseButtonDown { button } => forwards(
                outcome,
                Message::MouseButtonDown { button },
            ),
            ClientEvent::MouseButtonUp { button } => forwards(
                outcome,
                Message::MouseButtonUp { button },
            ),
            ClientEvent::MouseWheel { horiz, vert } => forwards(
                outcome,
                Message::MouseWheel { xdelta: horiz, ydelta: vert },
            ),
            ClientEvent::ScreenSaverChanged { active } => {
                &&& active ==> forwards(outcome, Message::ScreenSaverChange { state: 1 })
                &&& !active ==> forwards(outcome, Message::ScreenSaverChange { state: 0 })
            },
            ClientEvent::ResetOptions => forwards(outcome, Message::ResetOptions),
            ClientEvent::SetOptions | ClientEvent::Close => outcome == Ok::<
                LoopAction,
                SessionError,
            >(LoopAction::Wait),
            ClientEvent::ClipboardData { id, sequence, data } => true,
        },
{
}

/// Clipboard contents of the server that are text, whatever their length, clipboard and
/// sequence number, are claimed for the client; after any events but further contents, a
/// request for them is opened, and what is written is encoded as the very bytes that came.
pub proof fn received_clipboard_is_claimed_and_served(
    s: SessionView,
    id: u8,
    sequence: u32,
    data: Vec<u8>,
    between: Seq<LoopEvent>,
    received: Result<LoopAction, SessionError>,
    requested: Result<LoopAction, SessionError>,
    opened: Result<LoopAction, SessionError>,
)
    requires
        valid_utf8(data@),
        client_event_leads_to(ClientEvent::ClipboardData { id, sequence, data }, received),
        forall|i: int|
            0 <= i < between.len() ==> !(#[trigger] between[i] matches LoopEvent::Client {
                event: ClientEvent::ClipboardData { .. },
            }),
        event_leads_to(
            after_events(
                after_client_event(s, ClientEvent::ClipboardData { id, sequence, data }),
                between,
            ),
            LoopEvent::TransferRequested,
            requested,
        ),
        event_leads_to(
            after_events(
                after_client_event(s, ClientEvent::ClipboardData { id, sequence, data }),
                between,
            ),
            LoopEvent::TransferOpened,
            opened,
        ),
    ensures
        received == Ok::<LoopAction, SessionError>(LoopAction::ClaimClipboard),
        requested == Ok::<LoopAction, SessionError>(LoopAction::OpenTransfer),
        opened matches Ok(LoopAction::WriteTransfer { data: written }) && encode_utf8(written@)
            == data@,
{
    decode_utf8_encode_utf8(data@);
    let kept = after_client_event(s, ClientEvent::ClipboardData { id, sequence, data });
    lemma_clipboard_stays(kept, between);
}

/// The clipboard stays what it is until other contents come.
proof fn lemma_clipboard_stays(s: SessionView, events: Seq<LoopEvent>)
    requires
        forall|i: int|
            0 <= i < events.len() ==> !(#[trigger] events[i] matches LoopEvent::Client {
                event: ClientEvent::ClipboardData { .. },
            }),
    ensures
        after_events(s, events).clipboard == s.clipboard,
    decreases events.len(),
{
    if events.len() > 0 {
        lemma_clipboard_stays(s, events.drop_last());
        assert(events[events.len() - 1] == events.last());
    }
}

/// Clipboard contents of the server that are no text are an error, and are not kept.
pub proof fn clipboard_that_is_no_text_is_refused(
    s: SessionView,
    id: u8,
    sequence: u32,
    data: Vec<u8>,
    outcome: Result<LoopAction, SessionError>,
)
    requires
        !valid_utf8(data@),
        client_event_leads_to(ClientEvent::ClipboardData { id, sequence, data }, outcome),
    ensures
        outcome == Err::<LoopAction, SessionError>(SessionError::ClipboardNotUtf8),
        after_client_event(s, ClientEvent::ClipboardData { id, sequence, data }) == s,
{
}

/// What is remembered is the sequence number of the last entering and the last text in the
/// server's clipboard; nothing else has any influence on it.
pub proof fn memory_in_full(s: SessionView, event: LoopEvent)
    ensures
        ({
            let after = after_event(s, event);
            match event {
                LoopEvent::Client {
                    event: ClientEvent::CursorEntered { x, y, sequence_number, modifier_mask },
                } => after.last_sequence == sequence_number && after.clipboard == s.clipboard,
                LoopEvent::Client { event: ClientEvent::ClipboardData { id, sequence, data } } => {
                    &&& after.last_sequence == s.last_sequence
                    &&& valid_utf8(data@) ==> (after.clipboard matches Some(text) && encode_utf8(
                        text,
                    ) == data@)
                    &&& !valid_utf8(data@) ==> after.clipboard == s.clipboard
                },
                _ => after == s,
            }
        }),
{
    if let LoopEvent::Client { event: ClientEvent::ClipboardData { id, sequence, data } } = event {
        if valid_utf8(data@) {
            decode_utf8_encode_utf8(data@);
        }
    }
}

/// The loop stops when a connection fails, and at nothing else; an event of the server is
/// handled as such; a transfer is opened where there is something to transfer, and its end
/// is told as it was.
pub proof fn loop_in_full(
    s: SessionView,
    event: LoopEvent,
    outcome: Result<LoopAction, SessionError>,
)
    requires
        event_leads_to(s, event, outcome),
    ensures
        outcome matches Ok(LoopAction::Stop) <==> event is ClientFailed || event is EiFailed,
        outcome is Err ==> event is Client,
        event matches LoopEvent::Client { event } ==> client_event_leads_to(event, outcome),
        event is EiProcessed || event is TransferRefused ==> outcome == Ok::<
            LoopAction,
            SessionError,
        >(LoopAction::Wait),
        event is TransferRequested && s.clipboard is Some ==> outcome == Ok::<
            LoopAction,
            SessionError,
        >(LoopAction::OpenTransfer),
        (event is TransferRequested || event is TransferOpened) && s.clipboard is None ==> outcome
            == Ok::<LoopAction, SessionError>(LoopAction::Wait),
        event is TransferOpened ==> (s.clipboard matches Some(text) ==> (outcome matches Ok(
            LoopAction::WriteTransfer { data },
        ) && data@ == text)),
        event matches LoopEvent::TransferWritten { written } ==> outcome == Ok::<
            LoopAction,
            SessionError,
        >(LoopAction::FinishTransfer { success: written }),
{
}

/// Whether a type of clipboard contents is plain text.
pub open spec fn is_plain_text(mime_type: Seq<char>) -> bool {
    mime_type == "text/plain;charset=utf-8"@ || mime_type == "text/plain"@
}

/// The clipboard of another owner is read in the first type that is plain text. It is not
/// read where there is none, nor where the client is the owner.
pub proof fn owner_changes_in_full(
    s: SessionView,
    session_is_owner: Option<bool>,
    mime_types: Vec<String>,
    i: int,
    outcome: Result<LoopAction, SessionError>,
)
    requires
        event_leads_to(s, LoopEvent::OwnerChanged { session_is_owner, mime_types }, outcome),
    ensures
        session_is_owner == Some(true) ==> outcome == Ok::<LoopAction, SessionError>(
            LoopAction::Wait,
        ),
        (forall|j: int| 0 <= j < mime_types@.len() ==> !is_plain_text(#[trigger] mime_types@[j]@))
            ==> outcome == Ok::<LoopAction, SessionError>(LoopAction::Wait),
        session_is_owner != Some(true) && 0 <= i < mime_types@.len() && is_plain_text(
            mime_types@[i]@,
        ) && (forall|j: int| 0 <= j < i ==> !is_plain_text(#[trigger] mime_types@[j]@)) ==> (
        outcome matches Ok(LoopAction::ReadClipboard { mime_type }) && mime_type@
            == mime_types@[i]@),
{
    let types = mime_types@;
    if 0 <= i < types.len() && is_plain_text(types[i]@) && (forall|j: int|
        0 <= j < i ==> !is_plain_text(#[trigger] types[j]@)) {
        assert(first_supported_at(types, i)) by {
            assert forall|j: int| 0 <= j < i implies !is_supported(
                #[trigger] types[j]@,
            ) by {
                assert(!is_plain_text(types[j]@));
            }
        }
        let at = choose|at: int| first_supported_at(types, at);
        if at < i {
            assert(!is_plain_text(types[at]@));
        }
        if i < at {
            assert(!is_supported(types[i]@));
        }
    }
    if forall|j: int| 0 <= j < types.len() ==> !is_plain_text(#[trigger] types[j]@) {
        assert forall|at: int| !first_supported_at(types, at) by {
            if 0 <= at < types.len() {
                assert(!is_plain_text(types[at]@));
            }
        }
    }
}

/// Clipboard contents that are text, whatever their length, are told to the server: a claim
/// and the very contents in one piece, both for the first clipboard and with the last
/// sequence number. Contents that are no text, or could not be read, are not.
pub proof fn clipboard_reads_in_full(
    s: SessionView,
    data: Option<Vec<u8>>,
    outcome: Result<LoopAction, SessionError>,
)
    requires
        event_leads_to(s, LoopEvent::ClipboardRead { data }, outcome),
    ensures
        data matches Some(bytes) ==> {
            &&& valid_utf8(bytes@) ==> {
                &&& outcome matches Ok(LoopAction::Send {
                    claim,
                    data: Message::ClipboardData { id, sequence, mark, data: sent },
                })
                &&& claim == (Message::ClientClipboard { id: 0, sequence: s.last_sequence })
                &&& id == 0 && sequence == s.last_sequence && mark == 0
                &&& encode_utf8(sent@) == bytes@
            }
            &&& !valid_utf8(bytes@) ==> outcome == Ok::<LoopAction, SessionError>(LoopAction::Wait)
        },
        data is None ==> outcome == Ok::<LoopAction, SessionError>(LoopAction::Wait),
{
    if let Some(bytes) = data {
        if valid_utf8(bytes@) {
            decode_utf8_encode_utf8(bytes@);
        }
    }
}

/// The data follows a claim that was sent, as it is, and no other.
pub proof fn data_follows_the_claim(claim_sent: bool, data: Message, next: Option<Message>)
    requires
        call_ensures(after_claim, (claim_sent, data), next),
    ensures
        claim_sent ==> next == Some(data),
        !claim_sent ==> next is None,
{
}

/// The type that is selected is the first one that is plain text, if there is any.
pub proof fn selection_in_full(mime_types: &Vec<String>, selected: Option<usize>)
    requires
        call_ensures(select_mime_type, (mime_types,), selected),
    ensures
        selected matches Some(at) ==> {
            &&& at < mime_types@.len()
            &&& is_plain_text(mime_types@[at as int]@)
            &&& forall|j: int| 0 <= j < at ==> !is_plain_text(#[trigger] mime_types@[j]@)
        },
        selected is None ==> forall|j: int|
            0 <= j < mime_types@.len() ==> !is_plain_text(#[trigger] mime_types@[j]@),
{
    if selected is None {
        assert(none_supported(mime_types@));
        assert forall|j: int| 0 <= j < mime_types@.len() implies !is_plain_text(
            #[trigger] mime_types@[j]@,
        ) by {
            assert(!is_supported(mime_types@[j]@));
        }
    }
}

/// Whatever the client offers, it can read itself: the two kinds of plain text.
pub proof fn offers_in_full(mime_types: [&'static str; 2])
    requires
        call_ensures(offered_mime_types, (), mime_types),
    ensures
        mime_types@[0]@ == "text/plain;charset=utf-8"@,
        mime_types@[1]@ == "text/plain"@,
        forall|i: int| 0 <= i < 2 ==> is_plain_text(#[trigger] mime_types@[i]@),
{
}

} // verus!
