//! The handlers that the receive task of a connection dispatches to. Each is
//! a function from the directory and a frame to the new directory and the
//! messages to enqueue; none of them touches a socket or a queue.

pub mod admin;
pub mod auth;
pub mod message;

use vstd::prelude::*;
use vstd::string::StringSliceAdditionalSpecFns;
use vstd::utf8::{decode_utf8, encode_utf8_decode_utf8, valid_utf8};
use crate::directory::model::DirectoryView;
use crate::directory::shared_state::SharedState;
use crate::primitives::{parse_rfc3339, rfc3339_instant, utf8_text};
use crate::protocol::message::{Message, MessageView};
use crate::session::Timestamp;

verus! {

/// A message on its way to the outbound queue of a session.
#[derive(Debug)]
pub struct Delivery {
    pub to: u128,
    pub message: Message,
}

/// What a delivery says: the session and the message.
pub struct DeliveryView {
    pub to: u128,
    pub message: MessageView,
}

impl View for Delivery {
    type V = DeliveryView;

    open spec fn view(&self) -> DeliveryView {
        DeliveryView { to: self.to, message: self.message@ }
    }
}

/// What a list of deliveries says.
pub open spec fn delivery_views(deliveries: Seq<Delivery>) -> Seq<DeliveryView> {
    Seq::new(deliveries.len(), |i: int| deliveries[i]@)
}

/// The text in the field at `index`, where there is such a field and its
/// bytes are well-formed UTF-8.
pub open spec fn field_text(fields: Seq<Seq<u8>>, index: int) -> Option<Seq<char>> {
    if 0 <= index < fields.len() && valid_utf8(fields[index]) {
        Some(decode_utf8(fields[index]))
    } else {
        None
    }
}

/// Reads the field at `index` as text.
pub fn read_text(message: &Message, index: usize) -> (text: Option<&str>)
    ensures
        match text {
            Some(s) => field_text(message@.fields, index as int) == Some(s@) && s.spec_bytes()
                == message@.fields[index as int],
            None => field_text(message@.fields, index as int) is None,
        },
{
    let payload = message.payload();
    if index >= payload.len() {
        return None;
    }
    let text = utf8_text(payload.field(index));
    proof {
        if let Some(s) = text {
            encode_utf8_decode_utf8(s@);
        }
    }
    text
}

/// The instant that a heartbeat frame carries in its first field, where the
/// field is an RFC 3339 date and time.
pub open spec fn heartbeat_instant(fields: Seq<Seq<u8>>) -> Option<Timestamp> {
    match field_text(fields, 0) {
        Some(text) => match rfc3339_instant(text) {
            Some((seconds, nanos)) => Some(Timestamp { seconds, nanos }),
            None => None,
        },
        None => None,
    }
}

/// What a heartbeat frame does to the directory: the instant it carries is
/// recorded for the session; a frame that carries none changes nothing.
pub open spec fn heartbeat_spec(dir: DirectoryView, id: u128, fields: Seq<Seq<u8>>) -> DirectoryView {
    match heartbeat_instant(fields) {
        Some(instant) => dir.with_heartbeat(id, instant),
        None => dir,
    }
}

/// Handles a `Heartbeat` frame from a peer.
pub fn handle_heartbeat(message: &Message, state: &mut SharedState, session_id: u128)
    requires
        old(state).wf(),
    ensures
        final(state).wf(),
        final(state)@ == heartbeat_spec(old(state)@, session_id, message@.fields),
{
    match read_text(message, 0) {
        None => {},
        Some(text) => match parse_rfc3339(text) {
            None => {},
            Some(instant) => {
                state.update_heartbeat(session_id, Some(instant));
            },
        },
    }
}

} // verus!
