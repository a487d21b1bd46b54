//! Direct messages: routing strictly one to one, by username.

use vstd::prelude::*;
use vstd::string::{StringExecFns, StringSliceAdditionalSpecFns};
use vstd::utf8::encode_utf8;
use crate::directory::model::DirectoryView;
use crate::directory::shared_state::SharedState;
use crate::handles::{field_text, read_text, Delivery, DeliveryView};
use crate::protocol::kind::MessageType;
use crate::protocol::message::{sealed, Message};

verus! {

/// The reason a sender reads when the recipient has no session.
pub open spec fn not_connected_text(recipient: Seq<char>) -> Seq<char> {
    "User "@ + recipient + " is not connected"@
}

/// The reason a sender reads when the recipient has no session.
pub fn not_connected(recipient: &str) -> (text: String)
    ensures
        text@ == not_connected_text(recipient@),
{
    let mut text = String::from_str("User ");
    text.append(recipient);
    text.append(" is not connected");
    text
}

/// A refusal on its way back to the sender.
pub open spec fn refusal(to: u128) -> DeliveryView {
    DeliveryView { to, message: sealed(MessageType::Nack, Seq::empty()) }
}

/// What a `DirectMessageSend` frame comes to. The first field is the
/// recipient's name, the second the body. A sender whose session is not
/// authenticated is refused, and so is a frame with fewer than two fields or
/// with a field that is no text. If the recipient has a session, that session
/// gets `DirectMessageReceive` with the sender's name and the body. If not,
/// the sender gets `MessageError` with the reason. Where the name that would
/// have to travel does not fit a field, the sender is refused.
pub open spec fn direct_message_spec(dir: DirectoryView, id: u128, fields: Seq<Seq<u8>>) -> DeliveryView {
    match (dir.username_of(id), field_text(fields, 0), field_text(fields, 1)) {
        (Some(sender), Some(recipient), Some(_)) => match dir.session_of(recipient) {
            Some(target) => if encode_utf8(sender).len() <= u32::MAX {
                DeliveryView {
                    to: target,
                    message: sealed(
                        MessageType::DirectMessageReceive,
                        seq![encode_utf8(sender), fields[1]],
                    ),
                }
            } else {
                refusal(id)
            },
            None => if encode_utf8(not_connected_text(recipient)).len() <= u32::MAX {
                DeliveryView {
                    to: id,
                    message: sealed(
                        MessageType::MessageError,
                        seq![encode_utf8(not_connected_text(recipient))],
                    ),
                }
            } else {
                refusal(id)
            },
        },
        _ => refusal(id),
    }
}

/// Handles a `DirectMessageSend` frame: finds the recipient's session and
/// addresses the message to it, or tells the sender why not.
pub fn handle_direct_message_send(message: &Message, state: &SharedState, session_id: u128) -> (delivery:
    Delivery)
    requires
        state.wf(),
    ensures
        delivery@ == direct_message_spec(state@, session_id, message@.fields),
{
    let sender = match state.get_user_by_session(session_id) {
        None => {
            return Delivery { to: session_id, message: Message::nack() };
        },
        Some(sender) => sender,
    };
    let recipient = match read_text(message, 0) {
        None => {
            return Delivery { to: session_id, message: Message::nack() };
        },
        Some(recipient) => recipient,
    };
    let body = match read_text(message, 1) {
        None => {
            return Delivery { to: session_id, message: Message::nack() };
        },
        Some(body) => body,
    };
    let _ = message.payload();
    match state.get_session_by_user(recipient) {
        Some(target) => {
            if sender.as_str().as_bytes().len() > u32::MAX as usize {
                return Delivery { to: session_id, message: Message::nack() };
            }
            Delivery { to: target, message: Message::direct_message_receive(sender.as_str(), body) }
        },
        None => {
            let text = not_connected(recipient);
            if text.as_str().as_bytes().len() > u32::MAX as usize {
                return Delivery { to: session_id, message: Message::nack() };
            }
            Delivery { to: session_id, message: Message::message_error(text.as_str()) }
        },
    }
}

} // verus!
