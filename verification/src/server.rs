//! The decisions of the acceptor and of the three tasks of a connection.
//!
//! The program that owns the sockets and queues runs the loops. After each
//! event (a connection accepted, a frame read, a message taken from the
//! outbound queue, a write finished, a tick of the heartbeat timer) it asks
//! one of the functions here what to do, and carries that out.

use vstd::prelude::*;
use crate::bytes::be_bytes_u64;
use crate::directory::model::{
    lemma_authenticate_wf, lemma_with_heartbeat_wf, DirectoryView, SessionPhase, ShutdownSignal,
};
use crate::directory::shared_state::SharedState;
use crate::handles::admin::{handle_server_shutdown, reaches_all, timeout_spec};
use crate::handles::auth::{
    auth_create_spec, auth_spec, handle_auth, handle_auth_create, lemma_register_once,
};
use crate::handles::message::{direct_message_spec, handle_direct_message_send, refusal};
use crate::handles::{
    delivery_views, field_text, handle_heartbeat, heartbeat_instant, heartbeat_spec, Delivery,
    DeliveryView,
};
use crate::primitives::{argon2_encoded, random_u128, utc_now};
use crate::protocol::codec::{frame, ProtocolError};
use crate::protocol::kind::MessageType;
use crate::protocol::message::{carries_timestamp, sealed, Message, MessageView};
use crate::session::{Session, SessionView, Timestamp};

verus! {

/// Seconds between two heartbeats that the server sends on a connection.
pub const HEARTBEAT_INTERVAL: u64 = 30;

/// What the receive task does once the deliveries of a step are enqueued.
#[derive(Debug, Clone, Copy, PartialEq, Eq, Structural)]
pub enum Next {
    /// Wait for the next frame.
    Continue,
    /// Stop reading; the connection is on its way down.
    Stop,
    /// Write a snapshot of the directory to the diagnostic log, then wait for
    /// the next frame.
    DebugLog,
    /// Wait for the given number of seconds, carry out the second part of the
    /// shutdown, then wait for the next frame.
    Shutdown(u64),
}

/// The outcome of one step of the receive task.
#[derive(Debug)]
pub struct ReceiveStep {
    /// Messages to enqueue, in this order.
    pub deliveries: Vec<Delivery>,
    pub next: Next,
}

/// The outcome of one step of the send task.
#[derive(Debug)]
pub enum SendStep {
    /// Write nothing and stop; the session has been torn down.
    Stop,
    /// Write these bytes to the socket.
    Write(Vec<u8>),
}

/// The sentinel on its way to the session's own queue, where it stops the
/// send task.
pub open spec fn wind_down(id: u128) -> DeliveryView {
    DeliveryView { to: id, message: sealed(MessageType::Break, Seq::empty()) }
}

/// The reply of a handler on its way back to the sender.
pub open spec fn reply(id: u128, message: MessageView) -> Seq<DeliveryView> {
    seq![DeliveryView { to: id, message }]
}

/// What one step of the receive task comes to for a frame that was read
/// whole: the messages to enqueue, what the task does next, and the directory
/// afterwards. A frame whose kind the session's level does not allow is
/// answered with `Nack` and not dispatched. Every other frame goes to the
/// handler of its kind. Registration draws a salt, so its outcome is fixed
/// only up to that salt.
pub open spec fn receive_step(
    dir: DirectoryView,
    id: u128,
    message: MessageView,
    deliveries: Seq<DeliveryView>,
    next: Next,
    after: DirectoryView,
) -> bool {
    if !dir.access_level(id).allows(message.kind) {
        deliveries == seq![refusal(id)] && next == Next::Continue && after == dir
    } else {
        match message.kind {
            MessageType::Disconnect => deliveries == seq![wind_down(id)] && next == Next::Stop
                && after == dir,
            MessageType::Heartbeat => deliveries == Seq::<DeliveryView>::empty() && next
                == Next::Continue && after == heartbeat_spec(dir, id, message.fields),
            MessageType::Auth => deliveries == reply(
                id,
                auth_spec(dir, id, message.fields).0.message(),
            ) && next == Next::Continue && after == auth_spec(dir, id, message.fields).1,
            MessageType::AuthCreate => next == Next::Continue && exists|salt: Seq<u8>|
                salt.len() == 16 && deliveries == reply(
                    id,
                    (#[trigger] auth_create_spec(dir, id, message.fields, salt)).0.message(),
                ) && after == auth_create_spec(dir, id, message.fields, salt).1,
            MessageType::ServerDebugLog => deliveries == Seq::<DeliveryView>::empty() && next
                == Next::DebugLog && after == dir,
            MessageType::ServerShutdown => after == dir && match timeout_spec(message.fields) {
                Some(timeout) => next == Next::Shutdown(timeout) && reaches_all(
                    deliveries,
                    dir,
                    sealed(MessageType::ServerShutdownWarning, seq![be_bytes_u64(timeout)]),
                ),
                None => deliveries == seq![refusal(id)] && next == Next::Continue,
            },
            MessageType::DirectMessageSend => deliveries == seq![
                direct_message_spec(dir, id, message.fields),
            ] && next == Next::Continue && after == dir,
            _ => deliveries == Seq::<DeliveryView>::empty() && next == Next::Continue && after
                == dir,
        }
    }
}

/// A frame moves a session forward in its life or leaves it where it is. The
/// one move a frame can cause is from connected to authenticated, and only an
/// `Auth` or `AuthCreate` frame that is answered with `AuthSuccess` causes
/// it. No frame changes another session, and no frame takes a session out of
/// the directory or puts one in: that is left to accepting and to teardown.
pub proof fn lemma_receive_moves_forward(
    dir: DirectoryView,
    id: u128,
    message: MessageView,
    deliveries: Seq<DeliveryView>,
    next: Next,
    after: DirectoryView,
    other: u128,
)
    requires
        dir.wf(),
        receive_step(dir, id, message, deliveries, next, after),
        other != id,
    ensures
        after.wf(),
        after.phase(id) == dir.phase(id) || (dir.phase(id) == SessionPhase::Connected
            && after.phase(id) == SessionPhase::Authenticated && (message.kind == MessageType::Auth
            || message.kind == MessageType::AuthCreate) && deliveries == reply(
            id,
            sealed(MessageType::AuthSuccess, Seq::empty()),
        )),
        after.sessions.dom() == dir.sessions.dom(),
        after.phase(other) == dir.phase(other),
        dir.sessions.contains_key(other) ==> after.sessions[other] == dir.sessions[other],
{
    assert(after.sessions.dom() =~= dir.sessions.dom());
    if dir.access_level(id).allows(message.kind) {
        if message.kind == MessageType::Heartbeat {
            if let Some(instant) = heartbeat_instant(message.fields) {
                lemma_with_heartbeat_wf(dir, id, instant);
            }
        } else if message.kind == MessageType::Auth {
            if let Some(name) = field_text(message.fields, 0) {
                lemma_authenticate_wf(dir, id, name);
            }
        } else if message.kind == MessageType::AuthCreate {
            let salt = choose|salt: Seq<u8>|
                salt.len() == 16 && deliveries == reply(
                    id,
                    (#[trigger] auth_create_spec(dir, id, message.fields, salt)).0.message(),
                ) && after == auth_create_spec(dir, id, message.fields, salt).1;
            if let Some(name) = field_text(message.fields, 0) {
                if dir.is_active(id) && !dir.is_authenticated(id) && message.fields.len() >= 2
                    && !dir.users.contains_key(name) {
                    lemma_register_once(
                        dir,
                        id,
                        name,
                        argon2_encoded(message.fields[1], salt),
                        id,
                        Seq::empty(),
                    );
                }
            }
        }
    }
}

/// Once a session is closed, its frames change nothing: whatever arrives
/// under its identifier leaves the directory as it is, and tearing it down
/// again does too.
pub proof fn lemma_closed_session_is_inert(
    dir: DirectoryView,
    id: u128,
    message: MessageView,
    deliveries: Seq<DeliveryView>,
    next: Next,
    after: DirectoryView,
)
    requires
        dir.phase(id) == SessionPhase::Closed,
        receive_step(dir, id, message, deliveries, next, after),
    ensures
        after == dir,
        dir.drop_session(id) == dir,
{
}

/// Every message that a step enqueues goes to a session of the directory or
/// back to the sender.
pub proof fn lemma_deliveries_have_a_target(
    dir: DirectoryView,
    id: u128,
    message: MessageView,
    deliveries: Seq<DeliveryView>,
    next: Next,
    after: DirectoryView,
    i: int,
)
    requires
        dir.wf(),
        receive_step(dir, id, message, deliveries, next, after),
        0 <= i < deliveries.len(),
    ensures
        deliveries[i].to == id || dir.sessions.contains_key(deliveries[i].to),
{
    if dir.access_level(id).allows(message.kind) && message.kind
        == MessageType::DirectMessageSend {
        let fields = message.fields;
        if let Some(recipient) = field_text(fields, 0) {
            if let Some(target) = dir.session_of(recipient) {
                assert(dir.users.contains_key(recipient));
            }
        }
    }
}

/// The server. It holds no state of its own: the directory is handed to each
/// step.
#[derive(Debug)]
pub struct Server {}

impl Server {
    /// A server.
    pub fn new() -> (server: Self)
        ensures
            server == (Server {}),
    {
        Self {}
    }

    /// The acceptor starts: the shutdown signal is connected to it.
    pub fn serve(&self, state: &mut SharedState)
        requires
            old(state).wf(),
        ensures
            final(state).wf(),
            final(state)@.users == old(state)@.users,
            final(state)@.sessions == old(state)@.sessions,
            final(state)@.shutdown == if old(state)@.shutdown == ShutdownSignal::Triggered {
                ShutdownSignal::Triggered
            } else {
                ShutdownSignal::Armed
            },
    {
        state.set_shutdown_signal();
    }

    /// Whether the acceptor still takes connections: it does until the
    /// shutdown signal has been given.
    pub fn accepting(state: &SharedState) -> (open: bool)
        ensures
            open == (state@.shutdown != ShutdownSignal::Triggered),
    {
        match state.shutdown_signal() {
            ShutdownSignal::Triggered => false,
            _ => true,
        }
    }

    /// Registers a fresh session under the given identifier, with the given
    /// instant as its first heartbeat. The session is taken unless the
    /// shutdown signal has been given or the identifier is taken; the
    /// directory is then left as it is.
    pub fn open_session(state: &mut SharedState, id: u128, now: Timestamp) -> (opened: bool)
        requires
            old(state).wf(),
        ensures
            final(state).wf(),
            opened == (old(state)@.shutdown != ShutdownSignal::Triggered && !old(state)@.is_active(
                id,
            )),
            final(state)@ == if opened {
                old(state)@.add_session(SessionView::fresh(id).heard_at(now))
            } else {
                old(state)@
            },
    {
        if !Server::accepting(state) {
            return false;
        }
        let mut session = Session::with_id(id);
        session.record_heartbeat(now);
        state.add_session(id, session)
    }

    /// A connection was accepted: a fresh session under a random identifier,
    /// with the time of the call as its first heartbeat, is registered. Gives
    /// the identifier. Gives `None`, and leaves the directory as it is, once
    /// the shutdown signal has been given, and in the event that the
    /// identifier drawn is already taken: never while the directory is empty.
    pub fn handle_connection(state: &mut SharedState) -> (session_id: Option<u128>)
        requires
            old(state).wf(),
        ensures
            final(state).wf(),
            exists|id: u128, now: Timestamp|
                #[trigger] connection_spec(old(state)@, id, now) == (session_id, final(state)@),
            old(state)@.shutdown == ShutdownSignal::Triggered ==> session_id is None,
            old(state)@.shutdown != ShutdownSignal::Triggered && old(state)@.sessions.dom()
                == Set::<u128>::empty() ==> session_id is Some,
            match session_id {
                Some(id) => !old(state)@.is_active(id) && final(state)@.is_active(id),
                None => final(state)@ == old(state)@,
            },
    {
        let id = random_u128();
        let now = utc_now();
        let session_id = if Server::open_session(state, id, now) {
            Some(id)
        } else {
            None
        };
        assert(connection_spec(old(state)@, id, now) == (session_id, state@));
        session_id
    }

    /// A frame was read, or reading failed. A failure stops the receive task
    /// and sends the sentinel to the session's own queue, which brings the
    /// send task and the session down. A frame is checked against the access
    /// table and, if allowed, dispatched to its handler.
    pub fn handle_receive(
        state: &mut SharedState,
        session_id: u128,
        received: Result<Message, ProtocolError>,
    ) -> (step: ReceiveStep)
        requires
            old(state).wf(),
        ensures
            final(state).wf(),
            match received {
                Err(_) => delivery_views(step.deliveries@) == seq![wind_down(session_id)]
                    && step.next == Next::Stop && final(state)@ == old(state)@,
                Ok(message) => receive_step(
                    old(state)@,
                    session_id,
                    message@,
                    delivery_views(step.deliveries@),
                    step.next,
                    final(state)@,
                ),
            },
    {
        let message = match received {
            Err(_) => {
                let mut deliveries: Vec<Delivery> = Vec::new();
                deliveries.push(Delivery { to: session_id, message: Message::break_sentinel() });
                assert(delivery_views(deliveries@) =~= seq![wind_down(session_id)]);
                return ReceiveStep { deliveries, next: Next::Stop };
            },
            Ok(message) => message,
        };
        let mut deliveries: Vec<Delivery> = Vec::new();
        let kind = message.message_type();
        if !state.get_access_level(session_id).can_access(&kind) {
            deliveries.push(Delivery { to: session_id, message: Message::nack() });
            assert(delivery_views(deliveries@) =~= seq![refusal(session_id)]);
            return ReceiveStep { deliveries, next: Next::Continue };
        }
        match kind {
            MessageType::Disconnect => {
                deliveries.push(Delivery { to: session_id, message: Message::break_sentinel() });
                assert(delivery_views(deliveries@) =~= seq![wind_down(session_id)]);
                ReceiveStep { deliveries, next: Next::Stop }
            },
            MessageType::Heartbeat => {
                handle_heartbeat(&message, state, session_id);
                assert(delivery_views(deliveries@) =~= Seq::<DeliveryView>::empty());
                ReceiveStep { deliveries, next: Next::Continue }
            },
            MessageType::Auth => {
                let reply = handle_auth(&message, state, session_id);
                let ghost view = reply@;
                deliveries.push(Delivery { to: session_id, message: reply });
                assert(delivery_views(deliveries@) =~= self::reply(session_id, view));
                ReceiveStep { deliveries, next: Next::Continue }
            },
            MessageType::AuthCreate => {
                let reply = handle_auth_create(&message, state, session_id);
                let ghost view = reply@;
                deliveries.push(Delivery { to: session_id, message: reply });
                assert(delivery_views(deliveries@) =~= self::reply(session_id, view));
                ReceiveStep { deliveries, next: Next::Continue }
            },
            MessageType::ServerDebugLog => {
                assert(delivery_views(deliveries@) =~= Seq::<DeliveryView>::empty());
                ReceiveStep { deliveries, next: Next::DebugLog }
            },
            MessageType::ServerShutdown => match handle_server_shutdown(&message, state) {
                Some((timeout, warnings)) => ReceiveStep {
                    deliveries: warnings,
                    next: Next::Shutdown(timeout),
                },
                None => {
                    deliveries.push(Delivery { to: session_id, message: Message::nack() });
                    assert(delivery_views(deliveries@) =~= seq![refusal(session_id)]);
                    ReceiveStep { deliveries, next: Next::Continue }
                },
            },
            MessageType::DirectMessageSend => {
                let delivery = handle_direct_message_send(&message, state, session_id);
                let ghost view = delivery@;
                deliveries.push(delivery);
                assert(delivery_views(deliveries@) =~= seq![view]);
                ReceiveStep { deliveries, next: Next::Continue }
            },
            _ => {
                assert(delivery_views(deliveries@) =~= Seq::<DeliveryView>::empty());
                ReceiveStep { deliveries, next: Next::Continue }
            },
        }
    }

    /// A message was taken from the outbound queue, or the queue turned out
    /// to be closed. The sentinel is never written: it tears the session
    /// down and stops the send task, and so does a closed queue. Any other
    /// message is to be written as its frame.
    pub fn handle_send(state: &mut SharedState, session_id: u128, message: Option<&Message>) -> (step:
        SendStep)
        requires
            old(state).wf(),
        ensures
            final(state).wf(),
            match step {
                SendStep::Stop => (message matches Some(m) ==> m@.kind == MessageType::Break)
                    && final(state)@ == old(state)@.drop_session(session_id),
                SendStep::Write(bytes) => message matches Some(m) && m@.kind != MessageType::Break
                    && bytes@ == frame(m@) && final(state)@ == old(state)@,
            },
    {
        match message {
            Some(message) => {
                if message.is(MessageType::Break) {
                    Server::handle_disconnect(state, session_id);
                    SendStep::Stop
                } else {
                    SendStep::Write(message.encode())
                }
            },
            None => {
                Server::handle_disconnect(state, session_id);
                SendStep::Stop
            },
        }
    }

    /// A write finished. The send task goes on if the write succeeded and
    /// the message was not `Disconnect`; otherwise the session is torn down
    /// and the task stops.
    pub fn after_send(state: &mut SharedState, session_id: u128, message: &Message, written: bool) -> (go_on:
        bool)
        requires
            old(state).wf(),
        ensures
            final(state).wf(),
            go_on == (written && message@.kind != MessageType::Disconnect),
            final(state)@ == if go_on {
                old(state)@
            } else {
                old(state)@.drop_session(session_id)
            },
    {
        if !written || message.is(MessageType::Disconnect) {
            Server::handle_disconnect(state, session_id);
            false
        } else {
            true
        }
    }

    /// Tears a session down. Doing so again changes nothing.
    pub fn handle_disconnect(state: &mut SharedState, session_id: u128)
        requires
            old(state).wf(),
        ensures
            final(state).wf(),
            final(state)@ == old(state)@.drop_session(session_id),
            !final(state)@.is_active(session_id),
    {
        state.close_session(session_id);
    }

    /// The heartbeat timer ticked: a heartbeat with the local time is to be
    /// enqueued, on every tick. Its one field is the clock's text, a written
    /// timestamp of 25 to 42 bytes.
    pub fn handle_heartbeat() -> (message: Message)
        ensures
            message@.kind == MessageType::Heartbeat,
            message@.fields.len() == 1,
            25 <= message@.fields[0].len() <= 42,
            message@.intact(),
            carries_timestamp(message@),
    {
        Message::heartbeat()
    }
}

/// What accepting a connection comes to for the identifier and the instant
/// that were drawn. Unless the shutdown signal has been given or the
/// identifier is taken, a fresh session under the identifier, with the
/// instant as its first heartbeat, joins the directory and the identifier is
/// handed out. Otherwise nothing is handed out and nothing changes.
pub open spec fn connection_spec(dir: DirectoryView, id: u128, now: Timestamp) -> (
    Option<u128>,
    DirectoryView,
) {
    if dir.shutdown != ShutdownSignal::Triggered && !dir.is_active(id) {
        (Some(id), dir.add_session(SessionView::fresh(id).heard_at(now)))
    } else {
        (None, dir)
    }
}

} // verus!
