//! Administration: the shutdown of the whole server.

use vstd::prelude::*;
use crate::bytes::{be_bytes_u64, read_be_u64, u64_from_be_bytes};
use crate::directory::model::{DirectoryView, ShutdownSignal};
use crate::directory::shared_state::SharedState;
use crate::handles::{delivery_views, Delivery, DeliveryView};
use crate::protocol::kind::MessageType;
use crate::protocol::message::{sealed, Message, MessageView};

verus! {

/// The timeout that a `ServerShutdown` or `ServerShutdownWarning` frame
/// carries: its first field, where that is exactly eight bytes, read as a
/// big-endian number of seconds.
pub open spec fn timeout_spec(fields: Seq<Seq<u8>>) -> Option<u64> {
    if fields.len() >= 1 && fields[0].len() == 8 {
        Some(u64_from_be_bytes(fields[0]))
    } else {
        None
    }
}

/// Reads the timeout that a shutdown frame carries.
pub fn shutdown_timeout(message: &Message) -> (timeout: Option<u64>)
    ensures
        timeout == timeout_spec(message@.fields),
{
    let payload = message.payload();
    if payload.len() < 1 {
        return None;
    }
    let field = payload.field(0);
    if field.len() != 8 {
        return None;
    }
    assert(field@.subrange(0, 8) =~= field@);
    Some(read_be_u64(field, 0))
}

/// The deliveries carry one message to every session of the directory, to
/// each exactly once.
pub open spec fn reaches_all(
    deliveries: Seq<DeliveryView>,
    dir: DirectoryView,
    message: MessageView,
) -> bool {
    &&& forall|i: int|
        0 <= i < deliveries.len() ==> (#[trigger] deliveries[i]).message == message
            && dir.sessions.contains_key(deliveries[i].to)
    &&& forall|i: int, j: int|
        0 <= i < j < deliveries.len() ==> (#[trigger] deliveries[i]).to != (
        #[trigger] deliveries[j]).to
    &&& forall|id: u128|
        dir.sessions.contains_key(id) ==> exists|i: int|
            0 <= i < deliveries.len() && (#[trigger] deliveries[i]).to == id
}

/// Addresses a copy of the message to every session in the directory, in no
/// particular order.
pub fn broadcast(state: &SharedState, message: &Message) -> (deliveries: Vec<Delivery>)
    requires
        state.wf(),
    ensures
        reaches_all(delivery_views(deliveries@), state@, message@),
{
    let ids = state.sessions();
    let mut deliveries: Vec<Delivery> = Vec::new();
    let mut i: usize = 0;
    while i < ids.len()
        invariant
            i <= ids@.len(),
            deliveries@.len() == i,
            forall|k: int|
                0 <= k < i ==> (#[trigger] deliveries@[k])@ == (DeliveryView {
                    to: ids@[k],
                    message: message@,
                }),
        decreases ids@.len() - i,
    {
        deliveries.push(Delivery { to: ids[i], message: message.clone() });
        i += 1;
    }
    proof {
        let views = delivery_views(deliveries@);
        assert forall|k: int| 0 <= k < views.len() implies (#[trigger] views[k]).message == message@
            && state@.sessions.contains_key(views[k].to) by {
            assert(deliveries@[k]@.to == ids@[k]);
            assert(ids@.contains(ids@[k]));
        }
        assert forall|a: int, b: int| 0 <= a < b < views.len() implies (#[trigger] views[a]).to != (
        #[trigger] views[b]).to by {
            assert(deliveries@[a]@.to == ids@[a]);
            assert(deliveries@[b]@.to == ids@[b]);
        }
        assert forall|id: u128| state@.sessions.contains_key(id) implies exists|k: int|
            0 <= k < views.len() && (#[trigger] views[k]).to == id by {
            assert(ids@.contains(id));
            let k = choose|k: int| 0 <= k < ids@.len() && ids@[k] == id;
            assert(deliveries@[k]@.to == ids@[k]);
            assert(views[k].to == id);
        }
    }
    deliveries
}

/// Handles a `ServerShutdown` frame, first part: reads the timeout and warns
/// every session of it. The caller waits for the timeout and then goes on
/// with `finish_server_shutdown`. A frame without a timeout gives `None`.
pub fn handle_server_shutdown(message: &Message, state: &SharedState) -> (plan: Option<
    (u64, Vec<Delivery>),
>)
    requires
        state.wf(),
    ensures
        match plan {
            Some((timeout, warnings)) => timeout_spec(message@.fields) == Some(timeout)
                && reaches_all(
                delivery_views(warnings@),
                state@,
                sealed(MessageType::ServerShutdownWarning, seq![be_bytes_u64(timeout)]),
            ),
            None => timeout_spec(message@.fields) is None,
        },
{
    match shutdown_timeout(message) {
        None => None,
        Some(timeout) => {
            let warning = Message::server_shutdown_warning(timeout);
            Some((timeout, broadcast(state, &warning)))
        },
    }
}

/// The shutdown, second part, once the timeout has passed: tells every
/// session that is still there to disconnect and gives the shutdown signal.
/// The flag says whether the acceptor is to be told.
pub fn finish_server_shutdown(state: &mut SharedState) -> (outcome: (Vec<Delivery>, bool))
    requires
        old(state).wf(),
    ensures
        final(state).wf(),
        reaches_all(
            delivery_views(outcome.0@),
            old(state)@,
            sealed(MessageType::Disconnect, Seq::empty()),
        ),
        outcome.1 == (old(state)@.shutdown == ShutdownSignal::Armed),
        final(state)@ == (DirectoryView {
            shutdown: if outcome.1 {
                ShutdownSignal::Triggered
            } else {
                old(state)@.shutdown
            },
            ..old(state)@
        }),
{
    let notice = Message::disconnect();
    let deliveries = broadcast(state, &notice);
    let notify = state.trigger_shutdown();
    (deliveries, notify)
}

} // verus!
