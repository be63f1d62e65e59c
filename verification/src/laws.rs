//! What holds of the relay over whole histories of calls, proved from the
//! models that the contracts of the operations are stated in.

use vstd::prelude::*;
use crate::handlers::{unregister_reply, STATUS_NOT_FOUND};
use crate::registry::{recipients, registered, subscribed, ClientView};
use crate::ws::{
    after_frame, ends_stream, frame_outcome, keepalive, next_action, next_records, next_state,
    ConnectionAction, ConnectionEvent, ConnectionState, Frame, FrameOutcome, TopicRequest,
};

verus! {

/// One call on the relay, as the registry sees it.
pub enum Operation {
    /// A registration of `id` for `user_id`.
    Register { id: Seq<char>, user_id: usize },
    /// An unregistration of `id`.
    Unregister { id: Seq<char> },
    /// A publication.
    Publish { topic: Seq<char>, filter: Option<usize> },
    /// One step of the connection `id`, taken in `state` on `event`.
    Connection { id: Seq<char>, state: ConnectionState, event: ConnectionEvent },
}

/// The registry after `op`, as the contracts of the operations give it.
pub open spec fn apply(records: Map<Seq<char>, ClientView>, op: Operation) -> Map<
    Seq<char>,
    ClientView,
> {
    match op {
        Operation::Register { id, user_id } => registered(records, id, user_id),
        Operation::Unregister { id } => records.remove(id),
        Operation::Publish { .. } => records,
        Operation::Connection { id, state, event } => next_records(records, id, state, event),
    }
}

/// The registry after a history of calls on an empty one.
pub open spec fn replay(ops: Seq<Operation>) -> Map<Seq<char>, ClientView>
    decreases ops.len(),
{
    if ops.len() == 0 {
        Map::empty()
    } else {
        apply(replay(ops.drop_last()), ops.last())
    }
}

/// Whether `op` is a registration of `id`.
pub open spec fn registers(op: Operation, id: Seq<char>) -> bool {
    op matches Operation::Register { id: registered, .. } && registered == id
}

/// Whether `op` takes `id` out of the registry: an unregistration, or the
/// end of the stream of a connection that was upgraded.
pub open spec fn removes(op: Operation, id: Seq<char>) -> bool {
    match op {
        Operation::Unregister { id: gone } => gone == id,
        Operation::Connection { id: gone, state, event } => gone == id && (state is Connecting
            || state is Connected) && ends_stream(event),
        _ => false,
    }
}

/// Whether `id` was registered at some point of `ops` and not removed since.
pub open spec fn live(ops: Seq<Operation>, id: Seq<char>) -> bool {
    exists|i: int|
        0 <= i < ops.len() && registers(#[trigger] ops[i], id) && forall|j: int|
            i < j < ops.len() ==> !removes(#[trigger] ops[j], id)
}

/// One call keeps an entry exactly when it registers it, or it was there and
/// the call does not remove it.
pub proof fn law_entry_through_one_call(
    records: Map<Seq<char>, ClientView>,
    op: Operation,
    id: Seq<char>,
)
    ensures
        apply(records, op).contains_key(id) <==> registers(op, id) || (records.contains_key(id)
            && !removes(op, id)),
{
}

/// After any history of registrations, unregistrations, publications and
/// connection steps, an entry exists for an id exactly when the id was
/// registered and neither unregistered nor disconnected since.
pub proof fn law_entry_exists_iff_live(ops: Seq<Operation>, id: Seq<char>)
    ensures
        replay(ops).contains_key(id) <==> live(ops, id),
    decreases ops.len(),
{
    if ops.len() > 0 {
        let earlier = ops.drop_last();
        let last = ops.last();
        let n = ops.len() - 1;
        law_entry_exists_iff_live(earlier, id);
        law_entry_through_one_call(replay(earlier), last, id);
        if live(ops, id) {
            let i = choose|i: int|
                0 <= i < ops.len() && registers(#[trigger] ops[i], id) && forall|j: int|
                    i < j < ops.len() ==> !removes(#[trigger] ops[j], id);
            if i < n {
                assert(registers(earlier[i], id));
                assert forall|j: int| i < j < earlier.len() implies !removes(
                    #[trigger] earlier[j],
                    id,
                ) by {
                    assert(earlier[j] == ops[j]);
                }
                assert(live(earlier, id));
                assert(!removes(ops[n], id));
            }
        }
        if registers(last, id) {
            assert(registers(ops[n], id));
            assert(live(ops, id));
        }
        if live(earlier, id) && !removes(last, id) {
            let i = choose|i: int|
                0 <= i < earlier.len() && registers(#[trigger] earlier[i], id) && forall|j: int|
                    i < j < earlier.len() ==> !removes(#[trigger] earlier[j], id);
            assert(registers(ops[i], id));
            assert forall|j: int| i < j < ops.len() implies !removes(#[trigger] ops[j], id) by {
                if j < n {
                    assert(ops[j] == earlier[j]);
                }
            }
            assert(live(ops, id));
        }
    }
}

/// No call changes the user of an entry that it keeps: the user is fixed at
/// registration.
pub proof fn law_user_is_fixed(records: Map<Seq<char>, ClientView>, op: Operation, id: Seq<char>)
    requires
        records.contains_key(id),
        apply(records, op).contains_key(id),
    ensures
        apply(records, op)[id].user_id == records[id].user_id,
{
}

/// Whether `op` attaches a delivery channel to `id`.
pub open spec fn attaches(op: Operation, id: Seq<char>) -> bool {
    op matches Operation::Connection { id: opened, state, event } && opened == id
        && state is Connecting && event is ChannelOpened
}

/// An entry is connected only if a delivery channel was attached to its id:
/// a registration alone leaves it unconnected.
pub proof fn law_connected_only_after_attach(ops: Seq<Operation>, id: Seq<char>)
    requires
        replay(ops).contains_key(id),
        replay(ops)[id].connected(),
    ensures
        exists|i: int| 0 <= i < ops.len() && attaches(#[trigger] ops[i], id),
    decreases ops.len(),
{
    if ops.len() > 0 {
        let earlier = ops.drop_last();
        let last = ops.last();
        let n = ops.len() - 1;
        if attaches(last, id) {
            assert(attaches(ops[n], id));
        } else {
            assert(replay(earlier).contains_key(id) && replay(earlier)[id].connected());
            law_connected_only_after_attach(earlier, id);
            let i = choose|i: int| 0 <= i < earlier.len() && attaches(#[trigger] earlier[i], id);
            assert(attaches(ops[i], id));
        }
    }
}

/// An id that no call of a history registered has no entry, and
/// unregistering it answers not-found.
pub proof fn law_never_registered_is_not_found(ops: Seq<Operation>, id: Seq<char>)
    requires
        forall|i: int| 0 <= i < ops.len() ==> !registers(#[trigger] ops[i], id),
    ensures
        !replay(ops).contains_key(id),
        unregister_reply(replay(ops).contains_key(id), id).0 == STATUS_NOT_FOUND,
{
    law_entry_exists_iff_live(ops, id);
}

/// Unregistering removes the entry at once, also under a live connection.
/// What that connection does afterwards leaves the registry alone: its
/// frames change nothing, and the removal at its end finds nothing.
pub proof fn law_unregistered_connection_is_inert(
    records: Map<Seq<char>, ClientView>,
    id: Seq<char>,
    event: ConnectionEvent,
)
    ensures
        !records.remove(id).contains_key(id),
        next_records(records.remove(id), id, ConnectionState::Connected, event) == records.remove(
            id,
        ),
{
    assert(records.remove(id).remove(id) =~= records.remove(id));
}

/// A connected record that replaced its topics is reached by a publication
/// without user filter exactly when the published topic is among them.
pub proof fn law_topics_decide_delivery(
    records: Map<Seq<char>, ClientView>,
    id: Seq<char>,
    topics: Seq<Seq<char>>,
    topic: Seq<char>,
)
    requires
        records.contains_key(id),
        records[id].connected(),
    ensures
        recipients(subscribed(records, id, topics), topic, None).contains(id) <==> topics.contains(
            topic,
        ),
{
}

/// A publication with a user filter reaches only records of that user: a
/// record of another user is not reached, whatever its topics.
pub proof fn law_user_filter_is_exact(
    records: Map<Seq<char>, ClientView>,
    topic: Seq<char>,
    user_id: usize,
    id: Seq<char>,
)
    ensures
        recipients(records, topic, Some(user_id)).contains(id) ==> records[id].user_id == user_id,
        recipients(records, topic, Some(user_id)).contains(id) <==> recipients(
            records,
            topic,
            None,
        ).contains(id) && records[id].user_id == user_id,
{
}

/// A record that is registered but not connected is never reached.
pub proof fn law_unconnected_is_skipped(
    records: Map<Seq<char>, ClientView>,
    topic: Seq<char>,
    user_id: Option<usize>,
    id: Seq<char>,
)
    requires
        records.contains_key(id) ==> !records[id].connected(),
    ensures
        !recipients(records, topic, user_id).contains(id),
{
}

/// The keepalive token changes no record, whatever the decoder made of it,
/// and asks for nothing but the next read: no answer goes out.
pub proof fn law_keepalive_changes_nothing(
    records: Map<Seq<char>, ClientView>,
    id: Seq<char>,
    message: String,
    request: Option<TopicRequest>,
)
    requires
        keepalive(message@),
    ensures
        ({
            let frame = Frame::Text { message, request };
            let event = ConnectionEvent::Received(frame);
            &&& frame_outcome(records, id, frame) == FrameOutcome::Keepalive
            &&& after_frame(records, id, frame) == records
            &&& next_records(records, id, ConnectionState::Connected, event) == records
            &&& next_state(records, id, ConnectionState::Connected, event)
                == ConnectionState::Connected
            &&& next_action(records, id, ConnectionState::Connected, event)
                == ConnectionAction::Read
        }),
{
}

/// A frame that is not a topic update changes no record and leaves the
/// connection open and reading.
pub proof fn law_malformed_changes_nothing(
    records: Map<Seq<char>, ClientView>,
    id: Seq<char>,
    message: String,
)
    ensures
        ({
            let frame = Frame::Text { message, request: None };
            let event = ConnectionEvent::Received(frame);
            &&& after_frame(records, id, frame) == records
            &&& !keepalive(message@) ==> frame_outcome(records, id, frame)
                == FrameOutcome::Malformed
            &&& next_records(records, id, ConnectionState::Connected, event) == records
            &&& next_state(records, id, ConnectionState::Connected, event)
                == ConnectionState::Connected
            &&& next_action(records, id, ConnectionState::Connected, event)
                == ConnectionAction::Read
        }),
{
}

} // verus!
