//! The request handlers: what each HTTP call does to the registry and what
//! it answers.

use vstd::prelude::*;
use vstd::string::StringExecFns;
use crate::ident::{fresh_id, is_connection_id};
use crate::registry::{
    delivery_ids, fresh_record, recipients, registered, Delivery, Registry, RegistryError,
};

verus! {

/// The body of a registration call.
#[derive(Debug, Clone)]
pub struct RegisterRequest {
    /// The logical user to register a connection for.
    pub user_id: usize,
}

/// The answer to a registration call: where to open the connection.
#[derive(Debug, Clone)]
pub struct RegisterResponse {
    /// The endpoint of the new connection id.
    pub url: String,
}

/// The body of a publish call.
#[derive(Debug, Clone)]
pub struct Event {
    /// The topic published on.
    pub topic: String,
    /// If given, only connections of this user are reached.
    pub user_id: Option<usize>,
    /// The payload, delivered as it is.
    pub message: String,
}

/// A topic list as it travels in a request body.
#[derive(Debug, Clone)]
pub struct TopicsRequest {
    pub topics: Vec<String>,
}

/// A plain-text answer with its status code.
#[derive(Debug, Clone)]
pub struct Reply {
    pub status: u16,
    pub body: String,
}

/// The answer of the liveness probe.
#[derive(Debug, Clone)]
pub struct Health {
    pub success: bool,
    pub message: String,
}

/// Why a connection attempt was turned away.
#[derive(Debug, Clone, Copy, PartialEq, Eq, Structural)]
pub enum ConnectionError {
    /// The id is not registered.
    UnknownClient,
}

/// The status of a successful call.
pub const STATUS_OK: u16 = 200;

/// The status of a call that names an unknown id.
pub const STATUS_NOT_FOUND: u16 = 404;

/// What every connection endpoint starts with; the id follows.
pub const ENDPOINT_PREFIX: &'static str = "ws://127.0.0.1:8000/ws/";

/// The body of the answer to an unregistration that found its id, up to the id.
pub const REMOVED_PREFIX: &'static str = "Client removed with id ";

/// The body of the answer to an unregistration that found nothing, up to the id.
pub const NOT_FOUND_PREFIX: &'static str = "Client not found with id ";

/// The body of the answer to a publication.
pub const PUBLISHED: &'static str = "Published event";

/// The message of the liveness probe.
pub const HEALTH_MESSAGE: &'static str = "Route Working Properly";

/// The endpoint on which the connection `id` is opened.
pub open spec fn endpoint(id: Seq<char>) -> Seq<char> {
    ENDPOINT_PREFIX@ + id
}

/// Registers `id` for `user_id` and answers with its endpoint. Fails with
/// `DuplicateId`, changing nothing, exactly when `id` is already registered.
pub fn register_client(registry: &mut Registry, id: String, user_id: usize) -> (outcome: Result<
    RegisterResponse,
    RegistryError,
>)
    ensures
        outcome is Ok <==> !old(registry)@.contains_key(id@),
        outcome matches Ok(response) ==> response.url@ == endpoint(id@),
        outcome matches Err(e) ==> e == RegistryError::DuplicateId,
        final(registry)@ == registered(old(registry)@, id@, user_id),
{
    let url = ENDPOINT_PREFIX.to_owned().concat(id.as_str());
    match registry.register(id, user_id) {
        Ok(()) => Ok(RegisterResponse { url }),
        Err(e) => Err(e),
    }
}

/// Registers a new connection for the user in `body` under a fresh random
/// id, and answers with the id and its endpoint.
///
/// A returned id was not registered before the call. The call fails, with
/// `DuplicateId` and changing nothing, only if the id it drew is already
/// registered.
pub fn register_handler(registry: &mut Registry, body: &RegisterRequest) -> (outcome: Result<
    (String, RegisterResponse),
    RegistryError,
>)
    ensures
        match outcome {
            Ok((id, response)) => {
                &&& is_connection_id(id@)
                &&& !old(registry)@.contains_key(id@)
                &&& final(registry)@ == old(registry)@.insert(id@, fresh_record(body.user_id))
                &&& response.url@ == endpoint(id@)
            },
            Err(e) => {
                &&& e == RegistryError::DuplicateId
                &&& final(registry)@ == old(registry)@
                &&& exists|id: Seq<char>|
                    is_connection_id(id) && #[trigger] old(registry)@.contains_key(id)
            },
        },
{
    let id = fresh_id();
    let key = id.clone();
    match register_client(registry, id, body.user_id) {
        Ok(response) => Ok((key, response)),
        Err(e) => Err(e),
    }
}

/// Says whether a connection may be opened on `id`: it may exactly when `id`
/// is registered.
pub fn ws_handler(registry: &Registry, id: &str) -> (outcome: Result<(), ConnectionError>)
    ensures
        outcome is Ok <==> registry@.contains_key(id@),
{
    if registry.contains(id) {
        Ok(())
    } else {
        Err(ConnectionError::UnknownClient)
    }
}

/// What [`unregister_handler`] answers.
pub open spec fn unregister_reply(found: bool, id: Seq<char>) -> (u16, Seq<char>) {
    if found {
        (STATUS_OK, REMOVED_PREFIX@ + id)
    } else {
        (STATUS_NOT_FOUND, NOT_FOUND_PREFIX@ + id)
    }
}

/// Removes the registry entry of `id` and says whether there was one. A
/// connection that is live under `id` is not touched: it ends on its own.
pub fn unregister_handler(registry: &mut Registry, id: &str) -> (reply: Reply)
    ensures
        (reply.status, reply.body@) == unregister_reply(old(registry)@.contains_key(id@), id@),
        final(registry)@ == old(registry)@.remove(id@),
{
    match registry.remove(id) {
        Some(_) => Reply {
            status: STATUS_OK,
            body: REMOVED_PREFIX.to_owned().concat(id),
        },
        None => Reply {
            status: STATUS_NOT_FOUND,
            body: NOT_FOUND_PREFIX.to_owned().concat(id),
        },
    }
}

/// Publishes `body.message` on `body.topic`, to the user `body.user_id` if
/// one is given, and acknowledges. The answer is the same however many
/// connections were reached.
pub fn publish_handler(registry: &Registry, body: &Event) -> (published: (Reply, Vec<Delivery>))
    ensures
        published.0.status == STATUS_OK,
        published.0.body@ == PUBLISHED@,
        delivery_ids(published.1@).no_duplicates(),
        delivery_ids(published.1@).to_set() == recipients(
            registry@,
            body.topic@,
            body.user_id,
        ),
{
    let deliveries = registry.publish(body.topic.as_str(), body.user_id, body.message.as_str());
    (Reply { status: STATUS_OK, body: PUBLISHED.to_owned() }, deliveries)
}

/// The liveness probe: always the same answer.
pub fn health_handler() -> (health: Health)
    ensures
        health.success,
        health.message@ == HEALTH_MESSAGE@,
{
    Health { success: true, message: HEALTH_MESSAGE.to_owned() }
}

} // verus!
