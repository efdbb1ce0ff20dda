//! Addresses of actors and the messages they exchange.

use crate::active::ActiveAddr;
use crate::async_actor::AsyncAddr;
use crate::payload::Payload;
use crate::reactive::ReactiveAddr;
use vstd::prelude::*;

verus! {

/// Identifier of a request that allows to drop response not part of the transaction.
pub type RequestId = u32;

/// Identify an actor.
///
/// Identifiers are drawn at random over 64 bits: two actors share one only by a rare
/// chance, and the reactives of one dispatcher always get identifiers that differ from
/// each other and from the dispatcher's (see `register_reactive`).
///
/// This is necessary to compare actor addresses.
/// The memory address can not be used because an actor
/// could be recreated at the same memory space of a previous
/// actor.
pub type ActorId = u64;

/// The identifier of no actor, the one of an invalid address.
pub const INVALID_ACTOR_ID: ActorId = 0;

/// Way to send message to an actor: invalid, or to one of the implementations of an actor.
#[derive(Debug)]
pub enum Addr {
    Invalid,
    Reactive(ReactiveAddr),
    Active(ActiveAddr),
    Async(AsyncAddr),
}

/// The basic block of information that can be exchanged between actors.
#[derive(Debug)]
pub enum Message {
    Request(Request),
    Response(Response),
    Notification(Notification),
}

/// Message to ask something and that will generate a `Response` to `src` with `request_id`=`id`.
#[derive(Debug)]
pub struct Request {
    pub src: Addr,
    pub id: RequestId,
    pub data: Payload,
}

/// Message to respond to a `Request`.
#[derive(Debug)]
pub struct Response {
    pub request_id: RequestId,
    pub result: Result<Payload, ErrorStatus>,
}

/// Message without any confirmation.
#[derive(Debug)]
pub struct Notification {
    pub data: Payload,
}

/// Error returned during actor operations.
#[derive(Debug)]
pub enum Error {
    /// This address do not point to any actor.
    AddrUnreachable,
    /// The queue of the actor is full.
    QueueFull,
    /// The mechanism used to receive message had an error.
    BrokenReceive,
    /// The request was queued but the actor disappeared before the processing of the message.
    ActorDisappeared,
    /// An operation with a maximum fixed duration failed to complete in time.
    Timeout,
    /// A `try_wait_message` returned no message.
    NoMessage,
    /// An attempt to downcast a dyn any failed.
    DowncastFailed,
}

/// Error information returned in the Response when a Request failed at the transport level.
#[derive(Debug)]
pub struct ErrorStatus {
    pub error: Error,
    pub request_data: Payload,
}


/// `RandomState::new()`: hash keys drawn at random for each thread and renewed at each call.
#[verifier::external_body]
fn random_state() -> (r: std::collections::hash_map::RandomState) {
    std::collections::hash_map::RandomState::new()
}

/// `BuildHasher::hash_one(state, 0u8)`: nothing is stated of the hash.
#[verifier::external_body]
fn hash_of_zero(state: &std::collections::hash_map::RandomState) -> (r: u64) {
    std::hash::BuildHasher::hash_one(state, 0u8)
}

/// A new actor identifier, drawn from freshly seeded hash keys, never the invalid one.
/// It is not checked against the identifiers drawn before: it differs from them with a
/// high probability only.
pub fn generate_actor_id() -> (r: ActorId)
    ensures
        r != INVALID_ACTOR_ID,
{
    let h = hash_of_zero(&random_state());
    if h == INVALID_ACTOR_ID {
        1
    } else {
        h
    }
}

/// True for the errors that queuing a message can give: the queue is full or gone.
pub open spec fn is_send_error(e: Error) -> bool {
    e is QueueFull || e is AddrUnreachable
}

/// What the queue of `dst` can answer to a request handed to it: accepted, or refused with
/// a send error, always `AddrUnreachable` for the invalid address.
pub open spec fn delivers(dst: Addr, d: Result<(), Error>) -> bool {
    &&& dst is Invalid ==> d == Err::<(), Error>(Error::AddrUnreachable)
    &&& d matches Err(e) ==> is_send_error(e)
}

/// A request handed to an address: its destination, its source, its identifier, and what
/// the queue of the destination answered.
pub struct RequestSent {
    pub dst: ActorId,
    pub src: ActorId,
    pub id: RequestId,
    pub delivery: Result<(), Error>,
}

/// `after` is `before` with one more request, from `src` to `dst` with the identifier `id`.
pub open spec fn hands_request(
    before: Seq<RequestSent>,
    after: Seq<RequestSent>,
    dst: Addr,
    src: ActorId,
    id: RequestId,
) -> bool {
    &&& after.len() == before.len() + 1
    &&& after.drop_last() == before
    &&& after.last().dst == dst.id()
    &&& after.last().src == src
    &&& after.last().id == id
    &&& delivers(dst, after.last().delivery)
}

/// Send notification.
///
/// ProcessContext::send_notification() and ActiveMailbox::send_notification()
/// are preferred because they allow future thread local memory allocation.
pub fn send_notification<T: 'static + Send>(dst_addr: &Addr, data: T) -> (r: Result<(), Error>)
    ensures
        dst_addr is Invalid ==> r matches Err(Error::AddrUnreachable),
        r matches Err(e) ==> is_send_error(e),
{
    dst_addr.receive_notification(data)
}

impl Message {
    /// Create a empty message of type Notification with empty ()) data.
    pub fn new() -> (r: Message)
        ensures
            r is Notification,
    {
        Message::Notification(Notification { data: Payload::new(()) })
    }
}

impl Default for Message {
    fn default() -> (r: Self)
        ensures
            r is Notification,
    {
        Self::new()
    }
}

impl Addr {
    /// The identifier of the actor the address points to; `INVALID_ACTOR_ID` for an invalid one.
    pub open spec fn id(self) -> ActorId {
        match self {
            Addr::Invalid => INVALID_ACTOR_ID,
            Addr::Reactive(r) => r.dst_id,
            Addr::Active(a) => a.id,
            Addr::Async(a) => a.id,
        }
    }

    /// The address that points to no actor.
    pub const INVALID: Addr = Addr::Invalid;

    /// Create an new Invalid address.
    pub fn new() -> (r: Addr)
        ensures
            r is Invalid,
    {
        Addr::Invalid
    }

    /// The identifier of the actor.
    pub fn actor_id(&self) -> (r: ActorId)
        ensures
            r == self.id(),
    {
        match self {
            Addr::Invalid => INVALID_ACTOR_ID,
            Addr::Reactive(reactive_addr) => reactive_addr.actor_id(),
            Addr::Active(active_addr) => active_addr.actor_id(),
            Addr::Async(async_addr) => async_addr.actor_id(),
        }
    }

    /// Return true if the address points to a valid implementation.
    ///
    /// This does not imply the actor is reachable or still exists,
    /// only the address is not invalid.
    pub fn is_valid(&self) -> (r: bool)
        ensures
            r == !(self is Invalid),
    {
        match self {
            Addr::Invalid => false,
            _ => true,
        }
    }

    /// A copy of the address, that points to the same actor.
    pub fn duplicate(&self) -> (r: Addr)
        ensures
            r.id() == self.id(),
            r is Invalid <==> self is Invalid,
            r is Reactive <==> self is Reactive,
            r is Active <==> self is Active,
            r is Async <==> self is Async,
    {
        match self {
            Addr::Invalid => Addr::Invalid,
            Addr::Reactive(reactive_addr) => Addr::Reactive(reactive_addr.duplicate()),
            Addr::Active(active_addr) => Addr::Active(active_addr.duplicate()),
            Addr::Async(async_addr) => Addr::Async(async_addr.duplicate()),
        }
    }

    /// Allows to send a notification to the address.
    pub(crate) fn receive_notification<T: 'static + Send>(&self, data: T) -> (r: Result<(), Error>)
        ensures
            self is Invalid ==> r matches Err(Error::AddrUnreachable),
            r matches Err(e) ==> is_send_error(e),
    {
        match self {
            Addr::Invalid => Err(Error::AddrUnreachable),
            Addr::Reactive(reactive_addr) => reactive_addr.receive_notification(data),
            Addr::Active(active_addr) => active_addr.receive_notification(data),
            Addr::Async(async_addr) => async_addr.receive_notification(data),
        }
    }

    /// Queue a request from `src`; when it cannot be queued, `src` receives an error
    /// response, and the error is returned.
    pub(crate) fn receive_request<T: 'static + Send>(&self, src: &Addr, id: RequestId, data: T) -> (r:
        Result<(), Error>)
        ensures
            delivers(*self, r),
    {
        match self {
            Addr::Invalid => {
                let _ = src.receive_err_response(
                    id,
                    ErrorStatus { error: Error::AddrUnreachable, request_data: Payload::new(data) },
                );
                Err(Error::AddrUnreachable)
            },
            Addr::Reactive(reactive_addr) => reactive_addr.receive_request(src, id, data),
            Addr::Active(active_addr) => active_addr.receive_request(src, id, data),
            Addr::Async(async_addr) => async_addr.receive_request(src, id, data),
        }
    }

    /// Queue a successful response to the request `request_id`.
    pub(crate) fn receive_ok_response<T: 'static + Send>(&self, request_id: RequestId, result: T) -> (r:
        Result<(), Error>)
        ensures
            self is Invalid ==> r matches Err(Error::AddrUnreachable),
            r matches Err(e) ==> is_send_error(e),
    {
        match self {
            Addr::Invalid => Err(Error::AddrUnreachable),
            Addr::Reactive(reactive_addr) => reactive_addr.receive_response(
                request_id,
                Ok(Payload::new(result)),
            ),
            Addr::Active(active_addr) => active_addr.receive_response(
                request_id,
                Ok(Payload::new(result)),
            ),
            Addr::Async(async_addr) => async_addr.receive_response(
                request_id,
                Ok(Payload::new(result)),
            ),
        }
    }

    /// Queue a successful response whose data is already boxed.
    pub(crate) fn receive_ok_payload(&self, request_id: RequestId, data: Payload) -> (r: Result<
        (),
        Error,
    >)
        ensures
            self is Invalid ==> r matches Err(Error::AddrUnreachable),
            r matches Err(e) ==> is_send_error(e),
    {
        match self {
            Addr::Invalid => Err(Error::AddrUnreachable),
            Addr::Reactive(reactive_addr) => reactive_addr.receive_response(request_id, Ok(data)),
            Addr::Active(active_addr) => active_addr.receive_response(request_id, Ok(data)),
            Addr::Async(async_addr) => async_addr.receive_response(request_id, Ok(data)),
        }
    }

    /// Queue a failed response to the request `request_id`.
    pub(crate) fn receive_err_response(&self, request_id: RequestId, status: ErrorStatus) -> (r:
        Result<(), Error>)
        ensures
            self is Invalid ==> r matches Err(Error::AddrUnreachable),
            r matches Err(e) ==> is_send_error(e),
    {
        match self {
            Addr::Invalid => Err(Error::AddrUnreachable),
            Addr::Reactive(reactive_addr) => reactive_addr.receive_response(
                request_id,
                Err(status),
            ),
            Addr::Active(active_addr) => active_addr.receive_response(request_id, Err(status)),
            Addr::Async(async_addr) => async_addr.receive_response(request_id, Err(status)),
        }
    }
}

impl Clone for Addr {
    fn clone(&self) -> (r: Self)
        ensures
            r.id() == self.id(),
            r is Invalid <==> self is Invalid,
    {
        self.duplicate()
    }
}

impl Default for Addr {
    fn default() -> (r: Self)
        ensures
            r is Invalid,
    {
        Self::new()
    }
}

impl PartialEq for Addr {
    fn eq(&self, other: &Self) -> (r: bool) {
        self.actor_id() == other.actor_id()
    }
}

impl vstd::std_specs::cmp::PartialEqSpecImpl for Addr {
    open spec fn obeys_eq_spec() -> bool {
        true
    }

    open spec fn eq_spec(&self, other: &Addr) -> bool {
        self.id() == other.id()
    }
}

impl Eq for Addr {

}

impl PartialOrd for Addr {
    fn partial_cmp(&self, other: &Self) -> (r: Option<std::cmp::Ordering>) {
        let a = self.actor_id();
        let b = other.actor_id();
        if a < b {
            Some(std::cmp::Ordering::Less)
        } else if a == b {
            Some(std::cmp::Ordering::Equal)
        } else {
            Some(std::cmp::Ordering::Greater)
        }
    }
}

impl vstd::std_specs::cmp::PartialOrdSpecImpl for Addr {
    open spec fn obeys_partial_cmp_spec() -> bool {
        true
    }

    open spec fn partial_cmp_spec(&self, other: &Addr) -> Option<std::cmp::Ordering> {
        if self.id() < other.id() {
            Some(std::cmp::Ordering::Less)
        } else if self.id() == other.id() {
            Some(std::cmp::Ordering::Equal)
        } else {
            Some(std::cmp::Ordering::Greater)
        }
    }
}

impl Response {
    /// Return true if the request id is equal to a value.
    pub fn id_eq(&self, id: RequestId) -> (r: bool)
        ensures
            r == (self.request_id == id),
    {
        self.request_id == id
    }

    /// Same as `id_eq()`; its name is a typo.
    /// Deprecated: the name of this function is a typo, use id_eq() instead.
    pub fn iq_eq(&self, id: RequestId) -> (r: bool)
        ensures
            r == (self.request_id == id),
    {
        self.id_eq(id)
    }
}

} // verus!
