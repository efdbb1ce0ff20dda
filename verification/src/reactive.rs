//! Type of actors where messages handled by a dispatcher and that call the actor to process them.

use crate::actor::{
    is_send_error, ActorId, Addr, Error, ErrorStatus, Message, Notification, Request,
    RequestId, Response,
};
use crate::channel::{SendFailure, RoutedSender};
use crate::payload::Payload;
use vstd::prelude::*;

verus! {

/// The custom implementation of message handling for a given reactive actor.
pub trait Behavior {
    fn process_message(&mut self, context: &mut crate::context::ProcessContext, msg: &Message);
}

/// An implementation of behavior that do nothing in process_message().
///
/// This can be useful to create circular address dependencies at build time.
#[derive(Default)]
pub struct DummyBehavior();

impl Behavior for DummyBehavior {
    fn process_message(&mut self, _context: &mut crate::context::ProcessContext, _msg: &Message) {
    }
}

/// What is stored in the queue of a dispatcher.
#[derive(Debug)]
pub struct MessageAndDstId {
    pub message: Message,
    pub dst_id: ActorId,
}

/// An address pointing to an actor that "reacts" (is called) when a message is received.
#[derive(Debug)]
pub struct ReactiveAddr {
    pub tx: RoutedSender,
    pub dst_id: ActorId,
}

/// The error of a failed queuing: full queue or disconnected queue.
pub open spec fn send_failure_error<T>(f: SendFailure<T>) -> Error {
    match f {
        SendFailure::Full(_) => Error::QueueFull,
        SendFailure::Disconnected(_) => Error::AddrUnreachable,
    }
}

/// Map a failed queuing to the actor error.
pub fn send_failure_to_error<T>(f: &SendFailure<T>) -> (r: Error)
    ensures
        r == send_failure_error(*f),
        is_send_error(r),
{
    match f {
        SendFailure::Full(_) => Error::QueueFull,
        SendFailure::Disconnected(_) => Error::AddrUnreachable,
    }
}

impl ReactiveAddr {
    pub(crate) fn new(tx: RoutedSender, dst_id: ActorId) -> (r: Self)
        ensures
            r.dst_id == dst_id,
    {
        Self { tx, dst_id }
    }

    pub(crate) fn into_addr(self) -> (r: Addr)
        ensures
            r == Addr::Reactive(self),
    {
        Addr::Reactive(self)
    }

    pub(crate) fn actor_id(&self) -> (r: ActorId)
        ensures
            r == self.dst_id,
    {
        self.dst_id
    }

    /// An other address to the same reactive.
    pub(crate) fn duplicate(&self) -> (r: Self)
        ensures
            r.dst_id == self.dst_id,
    {
        ReactiveAddr { tx: self.tx.duplicate(), dst_id: self.dst_id }
    }

    /// Queue a message for the reactive.
    fn queue(&self, message: Message) -> (r: Result<(), Error>)
        ensures
            r matches Err(e) ==> is_send_error(e),
    {
        match self.tx.try_send(MessageAndDstId { dst_id: self.dst_id, message }) {
            Ok(()) => Ok(()),
            Err(failure) => Err(send_failure_to_error(&failure)),
        }
    }

    pub(crate) fn receive_notification<T: 'static + Send>(&self, data: T) -> (r: Result<(), Error>)
        ensures
            r matches Err(e) ==> is_send_error(e),
    {
        self.queue(Message::Notification(Notification { data: Payload::new(data) }))
    }

    /// Queue a request; if the queue refuses it, `src` receives an error response with
    /// the data of the request, and the error of the refusal is returned.
    pub fn receive_request<T: 'static + Send>(&self, src: &Addr, id: RequestId, data: T) -> (r:
        Result<(), Error>)
        ensures
            r matches Err(e) ==> is_send_error(e),
    {
        let message = MessageAndDstId {
            dst_id: self.dst_id,
            message: Message::Request(Request { src: src.duplicate(), id, data: Payload::new(data) }),
        };
        match self.tx.try_send(message) {
            Ok(()) => Ok(()),
            Err(failure) => {
                let error = send_failure_to_error(&failure);
                let refusal = send_failure_to_error(&failure);
                let returned = match failure {
                    SendFailure::Full(m) => m,
                    SendFailure::Disconnected(m) => m,
                };
                match returned.message {
                    Message::Request(request) => {
                        let _ = src.receive_err_response(
                            id,
                            ErrorStatus { error, request_data: request.data },
                        );
                    },
                    _ => {},
                }
                Err(refusal)
            },
        }
    }

    /// Queue a response to the request `request_id`.
    pub(crate) fn receive_response(
        &self,
        request_id: RequestId,
        result: Result<Payload, ErrorStatus>,
    ) -> (r: Result<(), Error>)
        ensures
            r matches Err(e) ==> is_send_error(e),
    {
        self.queue(Message::Response(Response { request_id, result }))
    }
}

} // verus!
