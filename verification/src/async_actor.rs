//! Actors that own an async message queue: the waits are awaited by their user, the rest
//! (addresses, queuing, the messages put aside, request identifiers) is here.

use crate::active::recv_failure_to_error;
use crate::actor::{
    hands_request, is_send_error, ActorId, Addr, Error, ErrorStatus, Message, Notification, Request,
    RequestId, RequestSent, Response,
};
use crate::channel::{RecvFailure, SendFailure};
use crate::context::next_request_id;
use crate::payload::Payload;
use crate::reactive::send_failure_to_error;
use vstd::prelude::*;

verus! {

/// The sending end of the queue of an async mailbox, an `async_channel::Sender<Message>`.
///
/// The queue carries messages, which carry addresses, which carry senders: the sender is
/// held here, in a private field, as `MessageSender` holds its own.
#[verifier::external_body]
#[derive(Debug)]
pub struct AsyncSender {
    tx: async_channel::Sender<Message>,
}

/// The receiving end of the queue of an async mailbox, which its user awaits on.
#[verifier::external_body]
#[derive(Debug)]
pub struct AsyncReceiver {
    pub rx: async_channel::Receiver<Message>,
}

/// `async_channel::bounded(bound)`, which panics on a zero bound: a queue of at most
/// `bound` messages.
#[verifier::external_body]
fn async_mailbox_channel(bound: usize) -> (r: (AsyncSender, AsyncReceiver))
    requires
        bound > 0,
{
    let (tx, rx) = async_channel::bounded(bound);
    (AsyncSender { tx }, AsyncReceiver { rx })
}

impl AsyncSender {
    /// `Sender::clone`: one more sender to the same queue. (It aborts the process past
    /// `usize::MAX / 2` live senders, a count that nothing here tracks.)
    #[verifier::external_body]
    pub fn duplicate(&self) -> (r: AsyncSender) {
        AsyncSender { tx: self.tx.clone() }
    }

    /// `Sender::try_send`: queue the message without waiting; on failure the message is
    /// given back unchanged, as full or as closed (disconnected).
    #[verifier::external_body]
    pub fn try_send(&self, value: Message) -> (r: Result<(), SendFailure<Message>>)
        ensures
            r matches Err(SendFailure::Full(v)) ==> v == value,
            r matches Err(SendFailure::Disconnected(v)) ==> v == value,
    {
        match self.tx.try_send(value) {
            Ok(()) => Ok(()),
            Err(async_channel::TrySendError::Full(v)) => Err(SendFailure::Full(v)),
            Err(async_channel::TrySendError::Closed(v)) => Err(SendFailure::Disconnected(v)),
        }
    }
}

impl AsyncReceiver {
    /// `Receiver::try_recv`: take the oldest message without waiting; empty, or closed
    /// (disconnected) when every sender is gone and the queue is empty.
    #[verifier::external_body]
    pub fn try_recv(&self) -> (r: Result<Message, RecvFailure>)
        ensures
            r matches Err(e) ==> !(e is Timeout),
    {
        match self.rx.try_recv() {
            Ok(v) => Ok(v),
            Err(async_channel::TryRecvError::Empty) => Err(RecvFailure::Empty),
            Err(async_channel::TryRecvError::Closed) => Err(RecvFailure::Disconnected),
        }
    }
}

/// Address implementation to an `AsyncMailbox`.
#[derive(Debug)]
pub struct AsyncAddr {
    pub tx: AsyncSender,
    pub id: ActorId,
}

impl AsyncAddr {
    pub(crate) fn actor_id(&self) -> (r: ActorId)
        ensures
            r == self.id,
    {
        self.id
    }

    /// An other address to the same mailbox.
    pub(crate) fn duplicate(&self) -> (r: Self)
        ensures
            r.id == self.id,
    {
        AsyncAddr { tx: self.tx.duplicate(), id: self.id }
    }

    /// Queue a message for the mailbox.
    fn queue(&self, message: Message) -> (r: Result<(), Error>)
        ensures
            r matches Err(e) ==> is_send_error(e),
    {
        match self.tx.try_send(message) {
            Ok(()) => Ok(()),
            Err(failure) => Err(send_failure_to_error(&failure)),
        }
    }

    /// Queue a notification: `QueueFull` when the queue is full, `AddrUnreachable` when
    /// it is closed.
    pub fn receive_notification<T: 'static + Send>(&self, data: T) -> (r: Result<(), Error>)
        ensures
            r matches Err(e) ==> is_send_error(e),
    {
        self.queue(Message::Notification(Notification { data: Payload::new(data) }))
    }

    /// Queue a request; if the queue refuses it, `src` receives an error response with
    /// the data of the request, and the error of the refusal is returned.
    pub fn receive_request<T: 'static + Send>(&self, src: &Addr, id: RequestId, data: T) -> (r:
        Result<(), Error>)
        ensures
            r matches Err(e) ==> is_send_error(e),
    {
        let message = Message::Request(Request { src: src.duplicate(), id, data: Payload::new(data) });
        match self.tx.try_send(message) {
            Ok(()) => Ok(()),
            Err(failure) => {
                let error = send_failure_to_error(&failure);
                let refusal = send_failure_to_error(&failure);
                let returned = match failure {
                    SendFailure::Full(m) => m,
                    SendFailure::Disconnected(m) => m,
                };
                match returned {
                    Message::Request(request) => {
                        let _ = src.receive_err_response(
                            id,
                            ErrorStatus { error, request_data: request.data },
                        );
                    },
                    _ => {},
                }
                Err(refusal)
            },
        }
    }

    /// Queue a response to the request `request_id`.
    pub(crate) fn receive_response(
        &self,
        request_id: RequestId,
        result: Result<Payload, ErrorStatus>,
    ) -> (r: Result<(), Error>)
        ensures
            r matches Err(e) ==> is_send_error(e),
    {
        self.queue(Message::Response(Response { request_id, result }))
    }
}

/// Actor that has it own async message queue and manage actively how to wait on it.
pub struct AsyncMailbox {
    id: ActorId,
    rx: AsyncReceiver,
    tx: AsyncSender,
    last_request_id: RequestId,
    /// Messages taken from the queue but not consumed because of a filtered receive;
    /// the last one is given first.
    message_list: Vec<Message>,
    /// Every request sent, in order.
    requests: Ghost<Seq<RequestSent>>,
}

impl AsyncMailbox {
    /// Every request sent, in order.
    pub closed spec fn requests(self) -> Seq<RequestSent> {
        self.requests@
    }

    /// The identifier of the mailbox.
    pub closed spec fn id(self) -> ActorId {
        self.id
    }

    /// The identifier of the last request sent.
    pub closed spec fn last_request(self) -> RequestId {
        self.last_request_id
    }

    /// The queue of the mailbox, on which its owner awaits.
    pub closed spec fn queue(self) -> AsyncReceiver {
        self.rx
    }

    /// The messages put aside by a filtered receive; the last one is given first.
    pub closed spec fn pending(self) -> Seq<Message> {
        self.message_list@
    }

    /// Create an async actor with a given maximum queue, which holds at least one message.
    pub fn new(queue_size: usize) -> (r: AsyncMailbox)
        requires
            queue_size > 0,
        ensures
            r.id() != crate::actor::INVALID_ACTOR_ID,
            r.last_request() == 0,
            r.pending().len() == 0,
            r.requests().len() == 0,
    {
        let (tx, rx) = async_mailbox_channel(queue_size);
        AsyncMailbox {
            id: crate::actor::generate_actor_id(),
            rx,
            tx,
            last_request_id: 0,
            message_list: Vec::new(),
            requests: Ghost(Seq::empty()),
        }
    }

    /// Get the address of the actor.
    pub fn addr(&self) -> (r: Addr)
        ensures
            r.id() == self.id(),
            r is Async,
    {
        Addr::Async(AsyncAddr { tx: self.tx.duplicate(), id: self.id })
    }

    /// The queue of the mailbox, to await on.
    pub fn receiver(&self) -> (r: &AsyncReceiver)
        ensures
            *r == self.queue(),
    {
        &self.rx
    }

    /// Take the last message put aside, if any.
    pub fn take_pending(&mut self) -> (r: Option<Message>)
        ensures
            old(self).pending().len() == 0 ==> r is None && final(self).pending() == old(self).pending(),
            old(self).pending().len() > 0 ==> r == Some(old(self).pending().last())
                && final(self).pending() == old(self).pending().drop_last(),
            final(self).id() == old(self).id(),
            final(self).last_request() == old(self).last_request(),
            final(self).requests() == old(self).requests(),
    {
        self.message_list.pop()
    }

    /// Put a message aside for a later receive.
    pub fn put_aside(&mut self, message: Message)
        ensures
            final(self).pending() == old(self).pending().push(message),
            final(self).id() == old(self).id(),
            final(self).last_request() == old(self).last_request(),
            final(self).requests() == old(self).requests(),
    {
        self.message_list.push(message);
    }

    /// Try to get a single message.
    ///
    /// A message put aside by a filtered receive comes first. In case of error, can be
    /// `Error::NoMessage` or `Error::BrokenReceive` if the queue is closed.
    pub fn try_get_message(&mut self) -> (r: Result<Message, Error>)
        ensures
            old(self).pending().len() > 0 ==> r == Ok::<Message, Error>(old(self).pending().last())
                && final(self).pending() == old(self).pending().drop_last(),
            old(self).pending().len() == 0 ==> final(self).pending() == old(self).pending(),
            r matches Err(e) ==> e is NoMessage || e is BrokenReceive,
            final(self).id() == old(self).id(),
            final(self).last_request() == old(self).last_request(),
            final(self).requests() == old(self).requests(),
    {
        match self.take_pending() {
            Some(message) => Ok(message),
            None => match self.rx.try_recv() {
                Ok(message) => Ok(message),
                Err(f) => Err(recv_failure_to_error(&f)),
            },
        }
    }

    /// Send notification.
    ///
    /// This method is equivalent to the function rtactor::send_notification()
    /// but is preferred because it allows possible future thread local memory allocation.
    pub fn send_notification<T: 'static + Send>(&mut self, dst: &Addr, data: T) -> (r: Result<
        (),
        Error,
    >)
        ensures
            dst is Invalid ==> r matches Err(Error::AddrUnreachable),
            r matches Err(e) ==> is_send_error(e),
            *final(self) == *old(self),
    {
        dst.receive_notification(data)
    }

    /// Send back an ok response to this request.
    pub fn responds<T: 'static + Send>(&mut self, request: Request, data: T) -> (r: Result<
        (),
        Error,
    >)
        ensures
            request.src is Invalid ==> r matches Err(Error::AddrUnreachable),
            r matches Err(e) ==> is_send_error(e),
            *final(self) == *old(self),
    {
        request.src.receive_ok_response(request.id, data)
    }

    /// The identifier of a new request: the one that follows the last one; identifiers
    /// wrap around.
    pub fn generate_request_id(&mut self) -> (r: RequestId)
        ensures
            r == next_request_id(old(self).last_request()),
            final(self).last_request() == r,
            final(self).id() == old(self).id(),
            final(self).pending() == old(self).pending(),
            final(self).requests() == old(self).requests(),
    {
        self.last_request_id = self.last_request_id.wrapping_add(1);
        self.last_request_id
    }

    /// Send a request from this mailbox under a new identifier, which is returned; the
    /// response is awaited by the user, who hands each message received to
    /// `classify_reply`. The request is handed to `dst` and recorded in `requests`.
    pub fn send_request<T: 'static + Send>(&mut self, dst: &Addr, data: T) -> (r: RequestId)
        ensures
            r == next_request_id(old(self).last_request()),
            final(self).last_request() == r,
            final(self).id() == old(self).id(),
            final(self).pending() == old(self).pending(),
            hands_request(old(self).requests(), final(self).requests(), *dst, old(self).id(), r),
    {
        let request_id = self.generate_request_id();
        let own = self.addr();
        let delivery = dst.receive_request(&own, request_id, data);
        proof {
            self.requests@ = self.requests@.push(
                RequestSent { dst: dst.id(), src: self.id, id: request_id, delivery },
            );
            assert(self.requests@.drop_last() =~= old(self).requests@);
        }
        request_id
    }
}

} // verus!
