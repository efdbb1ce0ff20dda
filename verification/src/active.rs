//! Actors that own their message queue and wait on it actively.

use crate::actor::{
    hands_request, is_send_error, ActorId, Addr, Error, ErrorStatus, Message, Notification, Request,
    RequestId, RequestSent, Response,
};
use crate::channel::{mailbox_channel, MailboxQueue, MessageSender, RecvFailure, SendFailure};
use crate::context::next_request_id;
use crate::std_time::duration_nanos;
use std::time::Duration;
use crate::payload::Payload;
use crate::reactive::send_failure_to_error;
use vstd::prelude::*;

verus! {

/// Address implementation to an `ActiveMailbox`.
#[derive(Debug)]
pub struct ActiveAddr {
    pub tx: MessageSender,
    pub id: ActorId,
}

impl ActiveAddr {
    pub(crate) fn actor_id(&self) -> (r: ActorId)
        ensures
            r == self.id,
    {
        self.id
    }

    /// An other address to the same mailbox.
    pub(crate) fn duplicate(&self) -> (r: Self)
        ensures
            r.id == self.id,
    {
        ActiveAddr { tx: self.tx.duplicate(), id: self.id }
    }

    /// Queue a message for the mailbox.
    fn queue(&self, message: Message) -> (r: Result<(), Error>)
        ensures
            r matches Err(e) ==> is_send_error(e),
    {
        match self.tx.try_send(message) {
            Ok(()) => Ok(()),
            Err(failure) => Err(send_failure_to_error(&failure)),
        }
    }

    pub(crate) fn receive_notification<T: 'static + Send>(&self, data: T) -> (r: Result<(), Error>)
        ensures
            r matches Err(e) ==> is_send_error(e),
    {
        self.queue(Message::Notification(Notification { data: Payload::new(data) }))
    }

    /// Queue a request; if the queue refuses it, `src` receives an error response with
    /// the data of the request, and the error of the refusal is returned.
    pub fn receive_request<T: 'static + Send>(&self, src: &Addr, id: RequestId, data: T) -> (r:
        Result<(), Error>)
        ensures
            r matches Err(e) ==> is_send_error(e),
    {
        let message = Message::Request(Request { src: src.duplicate(), id, data: Payload::new(data) });
        match self.tx.try_send(message) {
            Ok(()) => Ok(()),
            Err(failure) => {
                let error = send_failure_to_error(&failure);
                let refusal = send_failure_to_error(&failure);
                let returned = match failure {
                    SendFailure::Full(m) => m,
                    SendFailure::Disconnected(m) => m,
                };
                match returned {
                    Message::Request(request) => {
                        let _ = src.receive_err_response(
                            id,
                            ErrorStatus { error, request_data: request.data },
                        );
                    },
                    _ => {},
                }
                Err(refusal)
            },
        }
    }

    /// Queue a response to the request `request_id`.
    pub(crate) fn receive_response(
        &self,
        request_id: RequestId,
        result: Result<Payload, ErrorStatus>,
    ) -> (r: Result<(), Error>)
        ensures
            r matches Err(e) ==> is_send_error(e),
    {
        self.queue(Message::Response(Response { request_id, result }))
    }
}


/// Most messages a blocking request waits through before it gives up with `Error::Timeout`.
pub const MAX_RECEIVE_ROUNDS: u64 = 18_446_744_073_709_551_615u64;

/// Actor that has it own message queue and manage actively how to wait on it.
pub struct ActiveMailbox {
    id: ActorId,
    queue: MailboxQueue,
    last_request_id: RequestId,
    /// Messages taken from the queue but not consumed because of a filtered receive;
    /// the last one is given first.
    message_list: Vec<Message>,
    /// Every message taken from the queue, in order.
    taken: Ghost<Seq<Message>>,
    /// Every request sent, in order.
    requests: Ghost<Seq<RequestSent>>,
    /// The timeout, in nanoseconds, of each wait on the queue that ended without a message.
    timed_out: Ghost<Seq<u128>>,
}

/// The former name of `ActiveMailbox`.
pub type ActiveActor = ActiveMailbox;

/// A synchronous access to an actor, with requests that wait for their response.
///
/// Structs that implement it get the methods of the traits generated by
/// `#[derive(SyncRequester)]` and `#[derive(SyncNotifier)]`.
pub trait SyncAccessor {
    fn send_notification<T: 'static + Send>(&mut self, data: T) -> Result<(), Error>;

    fn request_for<TRequest: 'static + Send, TResponse: 'static + Send>(
        &mut self,
        request_data: TRequest,
        timeout: Duration,
    ) -> Result<TResponse, Error>;
}

/// What a blocking request does with a message that arrives while it waits.
pub enum ReplyAction<T> {
    /// The request ends with this result.
    Return(Result<T, Error>),
    /// The message is put aside for a later receive.
    Keep(Message),
    /// The message is dropped: a response of the awaited type to another request.
    Drop,
}

/// Decide what a request `request_id`, that awaits a response of type `T`, does with a
/// message: an error response ends it with its error; a successful response of type `T`
/// ends it when it answers this request and is dropped otherwise; any other message, and
/// a successful response of another type, is put aside unchanged.
pub fn classify_reply<T: 'static>(request_id: RequestId, msg: Message) -> (r: ReplyAction<T>)
    ensures
        match msg {
            Message::Response(response) => match response.result {
                Err(status) => r matches ReplyAction::Return(Err(e)) && e == status.error,
                Ok(_) => {
                    ||| (r matches ReplyAction::Keep(m) && m == msg)
                    ||| (r matches ReplyAction::Return(Ok(_)) && response.request_id == request_id)
                    ||| (r is Drop && response.request_id != request_id)
                },
            },
            _ => r matches ReplyAction::Keep(m) && m == msg,
        },
{
    match msg {
        Message::Response(response) => {
            let id = response.request_id;
            match response.result {
                Ok(data) => match data.downcast::<T>() {
                    Ok(out) => {
                        if id == request_id {
                            ReplyAction::Return(Ok(out))
                        } else {
                            ReplyAction::Drop
                        }
                    },
                    Err(data) => ReplyAction::Keep(
                        Message::Response(Response { request_id: id, result: Ok(data) }),
                    ),
                },
                Err(err) => ReplyAction::Return(Err(err.error)),
            }
        },
        other => ReplyAction::Keep(other),
    }
}

/// `m` is a successful response to the request `request_id`.
pub open spec fn answers_ok(m: Message, request_id: RequestId) -> bool {
    m matches Message::Response(response) && response.request_id == request_id
        && response.result is Ok
}

/// `m` is an error response that carries the error `e`.
pub open spec fn fails_with(m: Message, e: Error) -> bool {
    m matches Message::Response(response) && response.result matches Err(status) && status.error
        == e
}

/// How a request `request_id`, whose mailbox had taken the messages `before` when it was
/// sent and `after` when it ended, ended with `r`: a successful response to it taken last
/// for `Ok`; for `Err`, an error response taken last, or a timeout.
pub open spec fn request_ended<T>(
    before: Seq<Message>,
    after: Seq<Message>,
    request_id: RequestId,
    r: Result<T, Error>,
) -> bool {
    &&& before.is_prefix_of(after)
    &&& r is Ok ==> after.len() > before.len() && answers_ok(after.last(), request_id)
    &&& r matches Err(e) ==> e is Timeout || (after.len() > before.len() && fails_with(
        after.last(),
        e,
    ))
}

/// What a wait for a message of at most `timeout` nanoseconds did, from the mailbox
/// `before` to `after`, when it gave `r`: a message put aside is given first; else the
/// message given is the one taken from the queue, and `Error::Timeout` comes only from a
/// wait of `timeout` on the queue that ended without a message.
pub open spec fn waited_for(before: ActiveMailbox, after: ActiveMailbox, timeout: u128, r: Result<Message, Error>) -> bool {
    &&& before.pending().len() > 0 ==> r == Ok::<Message, Error>(before.pending().last())
        && after.taken() == before.taken() && after.timed_out() == before.timed_out()
    &&& before.pending().len() == 0 ==> match r {
        Ok(m) => after.taken() == before.taken().push(m) && after.timed_out() == before.timed_out(),
        Err(e) => e is Timeout && after.taken() == before.taken() && after.timed_out()
            == before.timed_out().push(timeout),
    }
}

/// Every successful response to the request `request_id` that the mailbox took from its
/// queue between `before` and `after` is the answer returned, taken last, or is put aside.
pub open spec fn keeps_answers<T>(
    before: ActiveMailbox,
    after: ActiveMailbox,
    request_id: RequestId,
    r: Result<T, Error>,
) -> bool {
    forall|k: int|
        before.taken().len() <= k < after.taken().len() && answers_ok(#[trigger] after.taken()[k], request_id)
            ==> (r is Ok && k == after.taken().len() - 1) || after.pending().contains(after.taken()[k])
}

/// A wait that gives `Error::Timeout` took no message and timed out after `timeout`
/// nanoseconds; a wait that gives a message, with nothing put aside, took that message
/// from the queue and did not time out.
pub proof fn law_timeout_only_after_a_whole_wait(
    before: ActiveMailbox,
    after: ActiveMailbox,
    timeout: u128,
    r: Result<Message, Error>,
)
    requires
        waited_for(before, after, timeout, r),
    ensures
        r == Err::<Message, Error>(Error::Timeout) ==> before.pending().len() == 0 && after.taken()
            == before.taken() && after.timed_out().len() == before.timed_out().len() + 1
            && after.timed_out().last() == timeout,
        before.pending().len() == 0 && r is Ok ==> after.taken().len() == before.taken().len() + 1
            && Ok::<Message, Error>(after.taken().last()) == r && after.timed_out() == before.timed_out(),
{
}

/// A request that does not end with its answer loses none of the answers it took: each
/// successful response to it that came from the queue is put aside for a later receive.
pub proof fn law_request_drops_no_answer<T>(
    before: ActiveMailbox,
    after: ActiveMailbox,
    request_id: RequestId,
    r: Result<T, Error>,
    k: int,
)
    requires
        keeps_answers(before, after, request_id, r),
        before.taken().len() <= k < after.taken().len(),
        answers_ok(after.taken()[k], request_id),
        !(r is Ok),
    ensures
        after.pending().contains(after.taken()[k]),
{
}

/// The actor error for a failed receive.
pub open spec fn recv_failure_error(f: RecvFailure) -> Error {
    match f {
        RecvFailure::Empty => Error::NoMessage,
        RecvFailure::Disconnected => Error::BrokenReceive,
        RecvFailure::Timeout => Error::Timeout,
    }
}

/// Map a failed receive to the actor error.
pub fn recv_failure_to_error(f: &RecvFailure) -> (r: Error)
    ensures
        r == recv_failure_error(*f),
{
    match f {
        RecvFailure::Empty => Error::NoMessage,
        RecvFailure::Disconnected => Error::BrokenReceive,
        RecvFailure::Timeout => Error::Timeout,
    }
}

impl ActiveMailbox {
    /// The identifier of the mailbox.
    pub closed spec fn id(self) -> ActorId {
        self.id
    }

    /// The identifier of the last request sent.
    pub closed spec fn last_request(self) -> RequestId {
        self.last_request_id
    }

    /// The messages put aside by a filtered receive; the last one is given first.
    pub closed spec fn pending(self) -> Seq<Message> {
        self.message_list@
    }

    /// Every message taken from the queue, in order.
    pub closed spec fn taken(self) -> Seq<Message> {
        self.taken@
    }

    /// Every request sent, in order.
    pub closed spec fn requests(self) -> Seq<RequestSent> {
        self.requests@
    }

    /// The timeout, in nanoseconds, of each wait on the queue that ended without a message.
    pub closed spec fn timed_out(self) -> Seq<u128> {
        self.timed_out@
    }

    /// What a receive that gave `r` took from the queue: nothing when a message put aside
    /// was given or the receive failed, else the message given.
    pub open spec fn took(before: ActiveMailbox, after: ActiveMailbox, r: Result<Message, Error>) -> bool {
        if before.pending().len() > 0 {
            after.taken() == before.taken()
        } else {
            match r {
                Ok(m) => after.taken() == before.taken().push(m),
                Err(_) => after.taken() == before.taken(),
            }
        }
    }

    /// Create an active actor with a given maximum queue.
    pub fn new(queue_size: usize) -> (r: ActiveMailbox)
        ensures
            r.id() != crate::actor::INVALID_ACTOR_ID,
            r.last_request() == 0,
            r.pending().len() == 0,
            r.taken().len() == 0,
            r.requests().len() == 0,
            r.timed_out().len() == 0,
    {
        ActiveMailbox {
            id: crate::actor::generate_actor_id(),
            queue: mailbox_channel(queue_size),
            last_request_id: 0,
            message_list: Vec::new(),
            taken: Ghost(Seq::empty()),
            requests: Ghost(Seq::empty()),
            timed_out: Ghost(Seq::empty()),
        }
    }

    /// Get the address of the actor.
    pub fn addr(&self) -> (r: Addr)
        ensures
            r.id() == self.id(),
            r is Active,
    {
        Addr::Active(ActiveAddr { tx: self.queue.sender(), id: self.id })
    }

    /// Try to get a single message.
    ///
    /// A message put aside by a filtered receive comes first. In case of error, it is
    /// `Error::NoMessage`: the queue is empty.
    pub fn try_get_message(&mut self) -> (r: Result<Message, Error>)
        ensures
            final(self).id() == old(self).id(),
            final(self).last_request() == old(self).last_request(),
            old(self).pending().len() > 0 ==> r == Ok::<Message, Error>(old(self).pending().last())
                && final(self).pending() == old(self).pending().drop_last(),
            old(self).pending().len() == 0 ==> final(self).pending() == old(self).pending(),
            Self::took(*old(self), *final(self), r),
            final(self).requests() == old(self).requests(),
            final(self).timed_out() == old(self).timed_out(),
            r matches Err(e) ==> e is NoMessage,
    {
        match self.message_list.pop() {
            Some(message) => Ok(message),
            None => match self.queue.try_recv() {
                Ok(message) => {
                    proof {
                        self.taken@ = self.taken@.push(message);
                    }
                    Ok(message)
                },
                Err(f) => Err(recv_failure_to_error(&f)),
            },
        }
    }

    /// Wait Indefinitely for a message.
    pub fn wait_message(&mut self) -> (r: Result<Message, Error>)
        ensures
            final(self).id() == old(self).id(),
            final(self).last_request() == old(self).last_request(),
            old(self).pending().len() > 0 ==> r == Ok::<Message, Error>(old(self).pending().last())
                && final(self).pending() == old(self).pending().drop_last(),
            old(self).pending().len() == 0 ==> final(self).pending() == old(self).pending(),
            Self::took(*old(self), *final(self), r),
            final(self).requests() == old(self).requests(),
            final(self).timed_out() == old(self).timed_out(),
            r is Ok,
    {
        match self.message_list.pop() {
            Some(message) => Ok(message),
            None => match self.queue.recv() {
                Ok(message) => {
                    proof {
                        self.taken@ = self.taken@.push(message);
                    }
                    Ok(message)
                },
                Err(f) => Err(recv_failure_to_error(&f)),
            },
        }
    }

    /// Wait for a message for a given amount of duration.
    pub fn wait_message_for(&mut self, timeout: Duration) -> (r: Result<Message, Error>)
        ensures
            final(self).id() == old(self).id(),
            final(self).last_request() == old(self).last_request(),
            old(self).pending().len() > 0 ==> r == Ok::<Message, Error>(old(self).pending().last())
                && final(self).pending() == old(self).pending().drop_last(),
            old(self).pending().len() == 0 ==> final(self).pending() == old(self).pending(),
            Self::took(*old(self), *final(self), r),
            final(self).requests() == old(self).requests(),
            r matches Err(e) ==> e is Timeout,
            r is Ok ==> final(self).timed_out() == old(self).timed_out(),
            r is Err ==> old(self).pending().len() == 0 && final(self).timed_out() == old(
                self,
            ).timed_out().push(duration_nanos(timeout)),
            waited_for(*old(self), *final(self), duration_nanos(timeout), r),
    {
        match self.message_list.pop() {
            Some(message) => Ok(message),
            None => match self.queue.recv_timeout(timeout) {
                Ok(message) => {
                    proof {
                        self.taken@ = self.taken@.push(message);
                    }
                    Ok(message)
                },
                Err(f) => {
                    proof {
                        self.timed_out@ = self.timed_out@.push(duration_nanos(timeout));
                    }
                    Err(recv_failure_to_error(&f))
                },
            },
        }
    }

    /// Send notification.
    ///
    /// This method is equivalent to the function rtactor::send_notification()
    /// but is preferred because it allows possible future thread local memory allocation.
    pub fn send_notification<T: 'static + Send>(&mut self, dst: &Addr, data: T) -> (r: Result<
        (),
        Error,
    >)
        ensures
            dst is Invalid ==> r matches Err(Error::AddrUnreachable),
            r matches Err(e) ==> is_send_error(e),
            *final(self) == *old(self),
    {
        dst.receive_notification(data)
    }

    /// Send back an ok response to this request.
    pub fn responds<T: 'static + Send>(&mut self, request: Request, data: T) -> (r: Result<
        (),
        Error,
    >)
        ensures
            request.src is Invalid ==> r matches Err(Error::AddrUnreachable),
            r matches Err(e) ==> is_send_error(e),
            *final(self) == *old(self),
    {
        request.src.receive_ok_response(request.id, data)
    }

    /// The identifier of a new request: the one that follows the last one; identifiers
    /// wrap around.
    pub fn generate_request_id(&mut self) -> (r: RequestId)
        ensures
            r == next_request_id(old(self).last_request()),
            final(self).last_request() == r,
            final(self).id() == old(self).id(),
            final(self).pending() == old(self).pending(),
            final(self).taken() == old(self).taken(),
            final(self).requests() == old(self).requests(),
            final(self).timed_out() == old(self).timed_out(),
    {
        self.last_request_id = self.last_request_id.wrapping_add(1);
        self.last_request_id
    }

    /// Hand a request with the identifier `id`, from this mailbox, to `dst`, and record it
    /// with what the queue of `dst` answered.
    pub(crate) fn hand_request<T: 'static + Send>(&mut self, dst: &Addr, id: RequestId, data: T) -> (r:
        Result<(), Error>)
        ensures
            hands_request(old(self).requests(), final(self).requests(), *dst, old(self).id(), id),
            final(self).requests().last().delivery == r,
            final(self).id() == old(self).id(),
            final(self).last_request() == old(self).last_request(),
            final(self).pending() == old(self).pending(),
            final(self).taken() == old(self).taken(),
            final(self).timed_out() == old(self).timed_out(),
    {
        let own = self.addr();
        let delivery = dst.receive_request(&own, id, data);
        proof {
            self.requests@ = self.requests@.push(
                RequestSent { dst: dst.id(), src: self.id, id, delivery },
            );
            assert(self.requests@.drop_last() =~= old(self).requests@);
        }
        delivery
    }

    /// Send a request and wait for the response for a given duration.
    ///
    /// The request, with the next request identifier and the address of this mailbox, is
    /// handed to `dst` (recorded in `requests`). Each wait for a message lasts at most `timeout`. Each message taken
    /// from the queue is handled as `classify_reply` decides, until one ends the request:
    /// a successful response to it, or an error response; a wait that times out ends it
    /// with `Error::Timeout`.
    pub fn request_for<TRequest: 'static + Send, TResponse: 'static + Send>(
        &mut self,
        dst: &Addr,
        request_data: TRequest,
        timeout: Duration,
    ) -> (r: Result<TResponse, Error>)
        ensures
            final(self).id() == old(self).id(),
            final(self).last_request() == next_request_id(old(self).last_request()),
            old(self).pending().is_prefix_of(final(self).pending()),
            hands_request(
                old(self).requests(),
                final(self).requests(),
                *dst,
                old(self).id(),
                final(self).last_request(),
            ),
            request_ended(old(self).taken(), final(self).taken(), final(self).last_request(), r),
            keeps_answers(*old(self), *final(self), final(self).last_request(), r),
            r == Err::<TResponse, Error>(Error::Timeout) ==> {
                ||| final(self).timed_out() == old(self).timed_out().push(duration_nanos(timeout))
                ||| final(self).taken().len() > old(self).taken().len() && fails_with(
                    final(self).taken().last(),
                    Error::Timeout,
                )
                ||| final(self).taken().len() >= old(self).taken().len() + MAX_RECEIVE_ROUNDS
            },
    {
        let request_id = self.generate_request_id();
        let _ = self.hand_request(dst, request_id, request_data);

        let mut rounds: u64 = MAX_RECEIVE_ROUNDS;
        while rounds > 0
            invariant
                self.id() == old(self).id(),
                self.last_request() == next_request_id(old(self).last_request()),
                request_id == self.last_request(),
                old(self).pending().is_prefix_of(self.pending()),
                old(self).taken().is_prefix_of(self.taken()),
                hands_request(old(self).requests(), self.requests(), *dst, old(self).id(), request_id),
                self.timed_out() == old(self).timed_out(),
                self.taken().len() == old(self).taken().len() + (MAX_RECEIVE_ROUNDS - rounds),
                forall|k: int|
                    old(self).taken().len() <= k < self.taken().len() && answers_ok(
                        #[trigger] self.taken()[k],
                        request_id,
                    ) ==> self.pending().contains(self.taken()[k]),
            decreases rounds,
        {
            rounds = rounds - 1;
            match self.queue.recv_timeout(timeout) {
                Ok(msg) => {
                    let ghost before = *self;
                    proof {
                        self.taken@ = self.taken@.push(msg);
                    }
                    match classify_reply::<TResponse>(request_id, msg) {
                        ReplyAction::Return(result) => {
                            return result;
                        },
                        ReplyAction::Keep(kept) => {
                            self.message_list.push(kept);
                            proof {
                                assert forall|k: int|
                                    old(self).taken().len() <= k < self.taken().len() && answers_ok(
                                        #[trigger] self.taken()[k],
                                        request_id,
                                    ) implies self.pending().contains(self.taken()[k]) by {
                                    if k < before.taken().len() {
                                        assert(before.taken()[k] == self.taken()[k]);
                                        assert(before.pending().contains(self.taken()[k]));
                                        let j = choose|j: int| 0 <= j < before.pending().len() && before.pending()[j] == self.taken()[k];
                                        assert(self.pending()[j] == self.taken()[k]);
                                    } else {
                                        assert(self.pending()[self.pending().len() - 1] == self.taken()[k]);
                                    }
                                }
                            }
                        },
                        ReplyAction::Drop => {
                            proof {
                                assert forall|k: int|
                                    old(self).taken().len() <= k < self.taken().len() && answers_ok(
                                        #[trigger] self.taken()[k],
                                        request_id,
                                    ) implies self.pending().contains(self.taken()[k]) by {
                                    assert(k < before.taken().len());
                                    assert(before.taken()[k] == self.taken()[k]);
                                }
                            }
                        },
                    }
                },
                Err(f) => {
                    proof {
                        self.timed_out@ = self.timed_out@.push(duration_nanos(timeout));
                    }
                    return Err(recv_failure_to_error(&f));
                },
            }
        }
        Err(Error::Timeout)
    }
}

} // verus!
