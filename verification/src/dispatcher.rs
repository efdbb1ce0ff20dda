//! An actor interface to a dispatcher for reactive actor.

use crate::active::{request_ended, ActiveMailbox};
use crate::actor::{hands_request, ActorId, Addr, Error, Message, RequestId, RequestSent};
use crate::context::next_request_id;
use crate::mpsc_dispatcher::MpscDispatcher;
use crate::payload::Payload;
use crate::reactive::Behavior;
use std::time::Duration;
use vstd::prelude::*;

verus! {

/// The operations of a dispatcher on the reactives it holds.
pub trait Dispatcher {
    /// The identifier of the dispatcher.
    spec fn dispatcher_id(&self) -> ActorId;

    /// Return the actor address of the dispatcher itself.
    fn addr(&self) -> (r: Addr)
        ensures
            r.id() == self.dispatcher_id(),
    ;

    /// Migrate a reactive inside the dispatcher and return an actor address to it.
    fn register_reactive(&mut self, behavior: Box<dyn Behavior>) -> Addr;

    /// Replace an implementation of a reactive by a new one.
    /// This only change the object that responds to process message.
    /// All copies of the address are still valid.
    ///
    /// Return Ok(old_behavior) or Err(new_behavior)
    fn replace_reactive(&mut self, addr: &Addr, behavior: Box<dyn Behavior>) -> Result<
        Box<dyn Behavior>,
        Box<dyn Behavior>,
    >;

    /// Extract a reactive from the dispatcher by it address.
    fn unregister_reactive(&mut self, addr: &Addr) -> Option<Box<dyn Behavior>>;

    /// Same as `addr()`.
    fn own_addr(&self) -> (r: Addr)
        ensures
            r.id() == self.dispatcher_id(),
    {
        self.addr()
    }
}

/// A reactive that is `Send`, moved by a request into a dispatcher.
///
/// The request is shared (`&Request`) when the dispatcher reads it, so the behavior sits
/// in a `Cell` from which the dispatcher takes it.
#[verifier::external_body]
pub struct BehaviorSlot {
    cell: std::cell::Cell<Option<Box<dyn Behavior + Send>>>,
}

impl BehaviorSlot {
    /// A slot that holds a boxed behavior (`Cell::new`).
    #[verifier::external_body]
    pub fn new<T: Behavior + Send + 'static>(behavior: T) -> (r: BehaviorSlot) {
        BehaviorSlot { cell: std::cell::Cell::new(Some(Box::new(behavior))) }
    }

    /// Take the behavior out of the slot (`Cell::take`); a second take gives `None`.
    #[verifier::external_body]
    pub fn take(&self) -> (r: Option<Box<dyn Behavior>>) {
        match self.cell.take() {
            Some(b) => Some(b),
            None => None,
        }
    }
}

/// A function executed in the thread of a dispatcher, whose result is sent back.
#[verifier::external_body]
pub struct ExecutableFnSlot {
    cell: std::cell::Cell<Option<Box<dyn FnOnce(&mut dyn Dispatcher) -> Payload + Send>>>,
}

impl ExecutableFnSlot {
    /// A slot that holds the function `f`, whose result is boxed in a payload.
    #[verifier::external_body]
    pub fn new<F, T>(f: F) -> (r: ExecutableFnSlot) where
        F: FnOnce(&mut dyn Dispatcher) -> T + Send + 'static,
        T: Send + 'static,
     {
        ExecutableFnSlot {
            cell: std::cell::Cell::new(Some(Box::new(move |disp| Payload::new(f(disp))))),
        }
    }

    /// Take the function out of the slot (`Cell::take`) and call it on the dispatcher;
    /// `None` when it was already taken. The function reaches the dispatcher only as a
    /// `&mut dyn Dispatcher`, whose methods keep its identifier and the record of its last
    /// `process`; nothing else is stated of what it does.
    #[verifier::external_body]
    pub fn call(&self, disp: &mut MpscDispatcher) -> (r: Option<Payload>)
        ensures
            final(disp).id() == old(disp).id(),
            final(disp).same_process_record(*old(disp)),
    {
        match self.cell.take() {
            Some(f) => Some(f(disp)),
            None => None,
        }
    }
}

/// The requests a dispatcher answers at its own address.
pub enum Request {
    /// Register a reactive that is Send.
    /// To register reactives that are not Send, do it with `ExecuteFn`.
    RegisterReactive { behavior: BehaviorSlot },
    /// Remove a reactive; the behavior is dropped in the dispatcher thread, because it
    /// can not leave that thread.
    StopReactive { addr: Addr },
    /// Stop the dispatch of message and return from process().
    ///
    /// All Request not processed are responded with a Error::ActorDisappeared. Then
    /// all registered behavior are destroyed. Finally a Response::StopDispatcher is sent.
    StopDispatcher {},
    /// Execute a FnOnce inside the dispatcher thread.
    /// The Response returns the return value of the FnOnce.
    ExecuteFn { executable_fn: ExecutableFnSlot },
}

/// The responses of a dispatcher.
#[derive(Debug)]
pub enum Response {
    RegisterReactive(Addr),
    StopReactive(),
    StopDispatcher(),
}

/// What registering a reactive answers for the reply of the dispatcher: the address of a
/// `RegisterReactive` response, `DowncastFailed` for another response, the error of a
/// failed request.
pub open spec fn register_answer(reply: Result<Response, Error>) -> Result<Addr, Error> {
    match reply {
        Ok(Response::RegisterReactive(addr)) => Ok(addr),
        Ok(_) => Err(Error::DowncastFailed),
        Err(e) => Err(e),
    }
}

/// What registering a reactive answers for the reply of the dispatcher.
pub fn register_reply(reply: Result<Response, Error>) -> (r: Result<Addr, Error>)
    ensures
        r == register_answer(reply),
{
    match reply {
        Ok(Response::RegisterReactive(addr)) => Ok(addr),
        Ok(_) => Err(Error::DowncastFailed),
        Err(e) => Err(e),
    }
}

/// What replacing a reactive answers for the reply of the dispatcher: `Ok` when the
/// reactive was replaced, `ActorDisappeared` when the dispatcher holds no reactive at the
/// address, the error of a failed request.
pub open spec fn replace_answer(reply: Result<bool, Error>) -> Result<(), Error> {
    match reply {
        Ok(true) => Ok(()),
        Ok(false) => Err(Error::ActorDisappeared),
        Err(e) => Err(e),
    }
}

/// What replacing a reactive answers for the reply of the dispatcher.
pub fn replace_reply(reply: Result<bool, Error>) -> (r: Result<(), Error>)
    ensures
        r == replace_answer(reply),
{
    match reply {
        Ok(true) => Ok(()),
        Ok(false) => Err(Error::ActorDisappeared),
        Err(e) => Err(e),
    }
}

/// What stopping a dispatcher answers for its reply: `Ok` for any response, the error of a
/// failed request.
pub open spec fn stop_answer(reply: Result<Response, Error>) -> Result<(), Error> {
    match reply {
        Ok(_) => Ok(()),
        Err(e) => Err(e),
    }
}

/// What stopping a dispatcher answers for its reply.
pub fn stop_reply(reply: Result<Response, Error>) -> (r: Result<(), Error>)
    ensures
        r == stop_answer(reply),
{
    match reply {
        Ok(_) => Ok(()),
        Err(e) => Err(e),
    }
}

/// An accessor for a dispatcher with specialized functions.
pub struct SyncAccessor {
    active_actor: ActiveMailbox,
    disp_addr: Addr,
}

impl SyncAccessor {
    /// The address of the dispatcher.
    pub closed spec fn target(self) -> Addr {
        self.disp_addr
    }

    /// The identifier of the last request sent by the accessor.
    pub closed spec fn last_request(self) -> RequestId {
        self.active_actor.last_request()
    }

    /// The identifier of the mailbox that sends the requests and awaits the responses.
    pub closed spec fn mailbox_id(self) -> ActorId {
        self.active_actor.id()
    }

    /// Every message the mailbox of the accessor took from its queue, in order.
    pub closed spec fn taken(self) -> Seq<Message> {
        self.active_actor.taken()
    }

    /// Every request the accessor sent, in order.
    pub closed spec fn requests(self) -> Seq<RequestSent> {
        self.active_actor.requests()
    }

    /// The last request, `id`, went from the accessor to its dispatcher.
    pub open spec fn sent_to_target(old_self: Self, new_self: Self) -> bool {
        &&& new_self.target() == old_self.target()
        &&& new_self.mailbox_id() == old_self.mailbox_id()
        &&& new_self.last_request() == next_request_id(old_self.last_request())
        &&& hands_request(
            old_self.requests(),
            new_self.requests(),
            old_self.target(),
            old_self.mailbox_id(),
            new_self.last_request(),
        )
    }

    /// Create an accessor from a dispatcher address.
    pub fn new(disp_addr: &Addr) -> (r: Self)
        ensures
            r.target().id() == disp_addr.id(),
            r.target() is Invalid <==> disp_addr is Invalid,
    {
        Self { active_actor: ActiveMailbox::new(1), disp_addr: disp_addr.duplicate() }
    }

    /// Return the dispatcher address.
    pub fn dispatcher_addr(&self) -> (r: &Addr)
        ensures
            *r == self.target(),
    {
        &self.disp_addr
    }

    /// Register a reactive that will be moved in a Box into the dispatcher.
    ///
    /// If the Behavior is not Send, the pattern to use is to use execute_fn()
    /// and to construct the behavior implementation in f.
    pub fn register_reactive_for<T: Behavior + Send + 'static>(
        &mut self,
        reactive: T,
        timeout: Duration,
    ) -> (r: Result<Addr, Error>)
        ensures
            Self::sent_to_target(*old(self), *final(self)),
            exists|reply: Result<Response, Error>|
                request_ended(old(self).taken(), final(self).taken(), final(self).last_request(), reply)
                    && r == register_answer(reply),
    {
        let result = self.active_actor.request_for::<_, Response>(
            &self.disp_addr,
            Request::RegisterReactive { behavior: BehaviorSlot::new(reactive) },
            timeout,
        );
        register_reply(result)
    }

    /// Replace a reactive and drop the older one in the dispatcher thread.
    ///
    /// `Error::ActorDisappeared` when the dispatcher holds no reactive at `addr`.
    pub fn replace_reactive_for<T: Behavior + Send + 'static>(
        &mut self,
        addr: &Addr,
        reactive: T,
        timeout: Duration,
    ) -> (r: Result<(), Error>)
        ensures
            Self::sent_to_target(*old(self), *final(self)),
            exists|reply: Result<bool, Error>|
                request_ended(old(self).taken(), final(self).taken(), final(self).last_request(), reply)
                    && r == replace_answer(reply),
    {
        let target = addr.duplicate();
        let slot = BehaviorSlot::new(reactive);
        let result = self.execute_fn(
            move |disp: &mut dyn Dispatcher| -> bool
                {
                    match slot.take() {
                        Some(behavior) => match disp.replace_reactive(&target, behavior) {
                            Ok(_) => true,
                            Err(_) => false,
                        },
                        None => false,
                    }
                },
            timeout,
        );
        replace_reply(result)
    }

    /// Execute a function inside the thread of the dispatcher and return its result.
    /// Useful to add to register to the dispatcher actor that are not Send.
    pub fn execute_fn<F, T>(&mut self, f: F, timeout: Duration) -> (r: Result<T, Error>) where
        F: FnOnce(&mut dyn Dispatcher) -> T + Send + 'static,
        T: Send + 'static,

        ensures
            Self::sent_to_target(*old(self), *final(self)),
            request_ended(old(self).taken(), final(self).taken(), final(self).last_request(), r),
    {
        self.active_actor.request_for::<_, T>(
            &self.disp_addr,
            Request::ExecuteFn { executable_fn: ExecutableFnSlot::new(f) },
            timeout,
        )
    }

    /// Join the thread of the dispatcher that must have been stopped by other means.
    /// Nothing to join here: always `Ok(())`.
    pub fn join_dispatcher_thread(&mut self) -> (r: Result<(), Payload>)
        ensures
            r is Ok,
            *final(self) == *old(self),
    {
        Ok(())
    }

    /// Stop the dispatcher.
    /// Return the result from the request_for; `Ok(())` at once for an invalid address.
    pub fn stop_dispatcher(&mut self, timeout: Duration) -> (r: Result<(), Error>)
        ensures
            old(self).target() is Invalid ==> r is Ok && *final(self) == *old(self),
            final(self).target() == old(self).target(),
            !(old(self).target() is Invalid) ==> Self::sent_to_target(*old(self), *final(self)),
            !(old(self).target() is Invalid) ==> exists|reply: Result<Response, Error>|
                request_ended(old(self).taken(), final(self).taken(), final(self).last_request(), reply)
                    && r == stop_answer(reply),
    {
        if !self.disp_addr.is_valid() {
            return Ok(());
        }
        let reply = self.active_actor.request_for::<_, Response>(
            &self.disp_addr,
            Request::StopDispatcher {},
            timeout,
        );
        stop_reply(reply)
    }
}

} // verus!
