//! Various tools to allow time simulation of actors.

use crate::active::{ActiveMailbox, MAX_RECEIVE_ROUNDS};
use crate::actor::{hands_request, ActorId, Addr, Error, Message, RequestId};
use crate::context::{next_request_id, Clock, ProcessContext};
use crate::dispatcher::Dispatcher;
use crate::instant::Instant;
use crate::mpsc_dispatcher::{distinct_ids, is_first_position, replaced_at, MpscDispatcher};
use crate::payload::Payload;
use crate::reactive::Behavior;
use crate::std_time::{
    duration_as_nanos, duration_from_nanos, duration_nanos, std_instant_add,
    std_instant_checked_add, std_instant_duration_since, std_instant_lt, std_instant_lt_exec,
    std_instant_now, std_instant_since,
    MAX_DURATION_NANOS,
};
use crate::timer::{TimeoutScheduler, Timer};
use std::ops::ControlFlow;
use std::time::Duration;
use vstd::prelude::*;

verus! {

/// The simulated time of a `SimulationDispatcher`.
pub struct SimulatedInstantSource {
    elapsed_duration: Duration,
    simulated_now: std::time::Instant,
}

impl SimulatedInstantSource {
    /// The elapsed time is at most `Duration::MAX`.
    #[verifier::type_invariant]
    closed spec fn inv(self) -> bool {
        duration_nanos(self.elapsed_duration) <= MAX_DURATION_NANOS
    }

    /// Nanoseconds simulated since the creation, saturated at the ones of `Duration::MAX`.
    pub closed spec fn elapsed(self) -> u128 {
        duration_nanos(self.elapsed_duration)
    }

    /// The current simulated time.
    pub closed spec fn current(self) -> std::time::Instant {
        self.simulated_now
    }

    /// A simulated time that starts at the current time of the machine.
    pub fn new() -> (r: SimulatedInstantSource)
        ensures
            r.elapsed() == 0,
    {
        SimulatedInstantSource {
            elapsed_duration: crate::std_time::duration_zero(),
            simulated_now: std_instant_now(),
        }
    }

    /// Add nanoseconds to the elapsed time, saturating.
    fn add_elapsed(&mut self, nanos: u128)
        ensures
            final(self).elapsed() == (if old(self).elapsed() + nanos > MAX_DURATION_NANOS {
                MAX_DURATION_NANOS as int
            } else {
                old(self).elapsed() + nanos
            }),
            final(self).current() == old(self).current(),
            final(self).elapsed() >= old(self).elapsed(),
    {
        proof {
            use_type_invariant(&*self);
        }
        let before = duration_as_nanos(&self.elapsed_duration);
        let total: u128 = if nanos > MAX_DURATION_NANOS - before {
            MAX_DURATION_NANOS
        } else {
            before + nanos
        };
        self.elapsed_duration = duration_from_nanos(total);
    }

    /// Advance the simulated time by `duration`.
    pub fn advance_for(&mut self, duration: Duration)
        requires
            std_instant_add(old(self).current(), duration_nanos(duration)) is Some,
        ensures
            final(self).current() == std_instant_add(old(self).current(), duration_nanos(duration))->0,
            !crate::std_time::std_instant_lt(final(self).current(), old(self).current()),
            final(self).elapsed() >= old(self).elapsed(),
            final(self).elapsed() == (if old(self).elapsed() + duration_nanos(duration)
                > MAX_DURATION_NANOS {
                MAX_DURATION_NANOS as int
            } else {
                old(self).elapsed() + duration_nanos(duration)
            }),
    {
        let nanos = duration_as_nanos(&duration);
        self.add_elapsed(nanos);
        match std_instant_checked_add(&self.simulated_now, &duration) {
            Some(t) => {
                self.simulated_now = t;
            },
            None => {},
        }
    }

    /// Advance the simulated time until a finite instant.
    pub fn advance_until(&mut self, instant: Instant)
        requires
            !instant.is_inf(),
        ensures
            final(self).now_spec() == instant,
            final(self).elapsed() >= old(self).elapsed(),
            final(self).elapsed() == (if old(self).elapsed() + instant.sub_nanos(
                old(self).now_spec(),
            ) > MAX_DURATION_NANOS {
                MAX_DURATION_NANOS as int
            } else {
                old(self).elapsed() + instant.sub_nanos(old(self).now_spec())
            }),
    {
        match instant {
            Instant::Finite(internal_instant) => {
                let step = std_instant_duration_since(&internal_instant, &self.simulated_now);
                let nanos = duration_as_nanos(&step);
                self.add_elapsed(nanos);
                self.simulated_now = internal_instant;
            },
            Instant::Infinity => {},
        }
    }

    /// The current simulated time.
    pub fn current_instant(&self) -> (r: std::time::Instant)
        ensures
            r == self.current(),
    {
        self.simulated_now
    }

    /// The current simulated time as an instant.
    pub open spec fn now_spec(self) -> Instant {
        Instant::Finite(self.current())
    }

    /// Get the current simulated time.
    pub fn now(&self) -> (r: Instant)
        ensures
            r == self.now_spec(),
    {
        Instant::Finite(self.simulated_now)
    }
}

/// A time not earlier than `current`, which is not earlier than `start`, is not earlier
/// than `start`: the order of `std::time::Instant` is checked on the three instants.
fn not_earlier(start: &std::time::Instant, current: &std::time::Instant, later: &std::time::Instant)
    requires
        !std_instant_lt(*current, *start),
        !std_instant_lt(*later, *current) || std_instant_lt(*current, *later),
    ensures
        !std_instant_lt(*later, *start),
{
    let _ = std_instant_lt_exec(current, later);
    let _ = std_instant_lt_exec(current, start);
    let _ = std_instant_lt_exec(later, start);
}

/// No `std::time::Instant` comes before itself.
fn not_before_itself(t: &std::time::Instant)
    ensures
        !std_instant_lt(*t, *t),
{
    let _ = std_instant_lt_exec(t, t);
}

/// Why a run of the simulation ended.
pub enum RunEnd {
    /// The time limit was reached or passed.
    Reached,
    /// The observer asked to stop.
    Observed,
    /// The dispatcher processed its `StopDispatcher` request.
    DispatcherStopped,
    /// The run went through its most rounds.
    Interrupted,
}

/// Something looked at after each attempt to process a message; it can end the run.
pub trait Observer: Sized {
    /// The observer can be called.
    spec fn ready(&self) -> bool;

    /// The observer never ends a run.
    spec fn never_breaks(&self) -> bool;

    /// The next observation ends the run at once.
    spec fn breaks_at_once(&self) -> bool;

    /// What an observation that ends the run at once leaves, from the observer before it.
    spec fn broke_from(&self, before: Self) -> bool;

    /// What every observation keeps, from the observer before it.
    spec fn keeps(&self, before: Self) -> bool;

    /// What two observations in turn keep is kept through both.
    proof fn lemma_keeps_transitive(a: Self, b: Self, c: Self)
        requires
            b.keeps(a),
            c.keeps(b),
        ensures
            c.keeps(a),
    ;

    /// An observer keeps what it is.
    proof fn lemma_keeps_reflexive(a: Self)
        ensures
            a.keeps(a),
    ;

    fn observe(&mut self) -> (r: ControlFlow<()>)
        requires
            old(self).ready(),
        ensures
            final(self).ready(),
            final(self).never_breaks() == old(self).never_breaks(),
            old(self).never_breaks() ==> r is Continue,
            old(self).breaks_at_once() ==> r is Break && final(self).broke_from(*old(self)),
            final(self).keeps(*old(self)),
    ;
}

/// An observer that never ends a run.
pub struct NoObserver;

impl Observer for NoObserver {
    open spec fn ready(&self) -> bool {
        true
    }

    open spec fn never_breaks(&self) -> bool {
        true
    }

    open spec fn breaks_at_once(&self) -> bool {
        false
    }

    open spec fn broke_from(&self, before: Self) -> bool {
        true
    }

    open spec fn keeps(&self, before: Self) -> bool {
        true
    }

    proof fn lemma_keeps_transitive(a: Self, b: Self, c: Self) {
    }

    proof fn lemma_keeps_reflexive(a: Self) {
    }

    fn observe(&mut self) -> (r: ControlFlow<()>) {
        ControlFlow::Continue(())
    }
}

/// An observer made of a user function.
pub struct ClosureObserver<F: FnMut() -> ControlFlow<()>> {
    pub f: F,
}

impl<F: FnMut() -> ControlFlow<()>> Observer for ClosureObserver<F> {
    open spec fn ready(&self) -> bool {
        call_requires(self.f, ())
    }

    /// The function never answers `Break`.
    open spec fn never_breaks(&self) -> bool {
        forall|r: ControlFlow<()>| call_ensures(self.f, (), r) ==> r is Continue
    }

    /// The function always answers `Break`.
    open spec fn breaks_at_once(&self) -> bool {
        forall|r: ControlFlow<()>| call_ensures(self.f, (), r) ==> r is Break
    }

    open spec fn broke_from(&self, before: Self) -> bool {
        true
    }

    open spec fn keeps(&self, before: Self) -> bool {
        true
    }

    proof fn lemma_keeps_transitive(a: Self, b: Self, c: Self) {
    }

    proof fn lemma_keeps_reflexive(a: Self) {
    }

    /// The answer of the function.
    fn observe(&mut self) -> (r: ControlFlow<()>)
        ensures
            call_ensures(old(self).f, (), r),
    {
        (self.f)()
    }
}

/// An observer that ends the run as soon as an active mailbox holds a message, and else
/// asks a user function.
pub struct MailboxObserver<F: FnMut() -> ControlFlow<()>> {
    pub active: ActiveMailbox,
    pub f: F,
    pub received: Option<Message>,
}

impl<F: FnMut() -> ControlFlow<()>> Observer for MailboxObserver<F> {
    open spec fn ready(&self) -> bool {
        call_requires(self.f, ())
    }

    open spec fn never_breaks(&self) -> bool {
        false
    }

    /// A message put aside in the mailbox is taken at once.
    open spec fn breaks_at_once(&self) -> bool {
        self.received is None && self.active.pending().len() > 0
    }

    open spec fn broke_from(&self, before: Self) -> bool {
        self.received == Some(before.active.pending().last())
    }

    /// The mailbox keeps its identifier, its last request and its requests; the first
    /// message received
    /// is kept, and it is the message put aside first or else the one taken from the
    /// queue, which nothing else is taken from.
    open spec fn keeps(&self, before: Self) -> bool {
        &&& self.active.id() == before.active.id()
        &&& self.active.last_request() == before.active.last_request()
        &&& self.active.requests() == before.active.requests()
        &&& before.received is Some ==> self.received == before.received && self.active.taken()
            == before.active.taken()
        &&& before.received is None && self.received is None ==> self.active.taken()
            == before.active.taken() && self.active.pending() == before.active.pending()
        &&& before.received is None ==> (self.received matches Some(m) ==> if before.active.pending().len() > 0 {
            m == before.active.pending().last() && self.active.taken() == before.active.taken()
        } else {
            self.active.taken() == before.active.taken().push(m)
        })
    }

    proof fn lemma_keeps_transitive(a: Self, b: Self, c: Self) {
    }

    proof fn lemma_keeps_reflexive(a: Self) {
    }

    /// Once a message is received the run ends; else a message of the mailbox is
    /// received and ends the run; else the function answers.
    fn observe(&mut self) -> (r: ControlFlow<()>)
        ensures
            r is Break ==> final(self).received is Some || (final(self).received == old(
                self,
            ).received && call_ensures(old(self).f, (), r)),
            r is Continue ==> final(self).received == old(self).received && call_ensures(
                old(self).f,
                (),
                r,
            ),
    {
        if self.received.is_some() {
            return ControlFlow::Break(());
        }
        match self.active.try_get_message() {
            Ok(receive_msg) => {
                self.received = Some(receive_msg);
                ControlFlow::Break(())
            },
            Err(_) => (self.f)(),
        }
    }
}

/// Most rounds of processing, or of time advance, a run goes through.
pub const MAX_SIMULATION_ROUNDS: u64 = 18_446_744_073_709_551_615u64;

/// A dispatcher used to simulate time execution of reactive actors.
pub struct SimulationDispatcher {
    disp: MpscDispatcher,
    timeout_scheduler: TimeoutScheduler,
    instant_source: SimulatedInstantSource,
    request_id_counter_backup: RequestId,
    last_run_interrupted: bool,
    last_run_stopped: bool,
    last_run_attempts: Ghost<nat>,
}

/// The reply that a received message gives to the request `request_id`: the data of a
/// successful response to it, the error of a failed one, else `Error::NoMessage`.
pub open spec fn reply_spec(request_id: RequestId, msg: Message) -> Result<Payload, Error> {
    match msg {
        Message::Response(response) => if response.request_id == request_id {
            match response.result {
                Ok(data) => Ok(data),
                Err(status) => Err(status.error),
            }
        } else {
            Err(Error::NoMessage)
        },
        _ => Err(Error::NoMessage),
    }
}

/// What a request `request_id` that awaits a `T` answers when `msg` is the first message it
/// receives: the error of the reply, or, for a reply with data, that data as a `T`, or
/// `Error::DowncastFailed` when the data has another type.
pub open spec fn answers<T>(request_id: RequestId, msg: Message, r: Result<T, Error>) -> bool {
    match reply_spec(request_id, msg) {
        Err(e) => r == Err::<T, Error>(e),
        Ok(_) => r is Ok || r == Err::<T, Error>(Error::DowncastFailed),
    }
}

/// What a request sent from the mailbox `before`, with the identifier `request_id`, answers
/// when the mailbox is `after` at its end: a message put aside first, else the message
/// taken from the queue during the run, else `Error::NoMessage` when the run ended with
/// nothing taken.
pub open spec fn request_answer<T>(
    before: ActiveMailbox,
    after: ActiveMailbox,
    request_id: RequestId,
    r: Result<T, Error>,
) -> bool {
    if before.pending().len() > 0 {
        answers(request_id, before.pending().last(), r) && after.taken() == before.taken()
    } else {
        ||| after.taken() == before.taken() && r == Err::<T, Error>(Error::NoMessage)
        ||| after.taken().len() > 0 && after.taken() == before.taken().push(after.taken().last())
            && answers(request_id, after.taken().last(), r)
    }
}

/// The reply that a received message gives to the request `request_id`.
pub fn reply_to(request_id: RequestId, msg: Message) -> (r: Result<Payload, Error>)
    ensures
        r == reply_spec(request_id, msg),
{
    match msg {
        Message::Response(response) => {
            if response.id_eq(request_id) {
                match response.result {
                    Ok(data) => Ok(data),
                    Err(err) => Err(err.error),
                }
            } else {
                Err(Error::NoMessage)
            }
        },
        _ => Err(Error::NoMessage),
    }
}

impl SimulationDispatcher {
    /// The current simulated time.
    pub closed spec fn time(self) -> Instant {
        self.instant_source.now_spec()
    }

    /// The simulated nanoseconds since the creation.
    pub closed spec fn elapsed(self) -> u128 {
        self.instant_source.elapsed()
    }

    /// The identifier of the dispatcher.
    pub closed spec fn id(self) -> ActorId {
        self.disp.id()
    }

    /// The identifiers of the reactives held, in order of registration.
    pub closed spec fn ids(self) -> Seq<ActorId> {
        self.disp.ids()
    }


    /// The dispatcher that holds the reactives.
    pub closed spec fn dispatcher(self) -> MpscDispatcher {
        self.disp
    }

    /// The scheduled timers, each with the reactive it notifies.
    pub closed spec fn timers(self) -> Map<Timer, ActorId> {
        self.timeout_scheduler.entries()
    }

    /// The last run of the simulation went through its most rounds.
    pub closed spec fn interrupted(self) -> bool {
        self.last_run_interrupted
    }

    /// The last run of the simulation processed the `StopDispatcher` request.
    pub closed spec fn stopped(self) -> bool {
        self.last_run_stopped
    }

    /// How many attempts to process a message the last run made; the observer of the run
    /// is called after each.
    pub closed spec fn attempts(self) -> nat {
        self.last_run_attempts@
    }

    /// The end of a run at `instant`: the time reached or passed it, the dispatcher was
    /// stopped, or the run went through its most rounds.
    pub open spec fn ended_at(self, instant: Instant) -> bool {
        ||| self.time() == instant
        ||| instant.before(self.time())
        ||| self.stopped()
        ||| self.interrupted()
    }

    /// What every run keeps: the dispatcher, a time that never goes back, never moves when
    /// it is not before the limit and never passes a finite limit, and an elapsed time that
    /// never decreases.
    pub open spec fn run_keeps(old_self: SimulationDispatcher, new_self: SimulationDispatcher, instant: Instant) -> bool {
        &&& new_self.id() == old_self.id()
        &&& new_self.elapsed() >= old_self.elapsed()
        &&& !new_self.time().before(old_self.time())
        &&& !old_self.time().before(instant) ==> new_self.time() == old_self.time()
        &&& !instant.is_inf() && old_self.time().before(instant) ==> !instant.before(new_self.time())
        &&& new_self.stopped() ==> new_self.ids().len() == 0
        &&& new_self.interrupted() ==> new_self.attempts() >= MAX_SIMULATION_ROUNDS
        &&& new_self.attempts() >= 1
    }

    /// Take the mailbox out of `active` for the time of a run, leaving an empty one there.
    fn lend(active: &mut ActiveMailbox) -> (r: ActiveMailbox)
        ensures
            r == *old(active),
    {
        let mut mailbox = ActiveMailbox::new(0);
        std::mem::swap(&mut mailbox, active);
        mailbox
    }

    /// Run until `instant`, recording whether the run was cut short.
    fn run<O: Observer>(&mut self, instant: Instant, observer: &mut O)
        requires
            old(observer).ready(),
        ensures
            final(observer).ready(),
            Self::run_keeps(*old(self), *final(self), instant),
            old(observer).never_breaks() ==> final(self).ended_at(instant),
            old(observer).breaks_at_once() ==> final(observer).broke_from(*old(observer))
                && final(self).attempts() == 1 && final(self).time() == old(self).time(),
            final(observer).keeps(*old(observer)),
    {
        let (end, attempts) = self.run_until(instant, observer);
        self.last_run_interrupted = match end {
            RunEnd::Interrupted => true,
            _ => false,
        };
        self.last_run_stopped = match end {
            RunEnd::DispatcherStopped => true,
            _ => false,
        };
        self.last_run_attempts = attempts;
    }

    /// Process messages until either the `duration` is elapsed or `break_func` return `ControlFlow::Break`.
    pub fn process_for_cond<F: FnMut() -> ControlFlow<()>>(&mut self, duration: Duration, break_func: F)
        requires
            old(self).time().can_add(duration),
            call_requires(break_func, ()),
        ensures
            Self::run_keeps(*old(self), *final(self), old(self).time().plus(duration)),
            (forall|r: ControlFlow<()>| call_ensures(break_func, (), r) ==> r is Continue) ==> final(self).ended_at(old(self).time().plus(duration)),
            (forall|r: ControlFlow<()>| call_ensures(break_func, (), r) ==> r is Break) ==> final(self).attempts() == 1
                && final(self).time() == old(self).time(),
    {
        let instant = self.now() + duration;
        self.process_until_cond(instant, break_func);
    }

    /// Process messages until either the `instant` is reached or `break_func` return `ControlFlow::Break`.
    pub fn process_until_cond<F: FnMut() -> ControlFlow<()>>(&mut self, instant: Instant, break_func: F)
        requires
            call_requires(break_func, ()),
        ensures
            Self::run_keeps(*old(self), *final(self), instant),
            (forall|r: ControlFlow<()>| call_ensures(break_func, (), r) ==> r is Continue) ==> final(self).ended_at(instant),
            (forall|r: ControlFlow<()>| call_ensures(break_func, (), r) ==> r is Break) ==> final(self).attempts() == 1
                && final(self).time() == old(self).time(),
    {
        let mut observer = ClosureObserver { f: break_func };
        self.run(instant, &mut observer);
    }

    /// Process messages until the `duration` is elapsed.
    pub fn process_for(&mut self, duration: Duration)
        requires
            old(self).time().can_add(duration),
        ensures
            Self::run_keeps(*old(self), *final(self), old(self).time().plus(duration)),
            final(self).ended_at(old(self).time().plus(duration)),
    {
        let instant = self.now() + duration;
        self.process_until(instant);
    }

    /// Process messages until the `instant` is reached.
    pub fn process_until(&mut self, instant: Instant)
        ensures
            Self::run_keeps(*old(self), *final(self), instant),
            final(self).ended_at(instant),
    {
        let mut observer = NoObserver;
        self.run(instant, &mut observer);
    }

    /// Process messages until the dispatcher is stopped.
    pub fn process(&mut self)
        ensures
            Self::run_keeps(*old(self), *final(self), Instant::Infinity),
            final(self).stopped() || final(self).interrupted(),
    {
        self.process_until(Instant::INFINITY);
    }

    /// Wait indefinitely that an ActiveMailbox receives a message.
    pub fn active_wait_message(&mut self, active: &mut ActiveMailbox) -> (r: Result<Message, Error>)
        ensures
            Self::run_keeps(*old(self), *final(self), Instant::Infinity),
            r matches Err(e) ==> e is NoMessage,
            old(active).pending().len() > 0 ==> r == Ok::<Message, Error>(old(active).pending().last()),
            ActiveMailbox::took(*old(active), *final(active), r),
            final(active).requests() == old(active).requests(),
            final(active).id() == old(active).id(),
            final(active).last_request() == old(active).last_request(),
    {
        self.active_wait_message_until(active, Instant::INFINITY)
    }

    /// Wait for a given duration that an ActiveMailbox receives a message.
    pub fn active_wait_message_for(&mut self, active: &mut ActiveMailbox, duration: Duration) -> (r:
        Result<Message, Error>)
        requires
            old(self).time().can_add(duration),
        ensures
            Self::run_keeps(*old(self), *final(self), old(self).time().plus(duration)),
            r matches Err(e) ==> e is NoMessage,
            old(active).pending().len() > 0 ==> r == Ok::<Message, Error>(old(active).pending().last()),
            ActiveMailbox::took(*old(active), *final(active), r),
            final(active).requests() == old(active).requests(),
            final(active).id() == old(active).id(),
            final(active).last_request() == old(active).last_request(),
    {
        let instant = self.now() + duration;
        self.active_wait_message_until(active, instant)
    }

    /// Wait until a point in time that an ActiveMailbox receives a message.
    pub fn active_wait_message_until(&mut self, active: &mut ActiveMailbox, instant: Instant) -> (r:
        Result<Message, Error>)
        ensures
            Self::run_keeps(*old(self), *final(self), instant),
            r matches Err(e) ==> e is NoMessage,
            old(active).pending().len() > 0 ==> r == Ok::<Message, Error>(old(active).pending().last()),
            ActiveMailbox::took(*old(active), *final(active), r),
            final(active).requests() == old(active).requests(),
            final(active).id() == old(active).id(),
            final(active).last_request() == old(active).last_request(),
    {
        self.active_wait_message_until_cond(active, instant, || ControlFlow::Continue(()))
    }

    /// Wait until a point in time that an ActiveMailbox receives a message or a condition is met.
    ///
    /// `Error::NoMessage` when the run ends without a message.
    pub fn active_wait_message_until_cond<F: FnMut() -> ControlFlow<()>>(
        &mut self,
        active: &mut ActiveMailbox,
        instant: Instant,
        break_func: F,
    ) -> (r: Result<Message, Error>)
        requires
            call_requires(break_func, ()),
        ensures
            Self::run_keeps(*old(self), *final(self), instant),
            r matches Err(e) ==> e is NoMessage,
            old(active).pending().len() > 0 ==> r == Ok::<Message, Error>(old(active).pending().last()),
            ActiveMailbox::took(*old(active), *final(active), r),
            final(active).requests() == old(active).requests(),
            final(active).id() == old(active).id(),
            final(active).last_request() == old(active).last_request(),
    {
        let mut observer = MailboxObserver { active: Self::lend(active), f: break_func, received: None };
        self.run(instant, &mut observer);
        let MailboxObserver { active: mailbox, f: _, received } = observer;
        *active = mailbox;
        match received {
            Some(msg) => Ok(msg),
            None => Err(Error::NoMessage),
        }
    }

    /// Execute a request with a `ActiveMailbox` until either the response arrives or `instant` is reached.
    pub fn active_request_until<TRequest: 'static + Send, TResponse: 'static + Send>(
        &mut self,
        active: &mut ActiveMailbox,
        dst: &Addr,
        request_data: TRequest,
        instant: Instant,
    ) -> (r: Result<TResponse, Error>)
        ensures
            Self::run_keeps(*old(self), *final(self), instant),
            request_answer(
                *old(active),
                *final(active),
                next_request_id(old(active).last_request()),
                r,
            ),
            hands_request(
                old(active).requests(),
                final(active).requests(),
                *dst,
                old(active).id(),
                next_request_id(old(active).last_request()),
            ),
            final(active).id() == old(active).id(),
            final(active).last_request() == next_request_id(old(active).last_request()),
    {
        self.active_request_until_cond(
            active,
            dst,
            request_data,
            instant,
            || ControlFlow::Continue(()),
        )
    }

    /// Execute a request with a `ActiveMailbox` until either the response arrives, `break_func` breaks
    /// or `instant` is reached.
    ///
    /// The request is handed to `dst` (recorded in the requests of `active`). The first
    /// message received gives the result, as `reply_to` says, with the data downcast to
    /// `TResponse` (`Error::DowncastFailed` when it has an other type); a run that ends
    /// without a message gives `Error::NoMessage`.
    pub fn active_request_until_cond<TRequest: 'static + Send, TResponse: 'static + Send, F: FnMut() -> ControlFlow<()>>(
        &mut self,
        active: &mut ActiveMailbox,
        dst: &Addr,
        request_data: TRequest,
        instant: Instant,
        break_func: F,
    ) -> (r: Result<TResponse, Error>)
        requires
            call_requires(break_func, ()),
        ensures
            Self::run_keeps(*old(self), *final(self), instant),
            request_answer(
                *old(active),
                *final(active),
                next_request_id(old(active).last_request()),
                r,
            ),
            hands_request(
                old(active).requests(),
                final(active).requests(),
                *dst,
                old(active).id(),
                next_request_id(old(active).last_request()),
            ),
            final(active).id() == old(active).id(),
            final(active).last_request() == next_request_id(old(active).last_request()),
    {
        let request_id = active.generate_request_id();
        let _ = active.hand_request(dst, request_id, request_data);

        let mut observer = MailboxObserver { active: Self::lend(active), f: break_func, received: None };
        self.run(instant, &mut observer);
        let MailboxObserver { active: mailbox, f: _, received } = observer;
        *active = mailbox;
        match received {
            Some(msg) => match reply_to(request_id, msg) {
                Ok(data) => match data.downcast::<TResponse>() {
                    Ok(out) => Ok(out),
                    Err(_) => Err(Error::DowncastFailed),
                },
                Err(e) => Err(e),
            },
            None => Err(Error::NoMessage),
        }
    }

    /// Execute a request with a `ActiveMailbox` until either the response arrives
    /// or `duration` elapses.
    pub fn active_request_for<TRequest: 'static + Send, TResponse: 'static + Send>(
        &mut self,
        active: &mut ActiveMailbox,
        dst: &Addr,
        request_data: TRequest,
        duration: Duration,
    ) -> (r: Result<TResponse, Error>)
        requires
            old(self).time().can_add(duration),
        ensures
            Self::run_keeps(*old(self), *final(self), old(self).time().plus(duration)),
            request_answer(
                *old(active),
                *final(active),
                next_request_id(old(active).last_request()),
                r,
            ),
            hands_request(
                old(active).requests(),
                final(active).requests(),
                *dst,
                old(active).id(),
                next_request_id(old(active).last_request()),
            ),
            final(active).id() == old(active).id(),
            final(active).last_request() == next_request_id(old(active).last_request()),
    {
        let instant = self.now() + duration;
        self.active_request_until(active, dst, request_data, instant)
    }

    pub fn new(queue_size: usize) -> (r: SimulationDispatcher)
        ensures
            r.elapsed() == 0,
            r.ids().len() == 0,
            r.timers() == Map::<Timer, ActorId>::empty(),
            !r.stopped() && !r.interrupted(),
            r.id() != crate::actor::INVALID_ACTOR_ID,
    {
        SimulationDispatcher {
            disp: MpscDispatcher::new(queue_size),
            request_id_counter_backup: 0,
            instant_source: SimulatedInstantSource::new(),
            timeout_scheduler: TimeoutScheduler::new(),
            last_run_interrupted: false,
            last_run_stopped: false,
            last_run_attempts: Ghost(0),
        }
    }

    /// The address of the dispatcher.
    pub fn addr(&self) -> (r: Addr)
        ensures
            r.id() == self.id(),
            r is Reactive,
    {
        self.disp.addr()
    }

    /// Same as `addr()`.
    pub fn get_addr(&self) -> (r: Addr)
        ensures
            r.id() == self.id(),
            r is Reactive,
    {
        self.addr()
    }

    /// Move reactive into the dispatcher.
    pub fn register_reactive(&mut self, behaviour: Box<dyn Behavior>) -> (r: Addr)
        ensures
            r.id() != crate::actor::INVALID_ACTOR_ID,
            r is Reactive,
            old(self).ids().len() + 2 < u64::MAX ==> r.id() != old(self).id() && !old(
                self,
            ).ids().contains(r.id()),
            final(self).ids() == old(self).ids().push(r.id()),
            distinct_ids(old(self).ids(), old(self).id()) && old(self).ids().len() + 2 < u64::MAX
                ==> distinct_ids(final(self).ids(), final(self).id()),
            final(self).id() == old(self).id(),
            final(self).time() == old(self).time(),
            final(self).elapsed() == old(self).elapsed(),
            final(self).dispatcher().placed_count() == old(self).dispatcher().placed_count() + 1,
            final(self).dispatcher().placement_at(old(self).ids().len() as int) == old(
                self,
            ).dispatcher().placed_count(),
            forall|j: int| 0 <= j < old(self).ids().len() ==> #[trigger] final(self).dispatcher().placement_at(j)
                == old(self).dispatcher().placement_at(j),
    {
        self.disp.register_reactive(behaviour)
    }

    /// Replace reactive in the dispatcher.
    ///
    /// Return Ok(old_behavior) or Err(new_behavior) when no reactive has this address.
    pub fn replace_reactive(&mut self, addr: &Addr, behaviour: Box<dyn Behavior>) -> (r: Result<
        Box<dyn Behavior>,
        Box<dyn Behavior>,
    >)
        ensures
            r is Ok <==> old(self).ids().contains(addr.id()),
            r is Ok ==> exists|k: int|
                #[trigger] is_first_position(old(self).ids(), addr.id(), k) && replaced_at(
                    old(self).dispatcher(),
                    final(self).dispatcher(),
                    k,
                ),
            r is Err ==> forall|j: int|
                0 <= j < old(self).ids().len() ==> #[trigger] final(self).dispatcher().placement_at(j)
                    == old(self).dispatcher().placement_at(j),
            final(self).ids() == old(self).ids(),
            final(self).id() == old(self).id(),
            final(self).time() == old(self).time(),
            final(self).elapsed() == old(self).elapsed(),
    {
        self.disp.replace_reactive(addr, behaviour)
    }

    /// Get the current simulated time.
    pub fn now(&self) -> (r: Instant)
        ensures
            r == self.time(),
            !r.is_inf(),
    {
        self.instant_source.now()
    }

    /// Process messages and advance the simulated time until `instant`, or until the
    /// observer or the dispatcher stops the run.
    ///
    /// All queued messages are processed at the current time; then the next mature timeout
    /// is sent, or the time jumps to the next deadline, or to `instant` when it comes first.
    fn run_until<O: Observer>(&mut self, instant: Instant, observer: &mut O) -> (res: (RunEnd, Ghost<nat>))
        requires
            old(observer).ready(),
        ensures
            final(observer).ready(),
            final(self).id() == old(self).id(),
            final(self).elapsed() >= old(self).elapsed(),
            res.0 is Reached ==> final(self).time() == instant || instant.before(final(self).time()),
            res.0 is DispatcherStopped ==> final(self).ids().len() == 0,
            res.0 is Observed ==> !old(observer).never_breaks(),
            !old(self).time().before(instant) ==> final(self).time() == old(self).time(),
            !final(self).time().before(old(self).time()),
            !instant.is_inf() && old(self).time().before(instant) ==> !instant.before(
                final(self).time(),
            ),
            old(observer).breaks_at_once() ==> final(observer).broke_from(*old(observer)),
            final(observer).keeps(*old(observer)),
            res.0 is Interrupted ==> res.1@ >= MAX_SIMULATION_ROUNDS,
            old(observer).breaks_at_once() ==> res.1@ == 1 && final(self).time() == old(self).time(),
            res.1@ >= 1,
    {
        proof {
            O::lemma_keeps_reflexive(*observer);
        }
        let start_time = self.instant_source.current_instant();
        not_before_itself(&start_time);
        let _ = self.instant_source.now().is_before(&instant);
        let mut rounds: u64 = MAX_SIMULATION_ROUNDS;
        let ghost mut attempts: nat = 0;
        while rounds > 0
            invariant
                attempts + rounds >= MAX_SIMULATION_ROUNDS,
                rounds < MAX_SIMULATION_ROUNDS ==> attempts >= 1,
                old(observer).breaks_at_once() ==> *observer == *old(observer) && rounds
                    == MAX_SIMULATION_ROUNDS && attempts == 0 && self.time() == old(self).time(),
                observer.keeps(*old(observer)),
                observer.ready(),
                observer.never_breaks() == old(observer).never_breaks(),
                self.id() == old(self).id(),
                self.elapsed() >= old(self).elapsed(),
                !old(self).time().before(instant) ==> self.time() == old(self).time(),
                !self.time().before(old(self).time()),
                old(self).time() == Instant::Finite(start_time),
                !instant.is_inf() && old(self).time().before(instant) ==> !instant.before(
                    self.time(),
                ),
            decreases rounds,
        {
            rounds = rounds - 1;
            let now = self.instant_source.now();
            let now_internal = match now {
                Instant::Finite(t) => t,
                Instant::Infinity => {
                    return (RunEnd::Interrupted, Ghost(attempts));
                },
            };
            let mut scheduler = TimeoutScheduler::new();
            std::mem::swap(&mut scheduler, &mut self.timeout_scheduler);
            let mut context = ProcessContext::new(
                self.disp.sender(),
                self.request_id_counter_backup,
                Clock::Simulated(now_internal),
                scheduler,
            );
            // Process all queued messages at the current time.
            let mut end: Option<RunEnd> = None;
            let mut last_processed = true;
            let mut processing: u64 = MAX_SIMULATION_ROUNDS;
            let ghost mut observed = false;
            let ghost start = attempts;
            while processing > 0
                invariant
                    observed ==> attempts >= start + 1,
                    old(observer).breaks_at_once() ==> start == 0 && (observed ==> attempts == 1)
                        && (!observed ==> attempts == 0) && self.time() == old(self).time(),
                    attempts >= start,
                    processing > 0 ==> end is None && last_processed,
                    !(end matches Some(RunEnd::Interrupted)),
                    end is None && last_processed ==> attempts == start + (MAX_SIMULATION_ROUNDS
                        - processing),
                    old(observer).breaks_at_once() ==> (if observed {
                        observer.broke_from(*old(observer)) && end is Some
                    } else {
                        *observer == *old(observer)
                    }),
                    observer.keeps(*old(observer)),
                        observed || processing == MAX_SIMULATION_ROUNDS,
                    observer.ready(),
                    observer.never_breaks() == old(observer).never_breaks(),
                    self.id() == old(self).id(),
                    self.elapsed() >= old(self).elapsed(),
                    now == self.time(),
                    !old(self).time().before(instant) ==> self.time() == old(self).time(),
                    !self.time().before(old(self).time()),
                    old(self).time() == Instant::Finite(start_time),
                    !instant.is_inf() && old(self).time().before(instant) ==> !instant.before(
                        self.time(),
                    ),
                    end matches Some(RunEnd::Reached) ==> now == instant || instant.before(now),
                    end matches Some(RunEnd::DispatcherStopped) ==> self.ids().len() == 0,
                    end matches Some(RunEnd::Observed) ==> !old(observer).never_breaks(),
                    end is None && !last_processed ==> now.before(instant),
                    end is Some ==> processing == 0,
                decreases processing,
            {
                processing = processing - 1;
                proof {
                    attempts = attempts + 1;
                }
                let (message_processed, stopped) = self.disp.try_process_message(&mut context);
                last_processed = message_processed;
                if stopped {
                    end = Some(RunEnd::DispatcherStopped);
                }
                let ghost before = *observer;
                let seen = observer.observe();
                proof {
                    O::lemma_keeps_transitive(*old(observer), before, *observer);
                    observed = true;
                }
                match seen {
                    ControlFlow::Break(_) => {
                        if end.is_none() {
                            end = Some(RunEnd::Observed);
                        }
                    },
                    ControlFlow::Continue(_) => {
                        if end.is_none() {
                            let passed = instant.is_before(&now);
                            let at = now.is_equal(&instant);
                            if passed || (!message_processed && at) {
                                end = Some(RunEnd::Reached);
                            }
                        }
                    },
                }
                if end.is_some() || !message_processed {
                    processing = 0;
                }
            }
            match end {
                Some(e) => {
                    let (s, c) = context.into_parts();
                    self.timeout_scheduler = s;
                    self.request_id_counter_backup = c;
                    return (e, Ghost(attempts));
                },
                None => {},
            }
            if last_processed {
                // The processing went through its most rounds.
                let (s, c) = context.into_parts();
                self.timeout_scheduler = s;
                self.request_id_counter_backup = c;
                return (RunEnd::Interrupted, Ghost(attempts));
            }
            // The queue is empty and `now` is before `instant`: send a mature timeout, or
            // advance the time.
            match context.try_send_next_pending_timeout() {
                ControlFlow::Continue(()) => {},
                ControlFlow::Break(duration) => {
                    if duration_as_nanos(&duration) != MAX_DURATION_NANOS && now.saturating_add(
                        duration,
                    ).is_before(&instant) {
                        self.instant_source.advance_for(duration);
                        not_earlier(&start_time, &now_internal, &self.instant_source.current_instant());
                    } else if instant.at_inf() {
                        // Continue the processing: the observer can have side effects.
                    } else {
                        self.instant_source.advance_until(instant);
                        let reached = self.instant_source.current_instant();
                        not_earlier(&start_time, &now_internal, &reached);
                        not_before_itself(&reached);
                    }
                },
            }
            let (s, c) = context.into_parts();
            self.timeout_scheduler = s;
            self.request_id_counter_backup = c;
        }
        (RunEnd::Interrupted, Ghost(attempts))
    }
}

} // verus!
