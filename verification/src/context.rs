//! The context given to a reactive actor while it processes a message.

use crate::actor::{
    hands_request, is_send_error, ActorId, Addr, Error, Message, Notification, Request, RequestId,
    RequestSent,
};
use crate::channel::RoutedSender;
use crate::instant::Instant;
use crate::payload::{payload_timeout, Payload, Timeout};
use crate::reactive::{MessageAndDstId, ReactiveAddr};
use crate::std_time::{
    duration_as_nanos, duration_max, duration_nanos, duration_zero, std_instant_now, MAX_DURATION_NANOS,
};
use crate::timer::{
    is_earliest, next_timeout_id, offset_from, unscheduled_entries, unscheduled_timer, TimeoutScheduler, Timer,
};
use std::ops::ControlFlow;
use std::time::Duration;
use vstd::prelude::*;

verus! {

/// Source of the current time of a dispatcher.
#[derive(Clone, Copy)]
pub enum Clock {
    /// The time of the machine.
    Real,
    /// A simulated time that only moves when the simulation advances it.
    Simulated(std::time::Instant),
}

/// The request identifier that follows `id`; identifiers wrap around.
pub open spec fn next_request_id(id: RequestId) -> RequestId {
    if id == RequestId::MAX {
        0
    } else {
        (id + 1) as RequestId
    }
}

/// Two requests sent one after the other get different identifiers.
pub proof fn law_consecutive_request_ids_differ(id: RequestId)
    ensures
        next_request_id(id) != id,
{
}

/// An way to interact with the dispatcher that is only valid during `Behavior::process_message()`.
pub struct ProcessContext {
    pub(crate) tx: RoutedSender,
    pub(crate) own_actor_id: ActorId,
    pub(crate) request_id_counter: RequestId,
    pub(crate) clock: Clock,
    pub(crate) timeout_scheduler: TimeoutScheduler,
    /// Every message queued for the dispatcher by this context, in order.
    pub(crate) queued: Ghost<Seq<MessageAndDstId>>,
    /// Every request sent through this context, in order.
    pub(crate) requests: Ghost<Seq<RequestSent>>,
}

/// `d` nanoseconds is the wait that `try_send_next_pending_timeout` gives for the scheduled
/// `entries` when it sends nothing: `Duration::MAX` without timers, else the time from the
/// present to the deadline of the earliest timer, zero when it is due.
pub open spec fn next_wait(entries: Map<Timer, ActorId>, d: u128) -> bool {
    ||| entries == Map::<Timer, ActorId>::empty() && d == MAX_DURATION_NANOS
    ||| exists|t: Timer, now: std::time::Instant|
        #[trigger] is_earliest(entries, t, now) && d == t.deadline.sub_nanos(Instant::Finite(now))
}

/// Seen from `now`, a wait of `d` nanoseconds is zero or ends no later than every
/// scheduled deadline.
pub open spec fn wait_within(entries: Map<Timer, ActorId>, d: u128, now: std::time::Instant) -> bool {
    forall|k: Timer| #[trigger] entries.contains_key(k) ==> d == 0 || d <= offset_from(k.deadline, now)
}

/// A wait on the queue that `next_wait` gives never goes past a deadline: seen from the
/// present, it is zero or not longer than the time to any scheduled deadline, and without
/// timers it is `Duration::MAX`.
pub proof fn law_wait_never_passes_a_deadline(entries: Map<Timer, ActorId>, d: u128)
    requires
        next_wait(entries, d),
    ensures
        entries == Map::<Timer, ActorId>::empty() ==> d == MAX_DURATION_NANOS,
        entries != Map::<Timer, ActorId>::empty() ==> exists|now: std::time::Instant|
            #[trigger] wait_within(entries, d, now),
{
    if entries != Map::<Timer, ActorId>::empty() {
        let (t, now) = choose|t: Timer, now: std::time::Instant|
            #[trigger] is_earliest(entries, t, now) && d == t.deadline.sub_nanos(Instant::Finite(now));
        assert forall|k: Timer| #[trigger] entries.contains_key(k) implies d == 0 || d <= offset_from(
            k.deadline,
            now,
        ) by {
            assert(!crate::timer::matures_before(k, t, now));
        }
        assert(wait_within(entries, d, now));
    } else {
        assert(!exists|t: Timer, now: std::time::Instant| #[trigger] is_earliest(entries, t, now));
    }
}

/// `m` is the timeout of `timer` for the reactive `dst`.
pub open spec fn is_timeout_for(m: MessageAndDstId, timer: Timer, dst: ActorId) -> bool {
    &&& m.dst_id == dst
    &&& m.message matches Message::Notification(n) && payload_timeout(n.data) == Some(timer.id)
}

impl ProcessContext {
    /// The identifier of the reactive being processed.
    pub closed spec fn own_id(self) -> ActorId {
        self.own_actor_id
    }

    /// The identifier of the last request sent.
    pub closed spec fn counter(self) -> RequestId {
        self.request_id_counter
    }

    /// The source of the time.
    pub closed spec fn time_source(self) -> Clock {
        self.clock
    }

    /// The scheduled timers.
    pub closed spec fn scheduler(self) -> TimeoutScheduler {
        self.timeout_scheduler
    }

    /// Every message queued for the dispatcher by this context, in order: the timeouts.
    pub closed spec fn queued(self) -> Seq<MessageAndDstId> {
        self.queued@
    }

    /// Every request sent through this context, in order.
    pub closed spec fn requests(self) -> Seq<RequestSent> {
        self.requests@
    }

    /// Both contexts record the same messages queued and requests sent.
    pub open spec fn same_records(self, other: Self) -> bool {
        self.queued() == other.queued() && self.requests() == other.requests()
    }

    pub(crate) fn new(
        tx: RoutedSender,
        request_id_counter: RequestId,
        clock: Clock,
        timeout_scheduler: TimeoutScheduler,
    ) -> (r: ProcessContext)
        ensures
            r.own_id() == crate::actor::INVALID_ACTOR_ID,
            r.counter() == request_id_counter,
            r.time_source() == clock,
            r.scheduler() == timeout_scheduler,
            r.queued().len() == 0,
            r.requests().len() == 0,
    {
        ProcessContext {
            tx,
            own_actor_id: crate::actor::INVALID_ACTOR_ID,
            request_id_counter,
            clock,
            timeout_scheduler,
            queued: Ghost(Seq::empty()),
            requests: Ghost(Seq::empty()),
        }
    }

    /// Set the reactive being processed.
    pub(crate) fn set_own_actor_id(&mut self, id: ActorId)
        ensures
            final(self).own_id() == id,
            final(self).counter() == old(self).counter(),
            final(self).time_source() == old(self).time_source(),
            final(self).scheduler() == old(self).scheduler(),
            final(self).same_records(*old(self)),
    {
        self.own_actor_id = id;
    }

    /// Give back the scheduler and the request counter.
    pub(crate) fn into_parts(self) -> (r: (TimeoutScheduler, RequestId))
        ensures
            r.0 == self.scheduler(),
            r.1 == self.counter(),
    {
        (self.timeout_scheduler, self.request_id_counter)
    }

    /// Return the actor address of the reactive being processed.
    pub fn own_addr(&self) -> (r: Addr)
        ensures
            r.id() == self.own_id(),
            r is Reactive,
    {
        ReactiveAddr::new(self.tx.duplicate(), self.own_actor_id).into_addr()
    }

    /// Same as `own_addr()`.
    pub fn get_own_addr(&self) -> (r: Addr)
        ensures
            r.id() == self.own_id(),
            r is Reactive,
    {
        self.own_addr()
    }

    /// Send a request to an other actor.
    ///
    /// Return an identifier of the transaction: the one that follows the last one sent.
    /// The request, from the reactive being processed, is handed to `dst` and recorded in
    /// `requests`.
    pub fn send_request<T: 'static + Send>(&mut self, dst: &Addr, data: T) -> (r: RequestId)
        ensures
            r == next_request_id(old(self).counter()),
            final(self).counter() == r,
            final(self).own_id() == old(self).own_id(),
            final(self).time_source() == old(self).time_source(),
            final(self).scheduler() == old(self).scheduler(),
            final(self).queued() == old(self).queued(),
            hands_request(old(self).requests(), final(self).requests(), *dst, old(self).own_id(), r),
    {
        self.request_id_counter = self.request_id_counter.wrapping_add(1);
        let own = self.own_addr();
        let delivery = dst.receive_request(&own, self.request_id_counter, data);
        proof {
            self.requests@ = self.requests@.push(
                RequestSent { dst: dst.id(), src: self.own_actor_id, id: self.request_id_counter, delivery },
            );
            assert(self.requests@.drop_last() =~= old(self).requests@);
        }
        self.request_id_counter
    }

    /// Send the response to a request.
    pub fn send_response<T: 'static + Send>(&mut self, request: &Request, data: T)
        ensures
            *final(self) == *old(self),
    {
        self.send_addr_id_response(&request.src, request.id, data);
    }

    /// Send the response to a request using destination and request id.
    pub fn send_addr_id_response<T: 'static + Send>(
        &mut self,
        dst: &Addr,
        request_id: RequestId,
        data: T,
    )
        ensures
            *final(self) == *old(self),
    {
        let _result = dst.receive_ok_response(request_id, data);
    }

    /// Send a notification to the reactive being processed.
    pub fn send_self_notification<T: 'static + Send>(&mut self, data: T) -> (r: Result<(), Error>)
        ensures
            r matches Err(e) ==> is_send_error(e),
            *final(self) == *old(self),
    {
        self.own_addr().receive_notification(data)
    }

    /// Send notification.
    ///
    /// This method is equivalent to the function rtactor::send_notification()
    /// but is preferred because it allows possible future thread local memory allocation.
    pub fn send_notification<T: 'static + Send>(&mut self, dst: &Addr, data: T) -> (r: Result<
        (),
        Error,
    >)
        ensures
            dst is Invalid ==> r matches Err(Error::AddrUnreachable),
            r matches Err(e) ==> is_send_error(e),
            *final(self) == *old(self),
    {
        dst.receive_notification(data)
    }

    /// Schedule a timer at a given instant; its timeout is sent to the reactive being processed.
    ///
    /// The timer is first unscheduled; it then gets a new identifier and the deadline
    /// `instant`.
    pub fn schedule_until(&mut self, timer: &mut Timer, instant: Instant)
        ensures
            *final(timer) == (Timer { id: old(self).scheduler().next_id(), deadline: instant }),
            final(self).scheduler().next_id() == next_timeout_id(old(self).scheduler().next_id()),
            final(self).scheduler().entries() == unscheduled_entries(
                old(self).scheduler().entries(),
                *old(timer),
                old(self).own_id(),
            ).insert(*final(timer), old(self).own_id()),
            final(self).own_id() == old(self).own_id(),
            final(self).counter() == old(self).counter(),
            final(self).time_source() == old(self).time_source(),
            final(self).same_records(*old(self)),
    {
        let own = self.own_actor_id;
        self.timeout_scheduler.schedule_until(timer, instant, own);
    }

    /// Schedule a timer for a given duration.
    ///
    /// The deadline is `now() + duration`; a sum that a `std::time::Instant` cannot
    /// represent gives infinity.
    pub fn schedule_for(&mut self, timer: &mut Timer, duration: Duration)
        ensures
            final(timer).id == old(self).scheduler().next_id(),
            old(self).time_source() matches Clock::Simulated(t) ==> final(timer).deadline == (
            if Instant::Finite(t).can_add(duration) {
                Instant::Finite(t).plus(duration)
            } else {
                Instant::Infinity
            }),
            final(self).own_id() == old(self).own_id(),
            final(self).counter() == old(self).counter(),
            final(self).time_source() == old(self).time_source(),
            final(self).same_records(*old(self)),
    {
        let now = self.now();
        let deadline = now.saturating_add(duration);
        self.schedule_until(timer, deadline);
    }

    /// Unschedule a timer.
    ///
    /// A finite timer loses its entry when the entry notifies the reactive being processed;
    /// then its deadline becomes infinity. An infinite timer is left as it is.
    pub fn unschedule(&mut self, timer: &mut Timer)
        ensures
            old(timer).deadline.is_inf() ==> *final(self) == *old(self),
            final(self).scheduler().entries() == unscheduled_entries(
                old(self).scheduler().entries(),
                *old(timer),
                old(self).own_id(),
            ),
            *final(timer) == unscheduled_timer(*old(timer)),
            final(self).scheduler().next_id() == old(self).scheduler().next_id(),
            final(self).own_id() == old(self).own_id(),
            final(self).counter() == old(self).counter(),
            final(self).time_source() == old(self).time_source(),
            final(self).same_records(*old(self)),
    {
        let own = self.own_actor_id;
        self.timeout_scheduler.unschedule(timer, own);
    }

    /// Return the current time: the simulated one, or the time of the machine.
    pub fn now(&self) -> (r: Instant)
        ensures
            !r.is_inf(),
            self.time_source() matches Clock::Simulated(t) ==> r == Instant::Finite(t),
    {
        match self.clock {
            Clock::Simulated(t) => Instant::Finite(t),
            Clock::Real => Instant::Finite(std_instant_now()),
        }
    }

    /// The identifier of the last request sent.
    pub(crate) fn request_id_counter(&self) -> (r: RequestId)
        ensures
            r == self.counter(),
    {
        self.request_id_counter
    }

    /// If one timer is mature send a notification for it.
    ///
    /// Return ControlFlow::Continue(()) if a timeout was sent. If not,
    /// return ControlFlow::Break(duration) with the waiting time to the next
    /// timeout or Duration::MAX if there is no timeout.
    ///
    /// The timer that matures first leaves the scheduler when its deadline is reached and
    /// its notification is queued (and recorded in `queued`). When the queue refuses the notification, the timer stays
    /// for a later attempt and the result is `Break` with a zero wait.
    pub(crate) fn try_send_next_pending_timeout(&mut self) -> (r: ControlFlow<Duration, ()>)
        ensures
            final(self).own_id() == old(self).own_id(),
            final(self).counter() == old(self).counter(),
            final(self).time_source() == old(self).time_source(),
            final(self).scheduler().next_id() == old(self).scheduler().next_id(),
            final(self).requests() == old(self).requests(),
            r is Break ==> final(self).queued() == old(self).queued(),
            r matches ControlFlow::Break(d) ==> next_wait(final(self).scheduler().entries(), duration_nanos(d)),
            old(self).scheduler().entries() == Map::<Timer, crate::actor::ActorId>::empty() ==> (r
                matches ControlFlow::Break(d) && duration_nanos(d) == MAX_DURATION_NANOS
                && final(self).scheduler().entries() == old(self).scheduler().entries()),
            old(self).scheduler().entries() != Map::<Timer, crate::actor::ActorId>::empty() ==> exists|
                t: Timer,
                now: std::time::Instant,
            |
                {
                    &&& (old(self).time_source() matches Clock::Simulated(n) ==> now == n)
                    &&& #[trigger] is_earliest(old(self).scheduler().entries(), t, now)
                    &&& if t.deadline.sub_nanos(Instant::Finite(now)) == 0 {
                        ||| (r is Continue && final(self).scheduler().entries() == old(
                            self,
                        ).scheduler().entries().remove(t) && final(self).queued().len() == old(
                            self,
                        ).queued().len() + 1 && final(self).queued().drop_last() == old(
                            self,
                        ).queued() && is_timeout_for(
                            final(self).queued().last(),
                            t,
                            old(self).scheduler().entries()[t],
                        ))
                        ||| (r matches ControlFlow::Break(d) && duration_nanos(d) == 0
                            && final(self).scheduler().entries() == old(self).scheduler().entries())
                    } else {
                        &&& r matches ControlFlow::Break(d)
                        &&& duration_nanos(d) == t.deadline.sub_nanos(Instant::Finite(now))
                        &&& final(self).scheduler().entries() == old(self).scheduler().entries()
                    }
                },
    {
        let now = self.now();
        let now_internal = match now {
            Instant::Finite(t) => t,
            Instant::Infinity => {
                assert(false);
                return ControlFlow::Break(duration_max());
            },
        };
        match self.timeout_scheduler.next_timeout(&now_internal) {
            None => ControlFlow::Break(duration_max()),
            Some((timer, reactive_id)) => {
                let duration_to_next = timer.deadline.saturating_sub(&now);
                if duration_as_nanos(&duration_to_next) == 0 {
                    self.timeout_scheduler.remove(&timer);
                    let timeout = MessageAndDstId {
                        message: Message::Notification(
                            Notification { data: Payload::from_timeout(Timeout(timer.id)) },
                        ),
                        dst_id: reactive_id,
                    };
                    let ghost queued_timeout = timeout;
                    let sent = self.tx.try_send(timeout);
                    match sent {
                        Ok(()) => {
                            proof {
                                self.queued@ = self.queued@.push(queued_timeout);
                                assert(self.queued@.drop_last() =~= old(self).queued@);
                            }
                            assert(is_earliest(old(self).scheduler().entries(), timer, now_internal));
                            ControlFlow::Continue(())
                        },
                        Err(_) => {
                            self.timeout_scheduler.put(timer, reactive_id);
                            proof {
                                assert(old(self).scheduler().entries().remove(timer).insert(
                                    timer,
                                    reactive_id,
                                ) =~= old(self).scheduler().entries());
                                assert(is_earliest(old(self).scheduler().entries(), timer, now_internal));
                            }
                            ControlFlow::Break(duration_zero())
                        },
                    }
                } else {
                    assert(is_earliest(old(self).scheduler().entries(), timer, now_internal));
                    ControlFlow::Break(duration_to_next)
                }
            },
        }
    }
}

} // verus!
