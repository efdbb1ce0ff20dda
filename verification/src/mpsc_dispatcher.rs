//! The dispatcher that holds reactive actors and calls them with the messages of its queue.

use crate::active::MAX_RECEIVE_ROUNDS;
use crate::actor::{
    generate_actor_id, ActorId, Addr, Error, ErrorStatus, Message, INVALID_ACTOR_ID,
};
use crate::channel::{dispatcher_channel, DispatcherQueue, RoutedSender};
use crate::context::{law_wait_never_passes_a_deadline, next_wait, wait_within, Clock, ProcessContext};
use crate::dispatcher::{Dispatcher, Request, Response, SyncAccessor};
use crate::payload::Payload;
use crate::reactive::{Behavior, MessageAndDstId, ReactiveAddr};
use crate::std_time::{duration_nanos, MAX_DURATION_NANOS};
use crate::timer::{TimeoutScheduler, Timer};
use std::ops::ControlFlow;
use vstd::prelude::*;
use vstd::set_lib::{lemma_int_range, lemma_len_subset, set_int_range};

verus! {

/// A reactive held by a dispatcher, with its identifier.
pub struct ReactiveEntry {
    pub id: ActorId,
    pub behavior: Box<dyn Behavior>,
    /// The placement, counted from zero, that put the behavior in the dispatcher.
    pub placed: Ghost<nat>,
}

/// The identifiers of a list of reactives, in order.
pub open spec fn entry_ids(s: Seq<ReactiveEntry>) -> Seq<ActorId> {
    s.map_values(|e: ReactiveEntry| e.id)
}

/// A push keeps the entries and puts the new one last.
proof fn lemma_entries_push(s: Seq<ReactiveEntry>, e: ReactiveEntry)
    ensures
        s.push(e).len() == s.len() + 1,
        s.push(e)[s.len() as int] == e,
        forall|k: int| 0 <= k < s.len() ==> #[trigger] s.push(e)[k] == s[k],
{
}

/// The identifiers after a push are the former ones and the new one.
proof fn lemma_entry_ids_push(s: Seq<ReactiveEntry>, e: ReactiveEntry)
    ensures
        entry_ids(s.push(e)) == entry_ids(s).push(e.id),
{
    assert forall|j: int| 0 <= j < s.len() + 1 implies #[trigger] entry_ids(s.push(e))[j]
        == entry_ids(s).push(e.id)[j] by {
        if j < s.len() {
            assert(s.push(e)[j] == s[j]);
        }
    }
    assert(entry_ids(s.push(e)) =~= entry_ids(s).push(e.id));
}

/// Every identifier of `ids` is valid, differs from `own` and occurs once.
pub open spec fn distinct_ids(ids: Seq<ActorId>, own: ActorId) -> bool {
    &&& forall|i: int| 0 <= i < ids.len() ==> #[trigger] ids[i] != own && ids[i] != INVALID_ACTOR_ID
    &&& forall|i: int, j: int| 0 <= i < j < ids.len() ==> #[trigger] ids[i] != #[trigger] ids[j]
}

/// The behavior at position `k` was replaced by a new one, placed after every behavior
/// held before, and the other behaviors are kept.
pub open spec fn replaced_at(before: MpscDispatcher, after: MpscDispatcher, k: int) -> bool {
    &&& after.placement_at(k) == before.placed_count()
    &&& forall|j: int| 0 <= j < before.ids().len() ==> #[trigger] before.placement_at(j) < before.placed_count()
    &&& forall|j: int|
        0 <= j < before.ids().len() && j != k ==> #[trigger] after.placement_at(j) == before.placement_at(j)
}

/// `after` is `before` with one more reactive, whose behavior is the newest placed, the
/// others keeping theirs.
pub open spec fn registered(before: MpscDispatcher, after: MpscDispatcher) -> bool {
    &&& after.ids().len() == before.ids().len() + 1
    &&& after.placed_count() == before.placed_count() + 1
    &&& after.placement_at(before.ids().len() as int) == before.placed_count()
    &&& forall|j: int| 0 <= j < before.ids().len() ==> #[trigger] after.placement_at(j)
        == before.placement_at(j)
}

/// The behavior put under an address by a replacement is none of the behaviors the
/// dispatcher held before.
pub proof fn law_replacement_holds_a_new_behavior(before: MpscDispatcher, after: MpscDispatcher, k: int)
    requires
        replaced_at(before, after, k),
    ensures
        forall|j: int| 0 <= j < before.ids().len() ==> #[trigger] before.placement_at(j) != after.placement_at(k),
{
}

/// A replacement of a reactive just registered changes the behavior held under its
/// address: the one registered is no longer the one called.
pub proof fn law_replace_after_register(a: MpscDispatcher, b: MpscDispatcher, c: MpscDispatcher)
    requires
        registered(a, b),
        replaced_at(b, c, a.ids().len() as int),
    ensures
        c.placement_at(a.ids().len() as int) != b.placement_at(a.ids().len() as int),
        c.placement_at(a.ids().len() as int) > b.placement_at(a.ids().len() as int),
{
}

/// What dispatching the routed message `routed` did, from `before` to `after`: a message
/// for a held reactive is handed to the behavior held under its identifier, any other
/// message to none.
pub open spec fn routed_to(before: MpscDispatcher, after: MpscDispatcher, routed: MessageAndDstId) -> bool {
    &&& routed.dst_id != before.id() && before.ids().contains(routed.dst_id) ==> after.handed()
        == before.handed().push(routed) && after.called() == before.called().push(routed.dst_id)
    &&& routed.dst_id == before.id() || !before.ids().contains(routed.dst_id) ==> after.handed()
        == before.handed() && after.called() == before.called()
}

/// A message sent to a reactive of the dispatcher reaches that reactive and no other:
/// the behavior called is held under the identifier the message is for, which no other
/// reactive of the dispatcher has.
pub proof fn law_message_reaches_its_reactive(
    before: MpscDispatcher,
    after: MpscDispatcher,
    routed: MessageAndDstId,
    k: int,
)
    requires
        routed_to(before, after, routed),
        distinct_ids(before.ids(), before.id()),
        0 <= k < before.ids().len(),
        before.ids()[k] == routed.dst_id,
    ensures
        after.called().len() == before.called().len() + 1,
        after.called().last() == before.ids()[k],
        after.handed().last() == routed,
        forall|j: int| 0 <= j < before.ids().len() && j != k ==> #[trigger] before.ids()[j] != routed.dst_id,
{
    assert forall|j: int| 0 <= j < before.ids().len() && j != k implies #[trigger] before.ids()[j]
        != routed.dst_id by {
        if j < k {
            assert(before.ids()[j] != before.ids()[k]);
        } else {
            assert(before.ids()[k] != before.ids()[j]);
        }
    }
    assert(before.ids().contains(routed.dst_id));
}

/// In every round of the last `process` that found no more timeout to send, the wait on
/// the queue ended no later than the earliest scheduled deadline, seen from the present.
pub proof fn law_process_waits_never_pass_a_deadline(d: MpscDispatcher, i: int)
    requires
        d.waits_follow_deadlines(),
        0 <= i < d.waits().len(),
        d.waits()[i].1 is Some,
    ensures
        (d.waits()[i].1->0).0 == Map::<Timer, ActorId>::empty() ==> d.waits()[i].0 == MAX_DURATION_NANOS,
        (d.waits()[i].1->0).0 != Map::<Timer, ActorId>::empty() ==> exists|now: std::time::Instant|
            #[trigger] wait_within((d.waits()[i].1->0).0, d.waits()[i].0, now),
{
    let n = d.waits()[i].1->0;
    law_wait_never_passes_a_deadline(n.0, n.1);
}

/// `k` is the first position of `id` in `ids`.
pub open spec fn is_first_position(ids: Seq<ActorId>, id: ActorId, k: int) -> bool {
    &&& 0 <= k < ids.len()
    &&& ids[k] == id
    &&& forall|j: int| 0 <= j < k ==> ids[j] != id
}

/// When every identifier from 1 below `k` is in `taken`, there are at least `k - 1` of
/// them.
proof fn lemma_all_taken_bound(taken: Seq<ActorId>, k: int)
    requires
        1 <= k <= u64::MAX,
        forall|c: int| 1 <= c < k ==> #[trigger] taken.contains(c as ActorId),
    ensures
        k - 1 <= taken.len(),
{
    let ints = taken.map_values(|x: ActorId| x as int);
    assert forall|c: int| #[trigger] set_int_range(1, k).contains(c) implies ints.to_set().contains(
        c,
    ) by {
        assert(taken.contains(c as ActorId));
        let j = choose|j: int| 0 <= j < taken.len() && taken[j] == c as ActorId;
        assert(ints[j] == c);
    }
    lemma_int_range(1, k);
    ints.lemma_cardinality_of_set();
    vstd::seq_lib::seq_to_set_is_finite(ints);
    lemma_len_subset(set_int_range(1, k), ints.to_set());
}

/// A dispatcher that calls its reactives with the messages of its queue, in the thread
/// that runs it.
pub struct MpscDispatcher {
    queue: DispatcherQueue,
    own_id: ActorId,
    reactives: Vec<ReactiveEntry>,
    /// The rounds that the last `process` went through.
    rounds_run: Ghost<nat>,
    /// Every message handed to a reactive, in order, with the identifier it was sent to.
    handed: Ghost<Seq<MessageAndDstId>>,
    /// The identifier held with each behavior called, in order.
    called: Ghost<Seq<ActorId>>,
    /// Each round of the last `process`: the nanoseconds waited on the queue, and, when
    /// the round found no more timeout to send, the timers then scheduled and the time to
    /// the next deadline.
    waits: Ghost<Seq<(u128, Option<(Map<Timer, ActorId>, u128)>)>>,
    /// How many behaviors were placed in the dispatcher, by registrations and replacements.
    placements: Ghost<nat>,
}

/// What is needed to create a dispatcher, whose address is known before it runs.
pub struct Builder {
    queue: DispatcherQueue,
    own_id: ActorId,
}

impl Builder {
    /// The identifier of the dispatcher to build.
    pub closed spec fn id(self) -> ActorId {
        self.own_id
    }

    /// A builder of a dispatcher whose queue holds at most `queue_size` messages.
    pub fn new(queue_size: usize) -> (r: Builder)
        ensures
            r.id() != INVALID_ACTOR_ID,
    {
        Builder { queue: dispatcher_channel(queue_size), own_id: generate_actor_id() }
    }

    /// The address of the dispatcher to build.
    pub fn addr(&self) -> (r: Addr)
        ensures
            r.id() == self.id(),
            r is Reactive,
    {
        ReactiveAddr::new(self.queue.sender(), self.own_id).into_addr()
    }

    /// An accessor to the dispatcher to build.
    pub fn to_accessor(&self) -> (r: SyncAccessor)
        ensures
            r.target().id() == self.id(),
    {
        SyncAccessor::new(&self.addr())
    }

    /// The dispatcher, without any reactive.
    pub fn build(self) -> (r: MpscDispatcher)
        ensures
            r.id() == self.id(),
            r.ids().len() == 0,
    {
        MpscDispatcher {
            queue: self.queue,
            own_id: self.own_id,
            reactives: Vec::new(),
            rounds_run: Ghost(0),
            handed: Ghost(Seq::empty()),
            called: Ghost(Seq::empty()),
            waits: Ghost(Seq::empty()),
            placements: Ghost(0),
        }
    }
}

impl MpscDispatcher {
    /// The identifier of the dispatcher.
    pub closed spec fn id(self) -> ActorId {
        self.own_id
    }

    /// The identifiers of the reactives held, in order of registration.
    pub closed spec fn ids(self) -> Seq<ActorId> {
        entry_ids(self.reactives@)
    }

    /// Every behavior held was placed before the count of placements.
    #[verifier::type_invariant]
    closed spec fn placements_counted(self) -> bool {
        forall|k: int| 0 <= k < self.reactives@.len() ==> (#[trigger] self.reactives@[k]).placed@
            < self.placements@
    }

    /// How many behaviors were placed in the dispatcher, by registrations and replacements.
    pub closed spec fn placed_count(self) -> nat {
        self.placements@
    }

    /// The placement, counted from zero, that put the behavior at position `k` of `ids`
    /// in the dispatcher: a behavior placed later has a greater one.
    pub closed spec fn placement_at(self, k: int) -> nat {
        self.reactives@[k].placed@
    }


    /// Both dispatchers tell the same of their last `process`.
    pub open spec fn same_process_record(self, other: Self) -> bool {
        self.rounds_run() == other.rounds_run() && self.handed() == other.handed() && self.called()
            == other.called() && self.waits() == other.waits()
    }

    /// Take the list of reactives out of the dispatcher, leaving it empty.
    fn take_reactives(&mut self) -> (r: Vec<ReactiveEntry>)
        ensures
            r@ == old(self).reactives@,
            final(self).reactives@.len() == 0,
            final(self).own_id == old(self).own_id,
            final(self).queue == old(self).queue,
            final(self).rounds_run == old(self).rounds_run,
            final(self).handed == old(self).handed,
            final(self).called == old(self).called,
            final(self).waits == old(self).waits,
            final(self).placements == old(self).placements,
    {
        let mut list: Vec<ReactiveEntry> = Vec::new();
        std::mem::swap(&mut list, &mut self.reactives);
        list
    }

    /// Every message handed to a reactive, in order, with the identifier it was sent to.
    pub closed spec fn handed(self) -> Seq<MessageAndDstId> {
        self.handed@
    }

    /// The identifier held with each behavior called, in order: a message is processed by
    /// the behavior registered under the identifier it is sent to.
    pub closed spec fn called(self) -> Seq<ActorId> {
        self.called@
    }

    /// Each round of the last `process`: the nanoseconds waited on the queue, and, when
    /// the round found no more timeout to send, the timers then scheduled and the time to
    /// the next deadline.
    pub closed spec fn waits(self) -> Seq<(u128, Option<(Map<Timer, ActorId>, u128)>)> {
        self.waits@
    }

    /// In each round of the last `process` that found no more timeout to send, the wait on
    /// the queue was the time to the next deadline, as `next_wait` gives it.
    pub open spec fn waits_follow_deadlines(self) -> bool {
        forall|i: int| 0 <= i < self.waits().len() ==> ((#[trigger] self.waits()[i]).1 matches Some(n)
            ==> self.waits()[i].0 == n.1 && next_wait(n.0, n.1))
    }

    /// The rounds of waiting that the last `process` went through.
    pub closed spec fn rounds_run(self) -> nat {
        self.rounds_run@
    }

    /// A dispatcher whose queue holds at most `queue_size` messages.
    pub fn new(queue_size: usize) -> (r: MpscDispatcher)
        ensures
            r.id() != INVALID_ACTOR_ID,
            r.ids().len() == 0,
    {
        Builder::new(queue_size).build()
    }

    /// An other sender to the queue of the dispatcher.
    pub(crate) fn sender(&self) -> (r: RoutedSender) {
        self.queue.sender()
    }

    /// The first position of a reactive.
    fn position(&self, id: ActorId) -> (r: Option<usize>)
        ensures
            r matches Some(k) ==> is_first_position(self.ids(), id, k as int),
            r is None ==> !self.ids().contains(id),
    {
        let mut i: usize = 0;
        while i < self.reactives.len()
            invariant
                i <= self.reactives@.len(),
                forall|j: int| 0 <= j < i ==> self.reactives@[j].id != id,
            decreases self.reactives@.len() - i,
        {
            if self.reactives[i].id == id {
                return Some(i);
            }
            i += 1;
        }
        proof {
            if self.ids().contains(id) {
                let j = choose|j: int| 0 <= j < self.ids().len() && self.ids()[j] == id;
                assert(self.reactives@[j].id == id);
            }
        }
        None
    }

    /// Whether `id` is the one of the dispatcher or of one of its reactives.
    fn is_taken(&self, id: ActorId) -> (r: bool)
        ensures
            r == (id == self.id() || self.ids().contains(id)),
    {
        id == self.own_id || self.position(id).is_some()
    }

    /// An identifier for a new reactive: `drawn` when it is valid and free, else the
    /// smallest free one. It is free when there are fewer reactives than identifiers.
    fn fresh_id(&self, drawn: ActorId) -> (r: ActorId)
        ensures
            r != INVALID_ACTOR_ID,
            self.ids().len() + 2 < u64::MAX ==> r != self.id() && !self.ids().contains(r),
    {
        if drawn != INVALID_ACTOR_ID && !self.is_taken(drawn) {
            return drawn;
        }
        let mut candidate: ActorId = 1;
        while candidate < u64::MAX && self.is_taken(candidate)
            invariant
                1 <= candidate,
                forall|c: int| 1 <= c < candidate ==> #[trigger] self.ids().push(self.id()).contains(
                    c as ActorId,
                ),
            decreases u64::MAX - candidate,
        {
            proof {
                assert(self.ids().push(self.id()).contains(candidate)) by {
                    if candidate == self.id() {
                        assert(self.ids().push(self.id())[self.ids().len() as int] == candidate);
                    } else {
                        let j = choose|j: int| 0 <= j < self.ids().len() && self.ids()[j] == candidate;
                        assert(self.ids().push(self.id())[j] == candidate);
                    }
                }
            }
            candidate = candidate + 1;
        }
        proof {
            if self.ids().len() + 2 < u64::MAX && (candidate == self.id() || self.ids().contains(
                candidate,
            )) {
                lemma_all_taken_bound(self.ids().push(self.id()), candidate as int);
            }
        }
        candidate
    }

    /// Answer a request that will not be processed with `ActorDisappeared`.
    fn reject(message: Message) {
        match message {
            Message::Request(request) => {
                let _ = request.src.receive_err_response(
                    request.id,
                    ErrorStatus { error: Error::ActorDisappeared, request_data: request.data },
                );
            },
            _ => {},
        }
    }

    /// Stop: answer the requests still queued with `ActorDisappeared`, then drop every reactive.
    fn stop(&mut self)
        ensures
            final(self).id() == old(self).id(),
            final(self).ids().len() == 0,
            final(self).same_process_record(*old(self)),
    {
        let mut rounds: u64 = MAX_RECEIVE_ROUNDS;
        while rounds > 0
            invariant
                self.id() == old(self).id(),
            decreases rounds,
        {
            rounds = rounds - 1;
            match self.queue.try_recv() {
                Ok(routed) => Self::reject(routed.message),
                Err(_) => {
                    rounds = 0;
                },
            }
        }
        self.reactives = Vec::new();
        assert(self.ids() =~= Seq::<ActorId>::empty());
    }

    /// Process a message sent to the dispatcher itself; true when the dispatcher stops.
    fn process_own_message(&mut self, message: Message) -> (r: bool)
        ensures
            final(self).id() == old(self).id(),
            r ==> final(self).ids().len() == 0,
            !(message is Request) ==> !r && final(self).ids() == old(self).ids(),
            final(self).same_process_record(*old(self)),
    {
        match message {
            Message::Request(request) => {
                match request.data.downcast_ref::<Request>() {
                    Some(Request::StopDispatcher {}) => {
                        self.stop();
                        let _ = request.src.receive_ok_response(
                            request.id,
                            Response::StopDispatcher(),
                        );
                        true
                    },
                    Some(Request::RegisterReactive { behavior }) => {
                        match behavior.take() {
                            Some(b) => {
                                let addr = self.register_reactive(b);
                                let _ = request.src.receive_ok_response(
                                    request.id,
                                    Response::RegisterReactive(addr),
                                );
                            },
                            None => {},
                        }
                        false
                    },
                    Some(Request::StopReactive { addr }) => {
                        let _ = self.unregister_reactive(addr);
                        let _ = request.src.receive_ok_response(request.id, Response::StopReactive());
                        false
                    },
                    Some(Request::ExecuteFn { executable_fn }) => {
                        let result = executable_fn.call(self);
                        match result {
                            Some(data) => {
                                let _ = request.src.receive_ok_payload(request.id, data);
                            },
                            None => {},
                        }
                        false
                    },
                    None => false,
                }
            },
            _ => false,
        }
    }

    /// Process one routed message: to the dispatcher itself, to one of its reactives, or
    /// to an unknown one (a request is then answered with `ActorDisappeared`).
    /// True when the dispatcher stops.
    pub(crate) fn dispatch(&mut self, context: &mut ProcessContext, routed: MessageAndDstId) -> (r:
        bool)
        ensures
            final(self).id() == old(self).id(),
            r ==> final(self).ids().len() == 0,
            routed.dst_id != old(self).id() ==> !r && final(self).ids() == old(self).ids(),
            final(self).rounds_run() == old(self).rounds_run(),
            final(self).waits() == old(self).waits(),
            routed_to(*old(self), *final(self), routed),
            routed.dst_id != old(self).id() && old(self).ids().contains(routed.dst_id) ==> final(self).handed() == old(self).handed().push(routed)
                && final(self).called() == old(self).called().push(routed.dst_id),
            routed.dst_id == old(self).id() || !old(self).ids().contains(routed.dst_id) ==> final(self).handed() == old(self).handed()
                && final(self).called() == old(self).called(),
    {
        proof {
            use_type_invariant(&*self);
        }
        if routed.dst_id == self.own_id {
            self.process_own_message(routed.message)
        } else {
            match self.position(routed.dst_id) {
                Some(i) => {
                    proof {
                        self.handed@ = self.handed@.push(routed);
                        assert(old(self).ids()[i as int] == routed.dst_id);
                    }
                    context.set_own_actor_id(routed.dst_id);
                    proof {
                        use_type_invariant(&*self);
                    }
                    let mut list = self.take_reactives();
                    let reactive = &mut list[i];
                    let called_id = reactive.id;
                    reactive.behavior.process_message(context, &routed.message);
                    self.reactives = list;
                    proof {
                        self.called@ = self.called@.push(called_id);
                    }
                    assert(self.ids() =~= old(self).ids());
                    false
                },
                None => {
                    Self::reject(routed.message);
                    false
                },
            }
        }
    }

    /// Process the oldest queued message, if any.
    ///
    /// Return (message_processed, stop): whether a message was taken, and whether the
    /// dispatcher stops on its `StopDispatcher` request.
    pub(crate) fn try_process_message(&mut self, context: &mut ProcessContext) -> (r: (bool, bool))
        ensures
            final(self).id() == old(self).id(),
            r.1 ==> r.0 && final(self).ids().len() == 0,
            !r.0 ==> final(self).ids() == old(self).ids() && final(self).handed() == old(self).handed()
                && final(self).called() == old(self).called(),
            final(self).rounds_run() == old(self).rounds_run(),
            final(self).waits() == old(self).waits(),
            (final(self).handed() == old(self).handed() && final(self).called() == old(self).called())
                || (final(self).handed().len() > 0 && final(self).handed().drop_last() == old(self).handed()
                && final(self).handed().last().dst_id != old(self).id()
                && old(self).ids().contains(final(self).handed().last().dst_id)
                && final(self).called() == old(self).called().push(final(self).handed().last().dst_id)),
    {
        match self.queue.try_recv() {
            Ok(routed) => {
                let stop = self.dispatch(context, routed);
                (true, stop)
            },
            Err(_) => (false, false),
        }
    }

    /// Process messages and timeouts with the time of the machine until the dispatcher
    /// is stopped by a `StopDispatcher` request.
    ///
    /// It returns with no reactive left, unless it went through its most rounds.
    pub fn process(&mut self)
        ensures
            final(self).id() == old(self).id(),
            final(self).ids().len() == 0 || final(self).rounds_run() >= MAX_RECEIVE_ROUNDS,
            final(self).waits().len() == final(self).rounds_run(),
            final(self).waits_follow_deadlines(),
    {
        proof {
            use_type_invariant(&*self);
        }
        self.rounds_run = Ghost(0);
        self.waits = Ghost(Seq::empty());
        let mut scheduler = TimeoutScheduler::new();
        let mut counter: crate::actor::RequestId = 0;
        let mut rounds: u64 = MAX_RECEIVE_ROUNDS;
        while rounds > 0
            invariant
                self.id() == old(self).id(),
                self.rounds_run() + rounds == MAX_RECEIVE_ROUNDS,
                self.waits().len() == self.rounds_run(),
                self.waits_follow_deadlines(),
            decreases rounds,
        {
            rounds = rounds - 1;
            proof {
                use_type_invariant(&*self);
            }
            self.rounds_run = Ghost(self.rounds_run@ + 1);
            let mut context = ProcessContext::new(self.queue.sender(), counter, Clock::Real, scheduler);
            // Send the mature timeouts and find the time to the next one.
            let mut wait = crate::std_time::duration_max();
            let mut pending: u64 = MAX_RECEIVE_ROUNDS;
            let ghost mut next: Option<(Map<Timer, ActorId>, u128)> = None;
            while pending > 0
                invariant
                    next matches Some(n) ==> duration_nanos(wait) == n.1 && next_wait(n.0, n.1),
                decreases pending,
            {
                pending = pending - 1;
                match context.try_send_next_pending_timeout() {
                    ControlFlow::Continue(()) => {},
                    ControlFlow::Break(duration) => {
                        proof {
                            next = Some((context.scheduler().entries(), duration_nanos(duration)));
                        }
                        wait = duration;
                        pending = 0;
                    },
                }
            }
            proof {
                self.waits@ = self.waits@.push((duration_nanos(wait), next));
            }
            let stop = match self.queue.recv_timeout(wait) {
                Ok(routed) => self.dispatch(&mut context, routed),
                Err(_) => false,
            };
            let (s, c) = context.into_parts();
            scheduler = s;
            counter = c;
            if stop {
                return;
            }
        }
    }
}

impl Dispatcher for MpscDispatcher {
    open spec fn dispatcher_id(&self) -> ActorId {
        self.id()
    }

    fn addr(&self) -> (r: Addr)
        ensures
            r.id() == self.id(),
            r is Reactive,
    {
        ReactiveAddr::new(self.queue.sender(), self.own_id).into_addr()
    }

    fn register_reactive(&mut self, behavior: Box<dyn Behavior>) -> (r: Addr)
        ensures
            r.id() != INVALID_ACTOR_ID,
            r is Reactive,
            old(self).ids().len() + 2 < u64::MAX ==> r.id() != old(self).id() && !old(self).ids().contains(r.id()),
            final(self).ids() == old(self).ids().push(r.id()),
            distinct_ids(old(self).ids(), old(self).id()) && old(self).ids().len() + 2 < u64::MAX
                ==> distinct_ids(final(self).ids(), final(self).id()),
            final(self).id() == old(self).id(),
            final(self).same_process_record(*old(self)),
            final(self).placed_count() == old(self).placed_count() + 1,
            final(self).placement_at(old(self).ids().len() as int) == old(self).placed_count(),
            forall|j: int| 0 <= j < old(self).ids().len() ==> #[trigger] final(self).placement_at(j)
                == old(self).placement_at(j),
            registered(*old(self), *final(self)),
    {
        proof {
            use_type_invariant(&*self);
        }
        let id = self.fresh_id(generate_actor_id());
        let ghost placed = self.placements@;
        self.placements = Ghost(placed + 1);
        let entry = ReactiveEntry { id, behavior, placed: Ghost(placed) };
        proof {
            lemma_entry_ids_push(self.reactives@, entry);
            lemma_entries_push(self.reactives@, entry);
            use_type_invariant(&*self);
        }
        let mut list = self.take_reactives();
        list.push(entry);
        self.reactives = list;
        proof {
            if distinct_ids(old(self).ids(), old(self).id()) && old(self).ids().len() + 2 < u64::MAX {
                assert forall|i: int, j: int| 0 <= i < j < self.ids().len() implies #[trigger] self.ids()[i]
                    != #[trigger] self.ids()[j] by {
                    if j == old(self).ids().len() {
                        assert(old(self).ids().contains(self.ids()[i]));
                    }
                }
            }
        }
        ReactiveAddr::new(self.queue.sender(), id).into_addr()
    }

    fn replace_reactive(&mut self, addr: &Addr, behavior: Box<dyn Behavior>) -> (r: Result<
        Box<dyn Behavior>,
        Box<dyn Behavior>,
    >)
        ensures
            r is Ok <==> old(self).ids().contains(addr.id()),
            r is Ok ==> final(self).placed_count() == old(self).placed_count() + 1 && exists|k: int|
                #[trigger] is_first_position(old(self).ids(), addr.id(), k) && replaced_at(
                    *old(self),
                    *final(self),
                    k,
                ),
            r is Err ==> final(self).placed_count() == old(self).placed_count() && forall|j: int|
                0 <= j < old(self).ids().len() ==> #[trigger] final(self).placement_at(j)
                    == old(self).placement_at(j),
            final(self).ids() == old(self).ids(),
            final(self).id() == old(self).id(),
            final(self).same_process_record(*old(self)),
    {
        proof {
            use_type_invariant(&*self);
        }
        match self.position(addr.actor_id()) {
            Some(i) => {
                let ghost placed = self.placements@;
                self.placements = Ghost(placed + 1);
                let mut entry = ReactiveEntry { id: addr.actor_id(), behavior, placed: Ghost(placed) };
                let mut list = self.take_reactives();
                std::mem::swap(&mut entry, &mut list[i]);
                self.reactives = list;
                assert(self.ids() =~= old(self).ids());
                assert(old(self).ids()[i as int] == addr.id());
                assert(replaced_at(*old(self), *self, i as int));
                Ok(entry.behavior)
            },
            None => Err(behavior),
        }
    }

    fn unregister_reactive(&mut self, addr: &Addr) -> (r: Option<Box<dyn Behavior>>)
        ensures
            r is Some <==> old(self).ids().contains(addr.id()),
            r is None ==> final(self).ids() == old(self).ids(),
            r is Some ==> exists|k: int|
                is_first_position(old(self).ids(), addr.id(), k) && final(self).ids() == old(self).ids().remove(k),
            distinct_ids(old(self).ids(), old(self).id()) ==> distinct_ids(
                final(self).ids(),
                final(self).id(),
            ),
            final(self).id() == old(self).id(),
            final(self).same_process_record(*old(self)),
    {
        match self.position(addr.actor_id()) {
            Some(i) => {
                proof {
                    use_type_invariant(&*self);
                }
                let mut list = self.take_reactives();
                let entry = list.remove(i);
                self.reactives = list;
                assert(self.ids() =~= old(self).ids().remove(i as int));
                proof {
                    let before = old(self).ids();
                    if distinct_ids(before, old(self).id()) {
                        assert forall|a: int, b: int| 0 <= a < b < self.ids().len() implies #[trigger] self.ids()[a]
                            != #[trigger] self.ids()[b] by {
                            let a2 = if a < i { a } else { a + 1 };
                            let b2 = if b < i { b } else { b + 1 };
                            assert(self.ids()[a] == before[a2]);
                            assert(self.ids()[b] == before[b2]);
                            assert(before[a2] != before[b2]);
                        }
                        assert forall|a: int| 0 <= a < self.ids().len() implies #[trigger] self.ids()[a]
                            != self.id() && self.ids()[a] != INVALID_ACTOR_ID by {
                            let a2 = if a < i { a } else { a + 1 };
                            assert(self.ids()[a] == before[a2]);
                        }
                    }
                }
                assert(old(self).ids()[i as int] == addr.id());
                Some(entry.behavior)
            },
            None => None,
        }
    }
}

} // verus!
