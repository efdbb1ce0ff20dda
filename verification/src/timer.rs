//! Timers of reactive actors and the list of the scheduled ones.

use crate::actor::ActorId;
use crate::actor::Notification;
use crate::instant::Instant;
use crate::payload::{payload_timeout, TimeoutId};
use crate::std_time::{
    duration_as_nanos, std_instant_duration_since, std_instant_lt, std_instant_lt_exec,
    std_instant_since, MAX_DURATION_NANOS,
};
use vstd::prelude::*;

verus! {

/// An handle to a timer that can send a message to a Behavior at a given time.
///
/// Timers can be freely created and destroyed. It is best to call `context.unschedule(timer)`
/// on them before destruction to avoid to retain an entry in the timer scheduling mechanism.
/// If not the timer will be dispatched but never trigger any is_scheduling() == true code.
///
/// Timers are ordered by deadline, then by identifier.
#[derive(Clone, Copy, Eq, Ord)]
pub struct Timer {
    pub deadline: Instant,
    pub id: TimeoutId,
}

/// The identifier of a timer that is not scheduled; no timeout is ever given it.
pub const UNSCHEDULED_TIMEOUT_ID: TimeoutId = 0;

/// The notification carries the timeout of this timer: its identifier, which a scheduled
/// timer never shares with an unscheduled one.
pub open spec fn takes_timeout(timer: Timer, notif: Notification) -> bool {
    timer.id != UNSCHEDULED_TIMEOUT_ID && payload_timeout(notif.data) == Some(timer.id)
}

impl Timer {
    /// The order of timers: by deadline, then by identifier.
    pub open spec fn before(self, other: Timer) -> bool {
        ||| self.deadline.before(other.deadline)
        ||| (self.deadline == other.deadline && self.id < other.id)
    }

    /// Create an unscheduled timer: no notification is taken for its timeout until it is
    /// scheduled.
    pub fn new() -> (r: Timer)
        ensures
            r.id == UNSCHEDULED_TIMEOUT_ID,
            r.deadline == Instant::Infinity,
            forall|n: Notification| !takes_timeout(r, n),
    {
        Timer { id: UNSCHEDULED_TIMEOUT_ID, deadline: Instant::INFINITY }
    }

    /// Check that a notification was created to schedule this timer timeout event.
    ///
    /// The method must always be used to check if the code that the timer should trigger
    /// needs to be executed. It takes care of race conditions like timer unscheduled after
    /// the timeout notification was send to the queue.
    ///
    /// When the notification carries the timeout of this timer, the timer is marked as no
    /// more scheduled (its deadline becomes infinity). A timer that was never scheduled, or
    /// that was unscheduled, takes no notification.
    pub fn is_scheduling(&mut self, notif: &Notification) -> (r: bool)
        ensures
            r == takes_timeout(*old(self), *notif),
            r ==> *final(self) == (Timer { id: old(self).id, deadline: Instant::Infinity }),
            !r ==> *final(self) == *old(self),
    {
        match notif.data.timeout_id() {
            Some(timeout_id) => {
                if self.id != UNSCHEDULED_TIMEOUT_ID && timeout_id == self.id {
                    self.deadline.set_inf();
                    true
                } else {
                    false
                }
            },
            None => false,
        }
    }

    /// Equality of timers: same identifier and same deadline.
    pub fn is_equal(&self, other: &Timer) -> (r: bool)
        ensures
            r == (*self == *other),
    {
        self.id == other.id && self.deadline.is_equal(&other.deadline)
    }
}

impl Default for Timer {
    fn default() -> (r: Self)
        ensures
            r.id == 0,
            r.deadline == Instant::Infinity,
    {
        Timer::new()
    }
}

impl PartialEq for Timer {
    fn eq(&self, other: &Self) -> (r: bool) {
        self.is_equal(other)
    }
}

impl vstd::std_specs::cmp::PartialEqSpecImpl for Timer {
    open spec fn obeys_eq_spec() -> bool {
        true
    }

    open spec fn eq_spec(&self, other: &Timer) -> bool {
        *self == *other
    }
}

impl PartialOrd for Timer {
    fn partial_cmp(&self, other: &Self) -> (r: Option<std::cmp::Ordering>) {
        if self.deadline.is_before(&other.deadline) {
            Some(std::cmp::Ordering::Less)
        } else if other.deadline.is_before(&self.deadline) {
            Some(std::cmp::Ordering::Greater)
        } else if self.id < other.id {
            Some(std::cmp::Ordering::Less)
        } else if self.id == other.id {
            Some(std::cmp::Ordering::Equal)
        } else {
            Some(std::cmp::Ordering::Greater)
        }
    }
}

impl vstd::std_specs::cmp::PartialOrdSpecImpl for Timer {
    open spec fn obeys_partial_cmp_spec() -> bool {
        true
    }

    open spec fn partial_cmp_spec(&self, other: &Timer) -> Option<std::cmp::Ordering> {
        if self.deadline.before(other.deadline) {
            Some(std::cmp::Ordering::Less)
        } else if other.deadline.before(self.deadline) {
            Some(std::cmp::Ordering::Greater)
        } else if self.id < other.id {
            Some(std::cmp::Ordering::Less)
        } else if self.id == other.id {
            Some(std::cmp::Ordering::Equal)
        } else {
            Some(std::cmp::Ordering::Greater)
        }
    }
}


/// Signed nanoseconds from `now` to `deadline`, the order in which timeouts mature;
/// infinity comes after every finite deadline.
pub open spec fn offset_from(deadline: Instant, now: std::time::Instant) -> int {
    match deadline {
        Instant::Finite(d) => if std_instant_lt(d, now) {
            -(std_instant_since(now, d) as int)
        } else {
            std_instant_since(d, now) as int
        },
        Instant::Infinity => MAX_DURATION_NANOS + 1,
    }
}

/// `a` matures before `b` seen from `now`: earlier deadline, or same one and smaller identifier.
pub open spec fn matures_before(a: Timer, b: Timer, now: std::time::Instant) -> bool {
    ||| offset_from(a.deadline, now) < offset_from(b.deadline, now)
    ||| (offset_from(a.deadline, now) == offset_from(b.deadline, now) && a.id < b.id)
}

/// `t` is a scheduled timer that no other scheduled timer matures before.
pub open spec fn is_earliest(entries: Map<Timer, ActorId>, t: Timer, now: std::time::Instant) -> bool {
    &&& entries.contains_key(t)
    &&& forall|k: Timer| #[trigger] entries.contains_key(k) ==> !matures_before(k, t, now)
}

/// Signed nanoseconds from `now` to `deadline`.
fn offset_from_exec(deadline: &Instant, now: &std::time::Instant) -> (r: i128)
    ensures
        r == offset_from(*deadline, *now),
{
    match deadline {
        Instant::Finite(d) => {
            if std_instant_lt_exec(d, now) {
                let since = duration_as_nanos(&std_instant_duration_since(now, d));
                -(since as i128)
            } else {
                let since = duration_as_nanos(&std_instant_duration_since(d, now));
                since as i128
            }
        },
        Instant::Infinity => (MAX_DURATION_NANOS + 1) as i128,
    }
}

/// True when no timer occurs twice in the list.
pub open spec fn unique_timers(s: Seq<(Timer, ActorId)>) -> bool {
    forall|i: int, j: int| 0 <= i < s.len() && 0 <= j < s.len() && i != j ==> s[i].0 != s[j].0
}

/// True when the timer occurs in the list.
pub open spec fn has_timer(s: Seq<(Timer, ActorId)>, t: Timer) -> bool {
    exists|i: int| 0 <= i < s.len() && s[i].0 == t
}

/// The actor of the entry of a timer in the list.
pub open spec fn actor_of(s: Seq<(Timer, ActorId)>, t: Timer) -> ActorId {
    s[choose|i: int| 0 <= i < s.len() && s[i].0 == t].1
}

/// The list seen as a map from each scheduled timer to the actor it notifies.
pub open spec fn timer_map(s: Seq<(Timer, ActorId)>) -> Map<Timer, ActorId> {
    Map::new(|t: Timer| has_timer(s, t), |t: Timer| actor_of(s, t))
}

/// In a list without duplicate, the actor of the timer at `i` is the one of the entry.
proof fn lemma_actor_of_index(s: Seq<(Timer, ActorId)>, i: int)
    requires
        unique_timers(s),
        0 <= i < s.len(),
    ensures
        has_timer(s, s[i].0),
        actor_of(s, s[i].0) == s[i].1,
{
    let t = s[i].0;
    assert(s[i].0 == t);
    let j = choose|j: int| 0 <= j < s.len() && s[j].0 == t;
    assert(j == i);
}

/// Adding an entry for a timer that is not in the list adds it to the map.
proof fn lemma_map_push(s: Seq<(Timer, ActorId)>, t: Timer, a: ActorId)
    requires
        unique_timers(s),
        !has_timer(s, t),
    ensures
        unique_timers(s.push((t, a))),
        timer_map(s.push((t, a))) == timer_map(s).insert(t, a),
{
    let s2 = s.push((t, a));
    assert(unique_timers(s2));
    assert forall|k: Timer| #[trigger] has_timer(s2, k) == (has_timer(s, k) || k == t) by {
        if has_timer(s, k) {
            let i = choose|i: int| 0 <= i < s.len() && s[i].0 == k;
            assert(s2[i].0 == k);
        }
        if k == t {
            assert(s2[s.len() as int].0 == k);
        }
        if has_timer(s2, k) && k != t {
            let i = choose|i: int| 0 <= i < s2.len() && s2[i].0 == k;
            assert(s[i].0 == k);
        }
    }
    assert forall|k: Timer| has_timer(s2, k) implies #[trigger] actor_of(s2, k) == (if k == t {
        a
    } else {
        actor_of(s, k)
    }) by {
        if k == t {
            lemma_actor_of_index(s2, s.len() as int);
        } else {
            let i = choose|i: int| 0 <= i < s.len() && s[i].0 == k;
            lemma_actor_of_index(s, i);
            assert(s2[i] == s[i]);
            lemma_actor_of_index(s2, i);
        }
    }
    assert(timer_map(s2) =~= timer_map(s).insert(t, a));
}

/// Removing the entry at `i` removes its timer from the map.
proof fn lemma_map_remove(s: Seq<(Timer, ActorId)>, i: int)
    requires
        unique_timers(s),
        0 <= i < s.len(),
    ensures
        unique_timers(s.remove(i)),
        timer_map(s.remove(i)) == timer_map(s).remove(s[i].0),
{
    let s2 = s.remove(i);
    let t = s[i].0;
    assert forall|x: int, y: int| 0 <= x < s2.len() && 0 <= y < s2.len() && x != y implies s2[x].0
        != s2[y].0 by {
        let x1 = if x < i {
            x
        } else {
            x + 1
        };
        let y1 = if y < i {
            y
        } else {
            y + 1
        };
        assert(s2[x] == s[x1]);
        assert(s2[y] == s[y1]);
    }
    assert forall|k: Timer| #[trigger] has_timer(s2, k) == (has_timer(s, k) && k != t) by {
        if has_timer(s2, k) {
            let j = choose|j: int| 0 <= j < s2.len() && s2[j].0 == k;
            let j1 = if j < i {
                j
            } else {
                j + 1
            };
            assert(s[j1].0 == k);
            assert(j1 != i);
        }
        if has_timer(s, k) && k != t {
            let j = choose|j: int| 0 <= j < s.len() && s[j].0 == k;
            assert(j != i);
            let j2 = if j < i {
                j
            } else {
                j - 1
            };
            assert(s2[j2] == s[j]);
        }
    }
    assert forall|k: Timer| has_timer(s2, k) implies #[trigger] actor_of(s2, k) == actor_of(s, k) by {
        let j = choose|j: int| 0 <= j < s2.len() && s2[j].0 == k;
        let j1 = if j < i {
            j
        } else {
            j + 1
        };
        assert(s2[j] == s[j1]);
        lemma_actor_of_index(s2, j);
        lemma_actor_of_index(s, j1);
    }
    assert(timer_map(s2) =~= timer_map(s).remove(t));
}

/// The position of a timer in a list without duplicate.
fn find_timer(list: &Vec<(Timer, ActorId)>, timer: &Timer) -> (r: Option<usize>)
    ensures
        r matches Some(i) ==> i < list@.len() && list@[i as int].0 == *timer,
        r is None ==> !has_timer(list@, *timer),
{
    let mut i: usize = 0;
    while i < list.len()
        invariant
            i <= list@.len(),
            forall|j: int| 0 <= j < i ==> list@[j].0 != *timer,
        decreases list@.len() - i,
    {
        if list[i].0.is_equal(timer) {
            return Some(i);
        }
        i += 1;
    }
    None
}

/// The identifier that follows `id`; identifiers wrap around and skip the one of
/// unscheduled timers.
pub open spec fn next_timeout_id(id: TimeoutId) -> TimeoutId {
    if id == TimeoutId::MAX {
        1
    } else {
        (id + 1) as TimeoutId
    }
}

/// The scheduled entries once `timer` is unscheduled for `dst`: a finite timer loses its
/// entry when that entry notifies `dst`.
pub open spec fn unscheduled_entries(entries: Map<Timer, ActorId>, timer: Timer, dst: ActorId) -> Map<
    Timer,
    ActorId,
> {
    if !timer.deadline.is_inf() && entries.contains_key(timer) && entries[timer] == dst {
        entries.remove(timer)
    } else {
        entries
    }
}

/// The timer once unscheduled: an infinite timer is left as it is; a finite one gets an
/// infinite deadline and the identifier of unscheduled timers, so that a timeout of it
/// still queued is not taken.
pub open spec fn unscheduled_timer(timer: Timer) -> Timer {
    if timer.deadline.is_inf() {
        timer
    } else {
        Timer { id: UNSCHEDULED_TIMEOUT_ID, deadline: Instant::Infinity }
    }
}

/// A finite timer that is unscheduled takes no notification, not even the timeout it had
/// when that timeout was already queued.
pub proof fn law_unscheduled_timer_takes_no_timeout(timer: Timer, notif: Notification)
    requires
        !timer.deadline.is_inf(),
    ensures
        !takes_timeout(unscheduled_timer(timer), notif),
{
}

/// Unscheduling a timer that was just scheduled at a finite instant for the same actor
/// gives back the entries as they were before that schedule, less the earlier entry of the
/// timer for that actor, provided the new entry did not replace one already there.
pub proof fn law_unschedule_undoes_schedule(
    entries: Map<Timer, ActorId>,
    timer: Timer,
    next_id: TimeoutId,
    instant: Instant,
    dst: ActorId,
)
    requires
        !instant.is_inf(),
        !unscheduled_entries(entries, timer, dst).contains_key(Timer { id: next_id, deadline: instant }),
    ensures
        ({
            let scheduled = Timer { id: next_id, deadline: instant };
            let before = unscheduled_entries(entries, timer, dst);
            unscheduled_entries(before.insert(scheduled, dst), scheduled, dst) == before
        }),
{
    let scheduled = Timer { id: next_id, deadline: instant };
    let before = unscheduled_entries(entries, timer, dst);
    assert(before.insert(scheduled, dst).remove(scheduled) =~= before);
}

/// Unscheduling a timer twice does what unscheduling it once does.
pub proof fn law_unschedule_twice(entries: Map<Timer, ActorId>, timer: Timer, dst: ActorId)
    ensures
        unscheduled_entries(unscheduled_entries(entries, timer, dst), unscheduled_timer(timer), dst)
            == unscheduled_entries(entries, timer, dst),
        unscheduled_timer(unscheduled_timer(timer)) == unscheduled_timer(timer),
{
}

/// A timer scheduled again does not take a notification of its former schedule for its
/// own: `is_scheduling` answers it with `false`, unless the identifiers wrapped around to
/// the former one.
pub proof fn law_rescheduled_timer_ignores_former_timeout(
    timer: Timer,
    next_id: TimeoutId,
    instant: Instant,
    notif: Notification,
)
    requires
        payload_timeout(notif.data) == Some(timer.id),
        next_id != timer.id,
    ensures
        payload_timeout(notif.data) != Some(Timer { id: next_id, deadline: instant }.id),
{
}

/// Entity responsible to manage timer registrations and timeouts.
pub struct TimeoutScheduler {
    pub(crate) next_timeout_id: TimeoutId,
    pub(crate) timeout_list: Vec<(Timer, ActorId)>,
}

impl TimeoutScheduler {
    /// No timer occurs twice.
    #[verifier::type_invariant]
    pub closed spec fn wf(self) -> bool {
        &&& unique_timers(self.timeout_list@)
        &&& self.next_timeout_id != UNSCHEDULED_TIMEOUT_ID
    }

    /// The identifier that the next scheduled timeout gets.
    pub closed spec fn next_id(self) -> TimeoutId {
        self.next_timeout_id
    }

    /// Each scheduled timer with the actor it notifies.
    pub closed spec fn entries(self) -> Map<Timer, ActorId> {
        timer_map(self.timeout_list@)
    }

    pub fn new() -> (r: TimeoutScheduler)
        ensures
            r.entries() == Map::<Timer, ActorId>::empty(),
            r.next_id() == 1,
    {
        let r = TimeoutScheduler { next_timeout_id: 1, timeout_list: Vec::new() };
        assert(r.entries() =~= Map::<Timer, ActorId>::empty());
        r
    }

    /// Take the list out, leaving an empty one.
    fn take_list(&mut self) -> (r: Vec<(Timer, ActorId)>)
        ensures
            r@ == old(self).timeout_list@,
            unique_timers(r@),
            final(self).timeout_list@.len() == 0,
            final(self).next_timeout_id == old(self).next_timeout_id,
            old(self).next_timeout_id != UNSCHEDULED_TIMEOUT_ID,
    {
        proof {
            use_type_invariant(&*self);
        }
        let mut list = Vec::new();
        std::mem::swap(&mut list, &mut self.timeout_list);
        list
    }

    /// Identifier for a new timeout; identifiers wrap around.
    fn generate_timeout_id(&mut self) -> (r: TimeoutId)
        ensures
            r == old(self).next_timeout_id,
            final(self).next_timeout_id == next_timeout_id(old(self).next_timeout_id),
            final(self).timeout_list == old(self).timeout_list,
    {
        proof {
            use_type_invariant(&*self);
        }
        let out = self.next_timeout_id;
        self.next_timeout_id = if self.next_timeout_id == TimeoutId::MAX {
            1
        } else {
            self.next_timeout_id + 1
        };
        out
    }

    /// Add or replace the entry of a timer.
    fn insert(&mut self, timer: Timer, dst: ActorId)
        ensures
            final(self).entries() == old(self).entries().insert(timer, dst),
            final(self).next_id() == old(self).next_id(),
    {
        let mut list = self.take_list();
        match find_timer(&list, &timer) {
            Some(i) => {
                proof {
                    lemma_map_remove(list@, i as int);
                }
                list.remove(i);
            },
            None => {},
        }
        proof {
            lemma_map_push(list@, timer, dst);
        }
        list.push((timer, dst));
        self.timeout_list = list;
        assert(self.entries() =~= old(self).entries().insert(timer, dst));
    }

    /// The position of the timer that matures first seen from `now`, if any.
    fn earliest(&self, now: &std::time::Instant) -> (r: Option<usize>)
        ensures
            r is None <==> self.timeout_list@.len() == 0,
            r matches Some(i) ==> i < self.timeout_list@.len() && forall|j: int|
                0 <= j < self.timeout_list@.len() ==> !matures_before(
                    #[trigger] self.timeout_list@[j].0,
                    self.timeout_list@[i as int].0,
                    *now,
                ),
    {
        if self.timeout_list.len() == 0 {
            return None;
        }
        let mut best: usize = 0;
        let mut best_offset = offset_from_exec(&self.timeout_list[0].0.deadline, now);
        let mut i: usize = 1;
        while i < self.timeout_list.len()
            invariant
                1 <= i <= self.timeout_list@.len(),
                best < i,
                best_offset == offset_from(self.timeout_list@[best as int].0.deadline, *now),
                forall|j: int|
                    0 <= j < i ==> !matures_before(
                        #[trigger] self.timeout_list@[j].0,
                        self.timeout_list@[best as int].0,
                        *now,
                    ),
            decreases self.timeout_list@.len() - i,
        {
            let offset = offset_from_exec(&self.timeout_list[i].0.deadline, now);
            if offset < best_offset || (offset == best_offset && self.timeout_list[i].0.id
                < self.timeout_list[best].0.id) {
                best = i;
                best_offset = offset;
            }
            i += 1;
        }
        Some(best)
    }

    /// The timer that matures first seen from `now` and the actor it notifies, if any.
    pub fn next_timeout(&self, now: &std::time::Instant) -> (r: Option<(Timer, ActorId)>)
        ensures
            r is None <==> self.entries() == Map::<Timer, ActorId>::empty(),
            r matches Some(e) ==> is_earliest(self.entries(), e.0, *now) && self.entries()[e.0]
                == e.1,
    {
        proof {
            use_type_invariant(self);
        }
        match self.earliest(now) {
            None => {
                assert(self.entries() =~= Map::<Timer, ActorId>::empty());
                None
            },
            Some(i) => {
                let e = self.timeout_list[i];
                proof {
                    lemma_actor_of_index(self.timeout_list@, i as int);
                    assert forall|k: Timer| #[trigger] self.entries().contains_key(k) implies !matures_before(
                        k,
                        e.0,
                        *now,
                    ) by {
                        let j = choose|j: int|
                            0 <= j < self.timeout_list@.len() && self.timeout_list@[j].0 == k;
                        assert(!matures_before(self.timeout_list@[j].0, e.0, *now));
                    }
                    assert(self.entries().contains_key(e.0));
                }
                Some(e)
            },
        }
    }

    /// Remove the entry of a timer, whatever actor it notifies.
    pub fn remove(&mut self, timer: &Timer)
        ensures
            final(self).next_id() == old(self).next_id(),
            final(self).entries() == old(self).entries().remove(*timer),
    {
        let mut list = self.take_list();
        match find_timer(&list, timer) {
            Some(i) => {
                proof {
                    lemma_map_remove(list@, i as int);
                }
                list.remove(i);
            },
            None => {
                assert(timer_map(list@) =~= timer_map(list@).remove(*timer));
            },
        }
        self.timeout_list = list;
    }

    /// Add or replace the entry of a timer.
    pub fn put(&mut self, timer: Timer, dst: ActorId)
        ensures
            final(self).next_id() == old(self).next_id(),
            final(self).entries() == old(self).entries().insert(timer, dst),
    {
        self.insert(timer, dst);
    }

    /// Remove the timer to the scheduled list if present.
    ///
    /// A finite timer loses its entry when the entry notifies `dst`; then its deadline
    /// becomes infinity and its identifier the one of unscheduled timers. An infinite timer
    /// is left as it is.
    pub fn unschedule(&mut self, timer: &mut Timer, dst: ActorId)
        ensures
            final(self).next_id() == old(self).next_id(),
            final(self).entries() == unscheduled_entries(old(self).entries(), *old(timer), dst),
            *final(timer) == unscheduled_timer(*old(timer)),
            old(timer).deadline.is_inf() ==> *final(self) == *old(self),
    {
        if !timer.deadline.at_inf() {
            let mut list = self.take_list();
            match find_timer(&list, timer) {
                None => {},
                Some(i) => {
                    proof {
                        lemma_actor_of_index(list@, i as int);
                    }
                    if list[i].1 == dst {
                        proof {
                            lemma_map_remove(list@, i as int);
                        }
                        list.remove(i);
                    }
                },
            }
            self.timeout_list = list;
            timer.deadline.set_inf();
            timer.id = UNSCHEDULED_TIMEOUT_ID;
        }
    }

    /// Schedule a timer at a point in the future.
    ///
    /// The timer is first unscheduled; it then gets a new identifier and the deadline
    /// `instant`, and its entry notifies `dst`.
    pub fn schedule_until(&mut self, timer: &mut Timer, instant: Instant, dst: ActorId)
        ensures
            *final(timer) == (Timer { id: old(self).next_id(), deadline: instant }),
            final(timer).id != UNSCHEDULED_TIMEOUT_ID,
            final(self).next_id() == next_timeout_id(old(self).next_id()),
            final(self).entries() == unscheduled_entries(old(self).entries(), *old(timer), dst).insert(
                *final(timer),
                dst,
            ),
    {
        proof {
            use_type_invariant(&*self);
        }
        self.unschedule(timer, dst);
        timer.id = self.generate_timeout_id();
        timer.deadline = instant;
        self.insert(*timer, dst);
    }
}

} // verus!
