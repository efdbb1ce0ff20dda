//! The state machine of an actor where addresses of profiled actors are registered and
//! whose metrics are collected when a snapshot is taken.
//!
//! Observers are notified at the end of each snapshot. The messages themselves are
//! decoded and sent by the behavior that drives this state machine: it hands over each
//! event and performs the step that comes back.

use crate::actor::{ActorId, Addr, RequestId};
use crate::instant::Instant;
use crate::name_order::{
    compare_names, lemma_lex_irreflexive, lemma_lex_total, lemma_lex_transitive,
    lemma_name_key_injective, lex_lt, name_key,
};
use vstd::prelude::*;

verus! {

/// A registered profiled actor, with the metric list kept for it between snapshots.
pub struct ActorSlot<M> {
    pub name: String,
    pub addr: Addr,
    pub metric_list: Option<Vec<M>>,
}

/// The contents of a kept metric list, if one is kept.
pub open spec fn list_view<M>(o: Option<Vec<M>>) -> Option<Seq<M>> {
    match o {
        Some(v) => Some(v@),
        None => None,
    }
}

/// Which profiled actors an operation is about.
pub enum ActorSelection {
    All,
    SelectedNames(Vec<String>),
    SelectedAddresses(Vec<Addr>),
}

/// Whether a snapshot is being taken.
enum SnapshotState {
    Idle,
    Processing {
        snapshot_list: Vec<String>,
        /// Instant of the first snapshot request.
        timestamp: Instant,
        requested_index: usize,
        request_id: RequestId,
    },
}

/// What the driving behavior does next.
pub enum SnapshotStep<M> {
    /// Nothing to do.
    Nothing,
    /// Request the metrics of a profiled actor, handing it this list to fill.
    Request { addr: Addr, metric_list: Vec<M> },
    /// The snapshot is done: notify the observers with the metrics of these names.
    Notify { names: Vec<String>, timestamp: Instant },
}

/// Initial capacity of a metric list made by the aggregator.
const INITIAL_METRIC_LIST_CAPACITY: usize = 20;

/// The contents of a list of names.
pub open spec fn views(s: Seq<String>) -> Seq<Seq<char>> {
    s.map_values(|x: String| x@)
}

/// The names of a list of slots, in order.
pub open spec fn slot_names<L>(s: Seq<ActorSlot<L>>) -> Seq<Seq<char>> {
    s.map_values(|x: ActorSlot<L>| x.name@)
}

/// The names are in strictly increasing order.
pub open spec fn sorted_names(s: Seq<Seq<char>>) -> bool {
    forall|i: int, j: int|
        0 <= i < j < s.len() ==> lex_lt(name_key(#[trigger] s[i]), name_key(#[trigger] s[j]))
}

/// The identifiers of a list of addresses, in order.
pub open spec fn addr_ids(s: Seq<Addr>) -> Seq<ActorId> {
    s.map_values(|a: Addr| a.id())
}

/// The identifiers are in strictly increasing order.
pub open spec fn sorted_ids(s: Seq<ActorId>) -> bool {
    forall|i: int, j: int| 0 <= i < j < s.len() ==> #[trigger] s[i] < #[trigger] s[j]
}

/// No two slots have the same name.
pub open spec fn unique_names<L>(s: Seq<ActorSlot<L>>) -> bool {
    forall|i: int, j: int| 0 <= i < s.len() && 0 <= j < s.len() && i != j ==> s[i].name@ != s[j].name@
}

/// A slot has this name.
pub open spec fn has_name<L>(s: Seq<ActorSlot<L>>, n: Seq<char>) -> bool {
    exists|i: int| 0 <= i < s.len() && s[i].name@ == n
}

/// The slot of a name.
pub open spec fn slot_of<L>(s: Seq<ActorSlot<L>>, n: Seq<char>) -> ActorSlot<L> {
    s[choose|i: int| 0 <= i < s.len() && s[i].name@ == n]
}

/// Each registered name with the identifier of its actor and its kept metric list.
pub open spec fn slot_map<L>(s: Seq<ActorSlot<L>>) -> Map<Seq<char>, (ActorId, Option<Seq<L>>)> {
    Map::new(
        |n: Seq<char>| has_name(s, n),
        |n: Seq<char>| (slot_of(s, n).addr.id(), list_view(slot_of(s, n).metric_list)),
    )
}

/// Sorted names are different names.
proof fn lemma_sorted_unique<L>(s: Seq<ActorSlot<L>>)
    requires
        sorted_names(slot_names(s)),
    ensures
        unique_names(s),
{
    assert forall|i: int, j: int| 0 <= i < s.len() && 0 <= j < s.len() && i != j implies s[i].name@
        != s[j].name@ by {
        lemma_lex_irreflexive(name_key(s[i].name@));
        if i < j {
            assert(lex_lt(name_key(slot_names(s)[i]), name_key(slot_names(s)[j])));
        } else {
            assert(lex_lt(name_key(slot_names(s)[j]), name_key(slot_names(s)[i])));
        }
    }
}

/// In a list of different names, the slot of the name at `i` is the one at `i`.
proof fn lemma_slot_of_index<L>(s: Seq<ActorSlot<L>>, i: int)
    requires
        unique_names(s),
        0 <= i < s.len(),
    ensures
        has_name(s, s[i].name@),
        slot_of(s, s[i].name@) == s[i],
{
    let n = s[i].name@;
    assert(s[i].name@ == n);
    let j = choose|j: int| 0 <= j < s.len() && s[j].name@ == n;
    assert(j == i);
}

/// The map of a list whose slot at `p` is replaced by one of the same name.
proof fn lemma_slot_map_update<L>(s: Seq<ActorSlot<L>>, p: int, x: ActorSlot<L>)
    requires
        unique_names(s),
        0 <= p < s.len(),
        s[p].name@ == x.name@,
    ensures
        unique_names(s.update(p, x)),
        slot_map(s.update(p, x)) == slot_map(s).insert(x.name@, (x.addr.id(), list_view(x.metric_list))),
{
    let s2 = s.update(p, x);
    assert(unique_names(s2)) by {
        assert forall|i: int, j: int| 0 <= i < s2.len() && 0 <= j < s2.len() && i != j implies s2[i].name@
            != s2[j].name@ by {
            assert(s2[i].name@ == s[i].name@);
            assert(s2[j].name@ == s[j].name@);
        }
    }
    assert forall|n: Seq<char>| #[trigger] has_name(s2, n) == has_name(s, n) by {
        if has_name(s, n) {
            let i = choose|i: int| 0 <= i < s.len() && s[i].name@ == n;
            assert(s2[i].name@ == n);
        }
        if has_name(s2, n) {
            let i = choose|i: int| 0 <= i < s2.len() && s2[i].name@ == n;
            assert(s[i].name@ == n);
        }
    }
    assert forall|n: Seq<char>| has_name(s2, n) implies #[trigger] slot_of(s2, n) == (if n == x.name@ {
        x
    } else {
        slot_of(s, n)
    }) by {
        let i = choose|i: int| 0 <= i < s2.len() && s2[i].name@ == n;
        lemma_slot_of_index(s2, i);
        if i != p {
            lemma_slot_of_index(s, i);
        }
    }
    assert(slot_map(s2) =~= slot_map(s).insert(x.name@, (x.addr.id(), list_view(x.metric_list))));
}

/// The map of a list with a slot of a new name inserted at `p`.
proof fn lemma_slot_map_insert<L>(s: Seq<ActorSlot<L>>, p: int, x: ActorSlot<L>)
    requires
        unique_names(s),
        0 <= p <= s.len(),
        !has_name(s, x.name@),
    ensures
        unique_names(s.insert(p, x)),
        slot_map(s.insert(p, x)) == slot_map(s).insert(x.name@, (x.addr.id(), list_view(x.metric_list))),
{
    let s2 = s.insert(p, x);
    assert forall|i: int| 0 <= i < s2.len() implies #[trigger] s2[i] == (if i < p {
        s[i]
    } else if i == p {
        x
    } else {
        s[i - 1]
    }) by {}
    assert(unique_names(s2)) by {
        assert forall|i: int, j: int| 0 <= i < s2.len() && 0 <= j < s2.len() && i != j implies s2[i].name@
            != s2[j].name@ by {
            if i == p {
                let j1 = if j < p {
                    j
                } else {
                    j - 1
                };
                assert(s2[j] == s[j1]);
            } else if j == p {
                let i1 = if i < p {
                    i
                } else {
                    i - 1
                };
                assert(s2[i] == s[i1]);
            } else {
                let i1 = if i < p {
                    i
                } else {
                    i - 1
                };
                let j1 = if j < p {
                    j
                } else {
                    j - 1
                };
                assert(s2[i] == s[i1]);
                assert(s2[j] == s[j1]);
            }
        }
    }
    assert forall|n: Seq<char>| #[trigger] has_name(s2, n) == (has_name(s, n) || n == x.name@) by {
        if has_name(s, n) {
            let i = choose|i: int| 0 <= i < s.len() && s[i].name@ == n;
            if i < p {
                assert(s2[i].name@ == n);
            } else {
                assert(s2[i + 1].name@ == n);
            }
        }
        if n == x.name@ {
            assert(s2[p].name@ == n);
        }
        if has_name(s2, n) && n != x.name@ {
            let i = choose|i: int| 0 <= i < s2.len() && s2[i].name@ == n;
            if i < p {
                assert(s[i].name@ == n);
            } else {
                assert(s[i - 1].name@ == n);
            }
        }
    }
    assert forall|n: Seq<char>| has_name(s2, n) implies #[trigger] slot_of(s2, n) == (if n == x.name@ {
        x
    } else {
        slot_of(s, n)
    }) by {
        let i = choose|i: int| 0 <= i < s2.len() && s2[i].name@ == n;
        lemma_slot_of_index(s2, i);
        if i < p {
            lemma_slot_of_index(s, i);
        } else if i > p {
            lemma_slot_of_index(s, i - 1);
        }
    }
    assert(slot_map(s2) =~= slot_map(s).insert(x.name@, (x.addr.id(), list_view(x.metric_list))));
}

/// The index of the first name at or after `from` that is registered, or the length of the
/// list if there is none.
pub open spec fn next_index(names: Seq<Seq<char>>, registered: Set<Seq<char>>, from: int) -> int
    decreases names.len() - from,
{
    if from >= names.len() {
        names.len() as int
    } else if registered.contains(names[from]) {
        from
    } else {
        next_index(names, registered, from + 1)
    }
}

/// What `next_index` finds.
proof fn lemma_next_index(names: Seq<Seq<char>>, registered: Set<Seq<char>>, from: int)
    requires
        0 <= from <= names.len(),
    ensures
        from <= next_index(names, registered, from) <= names.len(),
        next_index(names, registered, from) < names.len() ==> registered.contains(
            names[next_index(names, registered, from)],
        ),
        forall|j: int|
            from <= j < next_index(names, registered, from) ==> !registered.contains(
                #[trigger] names[j],
            ),
    decreases names.len() - from,
{
    if from < names.len() && !registered.contains(names[from]) {
        lemma_next_index(names, registered, from + 1);
    }
}

/// The entries after registering each pair of name and address in turn, each with an
/// empty metric list.
pub open spec fn registered_all<M>(
    m: Map<Seq<char>, (ActorId, Option<Seq<M>>)>,
    s: Seq<(String, Addr)>,
) -> Map<Seq<char>, (ActorId, Option<Seq<M>>)>
    decreases s.len(),
{
    if s.len() == 0 {
        m
    } else {
        registered_all(m, s.drop_last()).insert(s.last().0@, (s.last().1.id(), Some(Seq::<M>::empty())))
    }
}

/// The selection takes the profiled actor of this name and identifier.
pub open spec fn selects(selection: ActorSelection, name: Seq<char>, id: ActorId) -> bool {
    match selection {
        ActorSelection::All => true,
        ActorSelection::SelectedNames(names) => views(names@).contains(name),
        ActorSelection::SelectedAddresses(addresses) => addr_ids(addresses@).contains(id),
    }
}

/// The entries that the selection does not take.
pub open spec fn kept_entries<M>(
    m: Map<Seq<char>, (ActorId, Option<Seq<M>>)>,
    selection: ActorSelection,
) -> Map<Seq<char>, (ActorId, Option<Seq<M>>)> {
    Map::new(|n: Seq<char>| m.dom().contains(n) && !selects(selection, n, m[n].0), |n: Seq<char>| m[n])
}

/// Whether a list of names holds this name.
pub fn contains_name(names: &Vec<String>, name: &String) -> (r: bool)
    ensures
        r == views(names@).contains(name@),
{
    let mut i: usize = 0;
    while i < names.len()
        invariant
            i <= names@.len(),
            forall|j: int| 0 <= j < i ==> #[trigger] views(names@)[j] != name@,
        decreases names@.len() - i,
    {
        if compare_names(&names[i], name) == 0 {
            assert(views(names@)[i as int] == name@);
            return true;
        }
        i += 1;
    }
    proof {
        if views(names@).contains(name@) {
            let j = choose|j: int| 0 <= j < views(names@).len() && views(names@)[j] == name@;
            assert(views(names@)[j] != name@);
        }
    }
    false
}

/// Whether a list of addresses holds one of this identifier.
fn contains_id(addresses: &Vec<Addr>, id: ActorId) -> (r: bool)
    ensures
        r == addr_ids(addresses@).contains(id),
{
    let mut i: usize = 0;
    while i < addresses.len()
        invariant
            i <= addresses@.len(),
            forall|j: int| 0 <= j < i ==> #[trigger] addr_ids(addresses@)[j] != id,
        decreases addresses@.len() - i,
    {
        if addresses[i].actor_id() == id {
            assert(addr_ids(addresses@)[i as int] == id);
            return true;
        }
        i += 1;
    }
    proof {
        if addr_ids(addresses@).contains(id) {
            let j = choose|j: int| 0 <= j < addr_ids(addresses@).len() && addr_ids(addresses@)[j] == id;
            assert(addr_ids(addresses@)[j] != id);
        }
    }
    false
}

/// Whether the selection takes this profiled actor.
fn is_selected<M>(selection: &ActorSelection, slot: &ActorSlot<M>) -> (r: bool)
    ensures
        r == selects(*selection, slot.name@, slot.addr.id()),
{
    match selection {
        ActorSelection::All => true,
        ActorSelection::SelectedNames(names) => contains_name(names, &slot.name),
        ActorSelection::SelectedAddresses(addresses) => contains_id(addresses, slot.addr.actor_id()),
    }
}

/// The names whose actor has one of these identifiers.
pub open spec fn has_id_in<M>(
    ids: Seq<ActorId>,
    entries: Map<Seq<char>, (ActorId, Option<Seq<M>>)>,
) -> spec_fn(Seq<char>) -> bool {
    |n: Seq<char>| ids.contains(entries[n].0)
}

/// The names that a selection stands for, given the names in order and the entries.
pub open spec fn selected_names<M>(
    names: Seq<Seq<char>>,
    entries: Map<Seq<char>, (ActorId, Option<Seq<M>>)>,
    selection: ActorSelection,
) -> Seq<Seq<char>> {
    match selection {
        ActorSelection::All => names,
        ActorSelection::SelectedNames(selected) => views(selected@),
        ActorSelection::SelectedAddresses(addresses) => names.filter(has_id_in(addr_ids(addresses@), entries)),
    }
}

/// Filtering by a predicate that holds of every element keeps the sequence.
proof fn lemma_filter_all<A>(s: Seq<A>, pred: spec_fn(A) -> bool)
    requires
        forall|x: A| #[trigger] pred(x),
    ensures
        s.filter(pred) == s,
    decreases s.len(),
{
    reveal(Seq::filter);
    if s.len() > 0 {
        lemma_filter_all(s.drop_last(), pred);
        assert(s.drop_last().push(s.last()) =~= s);
    } else {
        assert(s.filter(pred) =~= s);
    }
}

/// The list with each name of `new` that it does not hold yet appended, in order.
pub open spec fn append_missing(list: Seq<Seq<char>>, new: Seq<Seq<char>>) -> Seq<Seq<char>>
    decreases new.len(),
{
    if new.len() == 0 {
        list
    } else {
        let prev = append_missing(list, new.drop_last());
        if prev.contains(new.last()) {
            prev
        } else {
            prev.push(new.last())
        }
    }
}

/// The names of `names` that have an entry.
pub open spec fn is_registered<M>(entries: Map<Seq<char>, (ActorId, Option<Seq<M>>)>) -> spec_fn(
    Seq<char>,
) -> bool {
    |n: Seq<char>| entries.dom().contains(n)
}

/// `copy` is a clone of the kept metric list, or empty when none is kept.
pub open spec fn copies_list<M: Clone>(kept: Option<Seq<M>>, copy: Seq<M>) -> bool {
    match kept {
        Some(l) => copy.len() == l.len() && forall|k: int| 0 <= k < l.len() ==> cloned::<M>(l[k], #[trigger] copy[k]),
        None => copy.len() == 0,
    }
}

/// Registering an actor under a name and then unregistering that name leaves the entries
/// as they were, less that name.
pub proof fn law_unregister_undoes_register<M>(
    entries: Map<Seq<char>, (ActorId, Option<Seq<M>>)>,
    name: String,
    addr: Addr,
    selected: Vec<String>,
)
    requires
        views(selected@) == seq![name@],
    ensures
        kept_entries(registered_all(entries, seq![(name, addr)]), ActorSelection::SelectedNames(selected))
            == entries.remove(name@),
{
    let s = seq![(name, addr)];
    assert(s.drop_last() =~= Seq::<(String, Addr)>::empty());
    assert(registered_all(entries, s.drop_last()) == entries);
    assert(s.last() == (name, addr));
    let m = registered_all(entries, s);
    assert(m == entries.insert(name@, (addr.id(), Some(Seq::<M>::empty()))));
    let sel = ActorSelection::SelectedNames(selected);
    assert forall|n: Seq<char>| m.dom().contains(n) implies #[trigger] selects(sel, n, m[n].0) == (n == name@) by {
        if n == name@ {
            assert(views(selected@)[0] == n);
        }
    }
    assert(kept_entries(m, sel) =~= entries.remove(name@));
}

/// The set of the names of a list of slots is the domain of its map.
proof fn lemma_names_dom<L>(s: Seq<ActorSlot<L>>)
    ensures
        slot_names(s).to_set() == slot_map(s).dom(),
{
    assert forall|n: Seq<char>| slot_names(s).to_set().contains(n) == slot_map(s).dom().contains(n) by {
        if slot_names(s).to_set().contains(n) {
            let i = choose|i: int| 0 <= i < slot_names(s).len() && slot_names(s)[i] == n;
            assert(s[i].name@ == n);
        }
        if has_name(s, n) {
            let i = choose|i: int| 0 <= i < s.len() && s[i].name@ == n;
            assert(slot_names(s)[i] == n);
        }
    }
    assert(slot_names(s).to_set() =~= slot_map(s).dom());
}

/// The state machine of a profiling aggregator, generic over the type of a metric.
pub struct AggregatorCore<M> {
    actors: Vec<ActorSlot<M>>,
    observers: Vec<Addr>,
    state: SnapshotState,
}

impl<M> AggregatorCore<M> {
    /// Profiled actors are kept by increasing name; observers by increasing identifier; a
    /// snapshot being taken waits on a name of its list.
    #[verifier::type_invariant]
    closed spec fn inv(self) -> bool {
        &&& sorted_names(slot_names(self.actors@))
        &&& sorted_ids(addr_ids(self.observers@))
        &&& match self.state {
            SnapshotState::Idle => true,
            SnapshotState::Processing { snapshot_list, requested_index, .. } => requested_index
                < snapshot_list@.len(),
        }
    }

    /// The names of the profiled actors, in increasing order.
    pub closed spec fn names(self) -> Seq<Seq<char>> {
        slot_names(self.actors@)
    }

    /// Each registered name with the identifier of its actor and its kept metric list.
    pub closed spec fn entries(self) -> Map<Seq<char>, (ActorId, Option<Seq<M>>)> {
        slot_map(self.actors@)
    }

    /// The identifiers of the observers, in increasing order.
    pub closed spec fn observer_ids(self) -> Seq<ActorId> {
        addr_ids(self.observers@)
    }

    /// A snapshot is being taken.
    pub closed spec fn is_processing(self) -> bool {
        self.state is Processing
    }

    /// The names of the snapshot being taken.
    pub closed spec fn snapshot_names(self) -> Seq<Seq<char>> {
        match self.state {
            SnapshotState::Idle => Seq::empty(),
            SnapshotState::Processing { snapshot_list, .. } => views(snapshot_list@),
        }
    }

    /// The instant of the first request of the snapshot being taken.
    pub closed spec fn timestamp(self) -> Instant {
        match self.state {
            SnapshotState::Idle => Instant::INFINITY,
            SnapshotState::Processing { timestamp, .. } => timestamp,
        }
    }

    /// The index in `snapshot_names` of the name whose metrics are awaited.
    pub closed spec fn requested_index(self) -> int {
        match self.state {
            SnapshotState::Idle => 0,
            SnapshotState::Processing { requested_index, .. } => requested_index as int,
        }
    }

    /// The identifier of the request whose response is awaited.
    pub closed spec fn request_id(self) -> RequestId {
        match self.state {
            SnapshotState::Idle => 0,
            SnapshotState::Processing { request_id, .. } => request_id,
        }
    }

    /// An aggregator without profiled actor nor observer, idle.
    pub fn new() -> (r: Self)
        ensures
            r.entries() == Map::<Seq<char>, (ActorId, Option<Seq<M>>)>::empty(),
            r.names().len() == 0,
            r.listed(),
            r.observer_ids().len() == 0,
            !r.is_processing(),
    {
        let r = AggregatorCore { actors: Vec::new(), observers: Vec::new(), state: SnapshotState::Idle };
        assert(slot_names(r.actors@) =~= Seq::<Seq<char>>::empty());
        assert(addr_ids(r.observers@) =~= Seq::<ActorId>::empty());
        assert(slot_map(r.actors@) =~= Map::<Seq<char>, (ActorId, Option<Seq<M>>)>::empty());
        proof {
            lemma_names_dom(r.actors@);
        }
        r
    }

    /// The observers, by increasing identifier.
    pub fn observers(&self) -> (r: &Vec<Addr>)
        ensures
            addr_ids(r@) == self.observer_ids(),
    {
        &self.observers
    }

    /// The names are the registered names, in increasing order.
    pub open spec fn listed(self) -> bool {
        &&& sorted_names(self.names())
        &&& self.names().to_set() == self.entries().dom()
    }

    /// Both aggregators are at the same point of the same snapshot.
    pub open spec fn same_snapshot(self, other: Self) -> bool {
        &&& self.is_processing() == other.is_processing()
        &&& self.snapshot_names() == other.snapshot_names()
        &&& self.timestamp() == other.timestamp()
        &&& self.requested_index() == other.requested_index()
        &&& self.request_id() == other.request_id()
    }

    /// Add an observer; an observer already there stays as it is.
    pub fn register_observer(&mut self, addr: Addr)
        ensures
            final(self).observer_ids().to_set() == old(self).observer_ids().to_set().insert(addr.id()),
            sorted_ids(final(self).observer_ids()),
            final(self).names() == old(self).names(),
            final(self).entries() == old(self).entries(),
            final(self).same_snapshot(*old(self)),
    {
        proof {
            use_type_invariant(&*self);
        }
        let id = addr.actor_id();
        let mut p: usize = 0;
        while p < self.observers.len() && self.observers[p].actor_id() < id
            invariant
                p <= self.observers@.len(),
                forall|j: int| 0 <= j < p ==> #[trigger] addr_ids(self.observers@)[j] < id,
                sorted_ids(addr_ids(self.observers@)),
            decreases self.observers@.len() - p,
        {
            p += 1;
        }
        let ghost before = addr_ids(self.observers@);
        if p < self.observers.len() && self.observers[p].actor_id() == id {
            assert(before.to_set() =~= before.to_set().insert(id)) by {
                assert(before[p as int] == id);
            }
        } else {
            let mut list = Vec::new();
            std::mem::swap(&mut list, &mut self.observers);
            list.insert(p, addr);
            let ghost after = addr_ids(list@);
            assert(after =~= before.insert(p as int, id)) by {
                assert forall|j: int| 0 <= j < after.len() implies #[trigger] after[j] == before.insert(
                    p as int,
                    id,
                )[j] by {
                    if j < p {
                        assert(list@[j] == old(self).observers@[j]);
                    } else if j > p {
                        assert(list@[j] == old(self).observers@[j - 1]);
                    }
                }
            }
            assert(sorted_ids(after)) by {
                assert forall|i: int, j: int| 0 <= i < j < after.len() implies #[trigger] after[i]
                    < #[trigger] after[j] by {
                    if j == p {
                        assert(after[i] == before[i]);
                    } else if i == p {
                        assert(after[j] == before[j - 1]);
                        assert(before[p as int] >= id);
                        if j - 1 > p {
                            assert(before[p as int] < before[j - 1]);
                        }
                    } else {
                        let i1 = if i < p {
                            i
                        } else {
                            i - 1
                        };
                        let j1 = if j < p {
                            j
                        } else {
                            j - 1
                        };
                        assert(after[i] == before[i1]);
                        assert(after[j] == before[j1]);
                    }
                }
            }
            assert(after.to_set() =~= before.to_set().insert(id)) by {
                assert forall|x: ActorId| after.to_set().contains(x) implies before.to_set().insert(
                    id,
                ).contains(x) by {
                    let j = choose|j: int| 0 <= j < after.len() && after[j] == x;
                    if j < p {
                        assert(before[j] == x);
                    } else if j > p {
                        assert(before[j - 1] == x);
                    }
                }
                assert forall|x: ActorId| before.to_set().insert(id).contains(x) implies after.to_set().contains(
                    x,
                ) by {
                    if x == id {
                        assert(after[p as int] == id);
                    } else {
                        let j = choose|j: int| 0 <= j < before.len() && before[j] == x;
                        if j < p {
                            assert(after[j] == x);
                        } else {
                            assert(after[j + 1] == x);
                        }
                    }
                }
            }
            self.observers = list;
        }
    }

    /// Remove the observer of this identifier, if there is one.
    pub fn unregister_observer(&mut self, addr: &Addr)
        ensures
            final(self).observer_ids().to_set() == old(self).observer_ids().to_set().remove(addr.id()),
            sorted_ids(final(self).observer_ids()),
            final(self).names() == old(self).names(),
            final(self).entries() == old(self).entries(),
            final(self).same_snapshot(*old(self)),
    {
        proof {
            use_type_invariant(&*self);
        }
        let id = addr.actor_id();
        let mut p: usize = 0;
        while p < self.observers.len() && self.observers[p].actor_id() < id
            invariant
                p <= self.observers@.len(),
                forall|j: int| 0 <= j < p ==> #[trigger] addr_ids(self.observers@)[j] < id,
                sorted_ids(addr_ids(self.observers@)),
            decreases self.observers@.len() - p,
        {
            p += 1;
        }
        let ghost before = addr_ids(self.observers@);
        if p < self.observers.len() && self.observers[p].actor_id() == id {
            let mut list = Vec::new();
            std::mem::swap(&mut list, &mut self.observers);
            list.remove(p);
            let ghost after = addr_ids(list@);
            assert(after =~= before.remove(p as int)) by {
                assert forall|j: int| 0 <= j < after.len() implies #[trigger] after[j] == before.remove(
                    p as int,
                )[j] by {
                    if j < p {
                        assert(list@[j] == old(self).observers@[j]);
                    } else {
                        assert(list@[j] == old(self).observers@[j + 1]);
                    }
                }
            }
            assert(sorted_ids(after)) by {
                assert forall|i: int, j: int| 0 <= i < j < after.len() implies #[trigger] after[i]
                    < #[trigger] after[j] by {
                    let i1 = if i < p {
                        i
                    } else {
                        i + 1
                    };
                    let j1 = if j < p {
                        j
                    } else {
                        j + 1
                    };
                    assert(after[i] == before[i1]);
                    assert(after[j] == before[j1]);
                }
            }
            assert(after.to_set() =~= before.to_set().remove(id)) by {
                assert forall|x: ActorId| after.to_set().contains(x) implies before.to_set().remove(
                    id,
                ).contains(x) by {
                    let j = choose|j: int| 0 <= j < after.len() && after[j] == x;
                    let j1 = if j < p {
                        j
                    } else {
                        j + 1
                    };
                    assert(before[j1] == x);
                    if j1 < p {
                        assert(before[j1] < before[p as int]);
                    } else {
                        assert(before[p as int] < before[j1]);
                    }
                }
                assert forall|x: ActorId| before.to_set().remove(id).contains(x) implies after.to_set().contains(
                    x,
                ) by {
                    let j = choose|j: int| 0 <= j < before.len() && before[j] == x;
                    if j < p {
                        assert(after[j] == x);
                    } else {
                        assert(j != p);
                        assert(after[j - 1] == x);
                    }
                }
            }
            self.observers = list;
        } else {
            assert(before.to_set() =~= before.to_set().remove(id)) by {
                assert forall|x: ActorId| before.to_set().contains(x) implies x != id by {
                    let j = choose|j: int| 0 <= j < before.len() && before[j] == x;
                    if j >= p {
                        if p < before.len() {
                            assert(before[p as int] > id);
                            if j > p {
                                assert(before[p as int] < before[j]);
                            }
                        }
                    }
                }
            }
        }
    }

    /// Set the identifier of the request whose response is awaited.
    pub fn set_request_id(&mut self, request_id: RequestId)
        ensures
            final(self).request_id() == (if old(self).is_processing() {
                request_id
            } else {
                0
            }),
            final(self).is_processing() == old(self).is_processing(),
            final(self).snapshot_names() == old(self).snapshot_names(),
            final(self).timestamp() == old(self).timestamp(),
            final(self).requested_index() == old(self).requested_index(),
            final(self).names() == old(self).names(),
            final(self).entries() == old(self).entries(),
            final(self).observer_ids() == old(self).observer_ids(),
    {
        proof {
            use_type_invariant(&*self);
        }
        let mut state = SnapshotState::Idle;
        std::mem::swap(&mut state, &mut self.state);
        match state {
            SnapshotState::Idle => {},
            SnapshotState::Processing { snapshot_list, timestamp, requested_index, request_id: _ } => {
                self.state = SnapshotState::Processing { snapshot_list, timestamp, requested_index, request_id };
            },
        }
    }

    /// The position of a name among the profiled actors: `Ok` where it is, `Err` where it
    /// would be inserted to keep the names in order.
    fn find_slot(&self, name: &String) -> (r: Result<usize, usize>)
        ensures
            match r {
                Ok(p) => p < self.names().len() && self.names()[p as int] == name@,
                Err(p) => {
                    &&& p <= self.names().len()
                    &&& forall|j: int|
                        0 <= j < p ==> lex_lt(name_key(#[trigger] self.names()[j]), name_key(name@))
                    &&& forall|j: int|
                        p <= j < self.names().len() ==> lex_lt(
                            name_key(name@),
                            name_key(#[trigger] self.names()[j]),
                        )
                    &&& !has_name(self.actors@, name@)
                },
            },
    {
        proof {
            use_type_invariant(self);
        }
        let ghost names = self.names();
        let mut p: usize = 0;
        while p < self.actors.len() && compare_names(&self.actors[p].name, name) < 0
            invariant
                p <= self.actors@.len(),
                names == slot_names(self.actors@),
                sorted_names(names),
                forall|j: int| 0 <= j < p ==> lex_lt(name_key(#[trigger] names[j]), name_key(name@)),
            decreases self.actors@.len() - p,
        {
            assert(names[p as int] == self.actors@[p as int].name@);
            p += 1;
        }
        if p < self.actors.len() && compare_names(&self.actors[p].name, name) == 0 {
            assert(names[p as int] == self.actors@[p as int].name@);
            Ok(p)
        } else {
            proof {
                if p < self.actors.len() {
                    assert(names[p as int] == self.actors@[p as int].name@);
                    lemma_lex_total(name_key(names[p as int]), name_key(name@));
                    if name_key(names[p as int]) =~= name_key(name@) {
                        lemma_name_key_injective(names[p as int], name@);
                    }
                }
                assert forall|j: int| p <= j < names.len() implies lex_lt(
                    name_key(name@),
                    name_key(#[trigger] names[j]),
                ) by {
                    if j > p {
                        lemma_lex_transitive(name_key(name@), name_key(names[p as int]), name_key(names[j]));
                    }
                }
                if has_name(self.actors@, name@) {
                    let i = choose|i: int| 0 <= i < self.actors@.len() && self.actors@[i].name@ == name@;
                    assert(names[i] == name@);
                    lemma_lex_irreflexive(name_key(name@));
                }
            }
            Err(p)
        }
    }

    /// Register a profiled actor under a name, with an empty metric list; an actor already
    /// registered under that name is replaced.
    fn register_profiled_actor(&mut self, name: String, addr: Addr)
        ensures
            final(self).entries() == old(self).entries().insert(name@, (addr.id(), Some(Seq::<M>::empty()))),
            sorted_names(final(self).names()),
            final(self).observer_ids() == old(self).observer_ids(),
            final(self).same_snapshot(*old(self)),
    {
        proof {
            use_type_invariant(&*self);
        }
        let found = self.find_slot(&name);
        let slot = ActorSlot { name, addr, metric_list: Some(Vec::with_capacity(INITIAL_METRIC_LIST_CAPACITY)) };
        let ghost before = self.actors@;
        assert(list_view(slot.metric_list) == Some(Seq::<M>::empty()));
        let mut list = Vec::new();
        std::mem::swap(&mut list, &mut self.actors);
        proof {
            lemma_sorted_unique(before);
        }
        match found {
            Ok(p) => {
                list.remove(p);
                list.insert(p, slot);
                assert(list@ =~= before.update(p as int, slot));
                proof {
                    lemma_slot_map_update(before, p as int, slot);
                    assert(slot_names(list@) =~= slot_names(before));
                }
            },
            Err(p) => {
                list.insert(p, slot);
                proof {
                    lemma_slot_map_insert(before, p as int, slot);
                    let after = slot_names(list@);
                    let b = slot_names(before);
                    assert(after =~= b.insert(p as int, slot.name@));
                    assert forall|i: int, j: int| 0 <= i < j < after.len() implies lex_lt(
                        name_key(#[trigger] after[i]),
                        name_key(#[trigger] after[j]),
                    ) by {
                        if i == p {
                            assert(after[j] == b[j - 1]);
                        } else if j == p {
                            assert(after[i] == b[i]);
                        } else {
                            let i1 = if i < p {
                                i
                            } else {
                                i - 1
                            };
                            let j1 = if j < p {
                                j
                            } else {
                                j - 1
                            };
                            assert(after[i] == b[i1]);
                            assert(after[j] == b[j1]);
                        }
                    }
                }
            },
        }
        self.actors = list;
    }

    /// Register each pair of name and address in turn (a later pair replaces an earlier one
    /// of the same name), each with an empty metric list.
    pub fn register_profiled_actors(&mut self, names_addresses: &Vec<(String, Addr)>)
        ensures
            final(self).entries() == registered_all(old(self).entries(), names_addresses@),
            final(self).listed(),
            final(self).observer_ids() == old(self).observer_ids(),
            final(self).same_snapshot(*old(self)),
    {
        let mut i: usize = 0;
        while i < names_addresses.len()
            invariant
                i <= names_addresses@.len(),
                self.entries() == registered_all(old(self).entries(), names_addresses@.take(i as int)),
                self.observer_ids() == old(self).observer_ids(),
                self.same_snapshot(*old(self)),
            decreases names_addresses@.len() - i,
        {
            let name = names_addresses[i].0.clone();
            let addr = names_addresses[i].1.duplicate();
            self.register_profiled_actor(name, addr);
            assert(names_addresses@.take(i + 1).drop_last() =~= names_addresses@.take(i as int));
            i += 1;
        }
        assert(names_addresses@.take(i as int) =~= names_addresses@);
        proof {
            use_type_invariant(&*self);
            lemma_names_dom(self.actors@);
        }
    }

    /// Unregister the profiled actors that the selection takes.
    pub fn unregister_profiled_actors(&mut self, selection: &ActorSelection)
        ensures
            final(self).entries() == kept_entries(old(self).entries(), *selection),
            final(self).listed(),
            final(self).observer_ids() == old(self).observer_ids(),
            final(self).same_snapshot(*old(self)),
    {
        proof {
            use_type_invariant(&*self);
        }
        let mut list = Vec::new();
        std::mem::swap(&mut list, &mut self.actors);
        let ghost before = list@;
        proof {
            lemma_sorted_unique(before);
        }
        let mut kept: Vec<ActorSlot<M>> = Vec::new();
        let ghost mut i: int = 0;
        assert(slot_map(before.take(0)) =~= Map::<Seq<char>, (ActorId, Option<Seq<M>>)>::empty());
        assert(slot_map(kept@) =~= Map::<Seq<char>, (ActorId, Option<Seq<M>>)>::empty());
        assert(kept_entries(slot_map(before.take(0)), *selection) =~= slot_map(kept@));
        while list.len() > 0
            invariant
                0 <= i <= before.len(),
                list@ == before.subrange(i, before.len() as int),
                unique_names(before),
                sorted_names(slot_names(before)),
                sorted_names(slot_names(kept@)),
                forall|k: int, j: int|
                    0 <= k < kept@.len() && i <= j < before.len() ==> lex_lt(
                        name_key(#[trigger] kept@[k].name@),
                        name_key(#[trigger] before[j].name@),
                    ),
                unique_names(kept@),
                slot_map(kept@) == kept_entries(slot_map(before.take(i)), *selection),
            decreases list@.len(),
        {
            let slot = list.remove(0);
            assert(slot == before[i]);
            proof {
                let pre = before.take(i);
                assert(before.take(i + 1) =~= pre.insert(i, slot));
                assert(unique_names(pre)) by {
                    assert forall|a: int, b: int| 0 <= a < pre.len() && 0 <= b < pre.len() && a != b implies pre[a].name@
                        != pre[b].name@ by {
                        assert(pre[a] == before[a]);
                        assert(pre[b] == before[b]);
                    }
                }
                assert(!has_name(pre, slot.name@)) by {
                    if has_name(pre, slot.name@) {
                        let a = choose|a: int| 0 <= a < pre.len() && pre[a].name@ == slot.name@;
                        assert(pre[a] == before[a]);
                    }
                }
                lemma_slot_map_insert(pre, i, slot);
                assert(slot_map(pre).dom().contains(slot.name@) == false);
            }
            if !is_selected(selection, &slot) {
                let ghost kept_before = kept@;
                proof {
                    assert(!has_name(kept_before, slot.name@)) by {
                        if has_name(kept_before, slot.name@) {
                            let a = choose|a: int| 0 <= a < kept_before.len() && kept_before[a].name@ == slot.name@;
                            assert(lex_lt(name_key(kept_before[a].name@), name_key(before[i].name@)));
                            lemma_lex_irreflexive(name_key(slot.name@));
                        }
                    }
                    lemma_slot_map_insert(kept_before, kept_before.len() as int, slot);
                    assert(kept_before.insert(kept_before.len() as int, slot) =~= kept_before.push(slot));
                }
                kept.push(slot);
                proof {
                    let kn = slot_names(kept@);
                    assert forall|a: int, b: int| 0 <= a < b < kn.len() implies lex_lt(
                        name_key(#[trigger] kn[a]),
                        name_key(#[trigger] kn[b]),
                    ) by {
                        if b == kn.len() - 1 {
                            assert(kept@[a] == kept_before[a]);
                            assert(lex_lt(name_key(kept_before[a].name@), name_key(before[i].name@)));
                        } else {
                            assert(kn[a] == slot_names(kept_before)[a]);
                            assert(kn[b] == slot_names(kept_before)[b]);
                        }
                    }
                    assert forall|k: int, j: int|
                        0 <= k < kept@.len() && i + 1 <= j < before.len() implies lex_lt(
                        name_key(#[trigger] kept@[k].name@),
                        name_key(#[trigger] before[j].name@),
                    ) by {
                        if k == kept@.len() - 1 {
                            assert(slot_names(before)[i] == before[i].name@);
                            assert(slot_names(before)[j] == before[j].name@);
                        } else {
                            assert(kept@[k] == kept_before[k]);
                        }
                    }
                    assert(kept_entries(slot_map(before.take(i + 1)), *selection) =~= slot_map(kept@));
                }
            } else {
                proof {
                    assert(kept_entries(slot_map(before.take(i + 1)), *selection) =~= slot_map(kept@));
                }
            }
            proof {
                i = i + 1;
                assert(list@ =~= before.subrange(i, before.len() as int));
            }
        }
        assert(before.take(i) =~= before);
        proof {
            lemma_names_dom(kept@);
        }
        self.actors = kept;
    }

    /// The names that a selection stands for: all registered names in order, the selected
    /// names as given, or the registered names, in order, whose actor has a selected address.
    fn convert_selection_to_names(&self, selection: &ActorSelection) -> (r: Vec<String>)
        ensures
            views(r@) == selected_names(self.names(), self.entries(), *selection),
    {
        proof {
            use_type_invariant(self);
            lemma_sorted_unique(self.actors@);
        }
        let ghost names = self.names();
        match selection {
            ActorSelection::SelectedNames(selected) => {
                let r = selected.clone();
                assert(views(r@) =~= views(selected@)) by {
                    assert forall|j: int| 0 <= j < r@.len() implies #[trigger] views(r@)[j] == views(selected@)[j] by {
                        assert(cloned::<String>(selected@[j], r@[j]));
                    }
                }
                r
            },
            _ => {
                let ghost pred = match selection {
                    ActorSelection::SelectedAddresses(addresses) => has_id_in(addr_ids(addresses@), self.entries()),
                    _ => |n: Seq<char>| true,
                };
                let mut r: Vec<String> = Vec::new();
                let mut i: usize = 0;
                proof {
                    reveal(Seq::filter);
                    assert(names.take(0) =~= Seq::<Seq<char>>::empty());
                    assert(views(r@) =~= names.take(0).filter(pred));
                }
                while i < self.actors.len()
                    invariant
                        i <= self.actors@.len(),
                        names == slot_names(self.actors@),
                        unique_names(self.actors@),
                        selection is All ==> pred == (|n: Seq<char>| true),
                        selection matches ActorSelection::SelectedAddresses(addresses) ==> pred == has_id_in(
                            addr_ids(addresses@),
                            self.entries(),
                        ),
                        !(selection is SelectedNames),
                        views(r@) == names.take(i as int).filter(pred),
                    decreases self.actors@.len() - i,
                {
                    let take = match selection {
                        ActorSelection::SelectedAddresses(addresses) => contains_id(addresses, self.actors[i].addr.actor_id()),
                        _ => true,
                    };
                    proof {
                        lemma_slot_of_index(self.actors@, i as int);
                        assert(names[i as int] == self.actors@[i as int].name@);
                        assert(take == pred(names[i as int]));
                        reveal(Seq::filter);
                        assert(names.take(i + 1).drop_last() =~= names.take(i as int));
                        assert(names.take(i + 1).last() == names[i as int]);
                    }
                    if take {
                        r.push(self.actors[i].name.clone());
                        assert(views(r@) =~= names.take(i as int).filter(pred).push(names[i as int]));
                    }
                    i += 1;
                }
                assert(names.take(i as int) =~= names);
                proof {
                    if selection is All {
                        assert(names.filter(pred) =~= names) by {
                            lemma_filter_all(names, pred);
                        }
                    }
                }
                r
            },
        }
    }

    /// What looking for the next registered name of a snapshot list, from index `from`,
    /// leads to: a request for the metrics of the first registered name found, whose kept
    /// list goes with the request, or, when there is none, the notification of the observers
    /// and the end of the snapshot.
    pub open spec fn ran_from(
        entries: Map<Seq<char>, (ActorId, Option<Seq<M>>)>,
        list: Seq<Seq<char>>,
        timestamp: Instant,
        from: int,
        request_id: RequestId,
        after: Self,
        step: SnapshotStep<M>,
    ) -> bool {
        let k = next_index(list, entries.dom(), from);
        if k < list.len() {
            &&& step matches SnapshotStep::Request { addr, metric_list } && addr.id() == entries[list[k]].0
                && metric_list@.len() == 0
            &&& after.entries() == entries.insert(list[k], (entries[list[k]].0, None))
            &&& after.is_processing()
            &&& after.snapshot_names() == list
            &&& after.timestamp() == timestamp
            &&& after.requested_index() == k
            &&& after.request_id() == request_id
        } else {
            &&& step matches SnapshotStep::Notify { names, timestamp: t } && views(names@) == list && t
                == timestamp
            &&& after.entries() == entries
            &&& !after.is_processing()
        }
    }

    /// Look for the next registered name of the list from index `from` and go on with the
    /// snapshot as `ran_from` says.
    fn run_from(&mut self, list: Vec<String>, timestamp: Instant, from: usize, request_id: RequestId) -> (r:
        SnapshotStep<M>)
        requires
            from <= list@.len(),
            !old(self).is_processing(),
        ensures
            Self::ran_from(old(self).entries(), views(list@), timestamp, from as int, request_id, *final(self), r),
            final(self).names() == old(self).names(),
            final(self).listed(),
            final(self).observer_ids() == old(self).observer_ids(),
    {
        proof {
            use_type_invariant(&*self);
            lemma_sorted_unique(self.actors@);
            lemma_next_index(views(list@), self.entries().dom(), from as int);
            lemma_names_dom(self.actors@);
        }
        let ghost names = views(list@);
        let ghost dom = self.entries().dom();
        let mut i: usize = from;
        let mut found: Option<usize> = None;
        while i < list.len()
            invariant_except_break
                found is None,
            invariant
                from <= i <= list@.len(),
                names == views(list@),
                dom == self.entries().dom(),
                next_index(names, dom, from as int) == next_index(names, dom, i as int),
                found matches Some(p) ==> p < self.actors@.len() && i < list@.len()
                    && self.actors@[p as int].name@ == names[i as int],
            ensures
                found is None ==> i == list@.len(),
            decreases list@.len() - i,
        {
            let f = self.find_slot(&list[i]);
            assert(names[i as int] == list@[i as int]@);
            match f {
                Ok(p) => {
                    assert(self.actors@[p as int].name@ == names[i as int]);
                    assert(has_name(self.actors@, names[i as int]));
                    found = Some(p);
                    break;
                },
                Err(_) => {},
            }
            i += 1;
        }
        match found {
            Some(p) => {
                let mut actors = Vec::new();
                std::mem::swap(&mut actors, &mut self.actors);
                let ghost before = actors@;
                let slot = actors.remove(p);
                let ActorSlot { name, addr, metric_list } = slot;
                let request_list = match metric_list {
                    Some(mut l) => {
                        l.clear();
                        l
                    },
                    None => Vec::with_capacity(INITIAL_METRIC_LIST_CAPACITY),
                };
                let request_addr = addr.duplicate();
                let emptied = ActorSlot { name, addr, metric_list: None };
                actors.insert(p, emptied);
                proof {
                    assert(actors@ =~= before.update(p as int, emptied));
                    lemma_slot_map_update(before, p as int, emptied);
                    lemma_slot_of_index(before, p as int);
                    assert(slot_names(actors@) =~= slot_names(before));
                    lemma_names_dom(actors@);
                }
                self.actors = actors;
                self.state = SnapshotState::Processing { snapshot_list: list, timestamp, requested_index: i, request_id };
                SnapshotStep::Request { addr: request_addr, metric_list: request_list }
            },
            None => {
                SnapshotStep::Notify { names: list, timestamp }
            },
        }
    }

    /// A snapshot of the selected actors is asked for at instant `now`. When idle, the
    /// snapshot starts with the names of the selection, taken at `now`; when one is being
    /// taken, the names it does not hold yet are appended to its list.
    pub fn on_snapshot(&mut self, selection: &ActorSelection, now: Instant) -> (r: SnapshotStep<M>)
        ensures
            !old(self).is_processing() ==> Self::ran_from(
                old(self).entries(),
                selected_names(old(self).names(), old(self).entries(), *selection),
                now,
                0,
                0,
                *final(self),
                r,
            ),
            old(self).is_processing() ==> {
                &&& r is Nothing
                &&& final(self).entries() == old(self).entries()
                &&& final(self).is_processing()
                &&& final(self).snapshot_names() == append_missing(
                    old(self).snapshot_names(),
                    selected_names(old(self).names(), old(self).entries(), *selection),
                )
                &&& final(self).timestamp() == old(self).timestamp()
                &&& final(self).requested_index() == old(self).requested_index()
                &&& final(self).request_id() == old(self).request_id()
            },
            final(self).names() == old(self).names(),
            final(self).listed(),
            final(self).observer_ids() == old(self).observer_ids(),
    {
        proof {
            use_type_invariant(&*self);
            lemma_names_dom(self.actors@);
        }
        let new_list = self.convert_selection_to_names(selection);
        let mut state = SnapshotState::Idle;
        std::mem::swap(&mut state, &mut self.state);
        match state {
            SnapshotState::Idle => self.run_from(new_list, now, 0, 0),
            SnapshotState::Processing { snapshot_list, timestamp, requested_index, request_id } => {
                let mut list = snapshot_list;
                let ghost start = views(list@);
                let ghost added = views(new_list@);
                let mut i: usize = 0;
                assert(added.take(0) =~= Seq::<Seq<char>>::empty());
                while i < new_list.len()
                    invariant
                        i <= new_list@.len(),
                        added == views(new_list@),
                        views(list@) == append_missing(start, added.take(i as int)),
                        requested_index < list@.len(),
                    decreases new_list@.len() - i,
                {
                    assert(added.take(i + 1).drop_last() =~= added.take(i as int));
                    assert(added.take(i + 1).last() == new_list@[i as int]@);
                    if !contains_name(&list, &new_list[i]) {
                        list.push(new_list[i].clone());
                        assert(views(list@) =~= append_missing(start, added.take(i as int)).push(new_list@[i as int]@));
                    }
                    i += 1;
                }
                assert(added.take(i as int) =~= added);
                self.state = SnapshotState::Processing { snapshot_list: list, timestamp, requested_index, request_id };
                SnapshotStep::Nothing
            },
        }
    }

    /// The metrics of the awaited request came back in `metric_list`: if the response is the
    /// awaited one, the list is kept for its name (if still registered) and the snapshot goes
    /// on from the next name.
    pub fn on_metrics(&mut self, response_id: RequestId, metric_list: Vec<M>) -> (r: SnapshotStep<M>)
        ensures
            old(self).is_processing() && response_id == old(self).request_id() ==> {
                let n = old(self).snapshot_names()[old(self).requested_index()];
                let stored = if old(self).entries().dom().contains(n) {
                    old(self).entries().insert(n, (old(self).entries()[n].0, Some(metric_list@)))
                } else {
                    old(self).entries()
                };
                Self::ran_from(
                    stored,
                    old(self).snapshot_names(),
                    old(self).timestamp(),
                    old(self).requested_index() + 1,
                    old(self).request_id(),
                    *final(self),
                    r,
                )
            },
            !(old(self).is_processing() && response_id == old(self).request_id()) ==> {
                &&& r is Nothing
                &&& final(self).entries() == old(self).entries()
                &&& final(self).same_snapshot(*old(self))
            },
            final(self).names() == old(self).names(),
            final(self).listed(),
            final(self).observer_ids() == old(self).observer_ids(),
    {
        proof {
            use_type_invariant(&*self);
            lemma_names_dom(self.actors@);
            lemma_sorted_unique(self.actors@);
        }
        let mut state = SnapshotState::Idle;
        std::mem::swap(&mut state, &mut self.state);
        match state {
            SnapshotState::Idle => SnapshotStep::Nothing,
            SnapshotState::Processing { snapshot_list, timestamp, requested_index, request_id } => {
                if response_id != request_id {
                    self.state = SnapshotState::Processing { snapshot_list, timestamp, requested_index, request_id };
                    return SnapshotStep::Nothing;
                }
                let found = self.find_slot(&snapshot_list[requested_index]);
                assert(views(snapshot_list@)[requested_index as int] == snapshot_list@[requested_index as int]@);
                match found {
                    Ok(p) => {
                        let mut actors = Vec::new();
                        std::mem::swap(&mut actors, &mut self.actors);
                        let ghost before = actors@;
                        let slot = actors.remove(p);
                        let ActorSlot { name, addr, metric_list: _ } = slot;
                        let stored = ActorSlot { name, addr, metric_list: Some(metric_list) };
                        actors.insert(p, stored);
                        proof {
                            assert(actors@ =~= before.update(p as int, stored));
                            lemma_slot_map_update(before, p as int, stored);
                            lemma_slot_of_index(before, p as int);
                            assert(slot_names(actors@) =~= slot_names(before));
                        }
                        self.actors = actors;
                    },
                    Err(_) => {},
                }
                assert(requested_index < snapshot_list.len());
                self.run_from(snapshot_list, timestamp, requested_index + 1, request_id)
            },
        }
    }

    /// The awaited request failed: if the response is the awaited one, the snapshot goes on
    /// from the same name, which is asked again if it is still registered.
    pub fn on_error_response(&mut self, response_id: RequestId) -> (r: SnapshotStep<M>)
        ensures
            old(self).is_processing() && response_id == old(self).request_id() ==> Self::ran_from(
                old(self).entries(),
                old(self).snapshot_names(),
                old(self).timestamp(),
                old(self).requested_index(),
                old(self).request_id(),
                *final(self),
                r,
            ),
            !(old(self).is_processing() && response_id == old(self).request_id()) ==> {
                &&& r is Nothing
                &&& final(self).entries() == old(self).entries()
                &&& final(self).same_snapshot(*old(self))
            },
            final(self).names() == old(self).names(),
            final(self).listed(),
            final(self).observer_ids() == old(self).observer_ids(),
    {
        proof {
            use_type_invariant(&*self);
            lemma_names_dom(self.actors@);
        }
        let mut state = SnapshotState::Idle;
        std::mem::swap(&mut state, &mut self.state);
        match state {
            SnapshotState::Idle => SnapshotStep::Nothing,
            SnapshotState::Processing { snapshot_list, timestamp, requested_index, request_id } => {
                if response_id != request_id {
                    self.state = SnapshotState::Processing { snapshot_list, timestamp, requested_index, request_id };
                    return SnapshotStep::Nothing;
                }
                self.run_from(snapshot_list, timestamp, requested_index, request_id)
            },
        }
    }

    /// A snapshot asks only for registered names, in the order of its list and never going
    /// back; when no name is left to ask from `from` on, it ends at once with the
    /// notification of its whole list.
    pub proof fn law_snapshot_moves_forward(
        entries: Map<Seq<char>, (ActorId, Option<Seq<M>>)>,
        list: Seq<Seq<char>>,
        timestamp: Instant,
        from: int,
        request_id: RequestId,
        after: Self,
        step: SnapshotStep<M>,
    )
        requires
            0 <= from <= list.len(),
            Self::ran_from(entries, list, timestamp, from, request_id, after, step),
        ensures
            step is Request ==> {
                &&& after.is_processing()
                &&& from <= after.requested_index() < list.len()
                &&& entries.dom().contains(list[after.requested_index()])
                &&& forall|j: int|
                    from <= j < after.requested_index() ==> !entries.dom().contains(#[trigger] list[j])
            },
            (forall|j: int| from <= j < list.len() ==> !entries.dom().contains(#[trigger] list[j]))
                ==> (step matches SnapshotStep::Notify { names, timestamp: t } && views(names@) == list
                && t == timestamp && !after.is_processing()),
    {
        lemma_next_index(list, entries.dom(), from);
        let k = next_index(list, entries.dom(), from);
        if forall|j: int| from <= j < list.len() ==> !entries.dom().contains(#[trigger] list[j]) {
            if k < list.len() {
                assert(entries.dom().contains(list[k]));
            }
        }
    }
}


impl<M: Clone> AggregatorCore<M> {
    /// The metrics to notify for these names: each registered name, in the order given, with
    /// a copy of its kept metric list (empty when none is kept).
    pub fn report(&self, names: &Vec<String>) -> (r: Vec<(String, Vec<M>)>)
        ensures
            r@.map_values(|x: (String, Vec<M>)| x.0@) == views(names@).filter(is_registered(self.entries())),
            forall|j: int| 0 <= j < r@.len() ==> copies_list(self.entries()[#[trigger] r@[j].0@].1, r@[j].1@),
    {
        proof {
            use_type_invariant(self);
            lemma_sorted_unique(self.actors@);
        }
        let ghost all = views(names@);
        let ghost pred = is_registered(self.entries());
        let mut r: Vec<(String, Vec<M>)> = Vec::new();
        let mut i: usize = 0;
        proof {
            reveal(Seq::filter);
            assert(all.take(0) =~= Seq::<Seq<char>>::empty());
            assert(r@.map_values(|x: (String, Vec<M>)| x.0@) =~= all.take(0).filter(pred));
        }
        while i < names.len()
            invariant
                i <= names@.len(),
                all == views(names@),
                pred == is_registered(self.entries()),
                unique_names(self.actors@),
                r@.map_values(|x: (String, Vec<M>)| x.0@) == all.take(i as int).filter(pred),
                forall|j: int| 0 <= j < r@.len() ==> copies_list(self.entries()[#[trigger] r@[j].0@].1, r@[j].1@),
            decreases names@.len() - i,
        {
            let ghost r_before = r@;
            proof {
                reveal(Seq::filter);
                assert(all.take(i + 1).drop_last() =~= all.take(i as int));
                assert(all.take(i + 1).last() == names@[i as int]@);
            }
            match self.find_slot(&names[i]) {
                Ok(p) => {
                    let copy = match &self.actors[p].metric_list {
                        Some(l) => l.clone(),
                        None => Vec::new(),
                    };
                    proof {
                        lemma_slot_of_index(self.actors@, p as int);
                        assert(self.actors@[p as int].name@ == names@[i as int]@);
                        assert(pred(names@[i as int]@));
                    }
                    r.push((names[i].clone(), copy));
                    proof {
                        assert(r@.map_values(|x: (String, Vec<M>)| x.0@) =~= r_before.map_values(
                            |x: (String, Vec<M>)| x.0@,
                        ).push(names@[i as int]@));
                        assert forall|j: int| 0 <= j < r@.len() implies copies_list(
                            self.entries()[#[trigger] r@[j].0@].1,
                            r@[j].1@,
                        ) by {
                            if j < r_before.len() {
                                assert(r@[j] == r_before[j]);
                            }
                        }
                    }
                },
                Err(_) => {
                    assert(!pred(names@[i as int]@));
                },
            }
            i += 1;
        }
        assert(all.take(i as int) =~= all);
        r
    }
}

} // verus!
