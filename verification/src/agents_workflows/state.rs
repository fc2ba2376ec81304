//! Scoped workflow state with updates queued until the end of a super step.
use vstd::prelude::*;
use crate::assoc::{assoc_map, assoc_unique, lemma_assoc_at, lemma_assoc_dom, lemma_assoc_push, lemma_assoc_update};
use crate::agents_workflows::error::WorkflowError;
use crate::agents_workflows::edge::strings_view;
use crate::external::copy_value;
use crate::text::str_eq;

verus! {

/// A (scope, key) address of a state value.
pub type StatePath = (Seq<char>, Seq<char>);

/// State update operation
pub enum StateUpdate {
    Put(serde_json::Value),
    Delete,
    ClearScope,
}

/// The state after applying one update at `at`: a set stores the value, a
/// delete removes the key, and a scope clear removes every key of the scope
/// of `at`.
pub open spec fn apply_update(state: Map<StatePath, serde_json::Value>, at: StatePath, u: StateUpdate) -> Map<
    StatePath,
    serde_json::Value,
> {
    match u {
        StateUpdate::Put(v) => state.insert(at, v),
        StateUpdate::Delete => state.remove(at),
        StateUpdate::ClearScope => Map::new(|p: StatePath| state.contains_key(p) && p.0 != at.0, |p: StatePath| state[p]),
    }
}

/// The state after applying the queued updates in queue order.
pub open spec fn apply_all(state: Map<StatePath, serde_json::Value>, queue: Seq<(StatePath, StateUpdate)>) -> Map<
    StatePath,
    serde_json::Value,
>
    decreases queue.len(),
{
    if queue.len() == 0 {
        state
    } else {
        apply_update(apply_all(state, queue.drop_last()), queue.last().0, queue.last().1)
    }
}

/// The state manager as the contracts see it: the current state, and the
/// updates queued for the end of the super step, one per address.
pub struct StateView {
    pub state: Map<StatePath, serde_json::Value>,
    pub queued: Map<StatePath, StateUpdate>,
}

/// The keys of scope `scope` in `state`.
pub open spec fn scope_keys(state: Map<StatePath, serde_json::Value>, scope: Seq<char>) -> Set<Seq<char>> {
    Set::new(|k: Seq<char>| state.contains_key((scope, k)))
}

/// The entries of a list of (scope, key, value) triples, as pairs.
pub open spec fn triples_view(s: Seq<(String, String, serde_json::Value)>) -> Seq<(StatePath, serde_json::Value)> {
    s.map_values(|t: (String, String, serde_json::Value)| ((t.0@, t.1@), t.2))
}

/// The entries of a list of queued updates, as pairs.
pub open spec fn queue_view(s: Seq<(String, String, StateUpdate)>) -> Seq<(StatePath, StateUpdate)> {
    s.map_values(|t: (String, String, StateUpdate)| ((t.0@, t.1@), t.2))
}

/// Whether `order` lists each queued update once, in some order.
pub open spec fn is_order_of(order: Seq<(StatePath, StateUpdate)>, queued: Map<StatePath, StateUpdate>) -> bool {
    assoc_unique(order) && assoc_map(order) == queued
}

/// Whether `after` is `before` with the queued updates applied one after the
/// other, in some order.
pub open spec fn applied_in_some_order(
    before: Map<StatePath, serde_json::Value>,
    queued: Map<StatePath, StateUpdate>,
    after: Map<StatePath, serde_json::Value>,
) -> bool {
    exists|order: Seq<(StatePath, StateUpdate)>| #[trigger] is_order_of(order, queued) && after == apply_all(before, order)
}

/// The state that holds no value.
pub open spec fn no_values() -> Map<StatePath, serde_json::Value> {
    Map::empty()
}

/// The queue that holds no update.
pub open spec fn no_updates() -> Map<StatePath, StateUpdate> {
    Map::empty()
}

/// What a map of state values holds, by address.
pub uninterp spec fn value_map_entries(m: dashmap::DashMap<(String, String), serde_json::Value>) -> Map<
    StatePath,
    serde_json::Value,
>;

/// What a map of queued updates holds, by address.
pub uninterp spec fn queued_entries(m: dashmap::DashMap<(String, String), StateUpdate>) -> Map<
    StatePath,
    StateUpdate,
>;

/// Calls `DashMap::new`, which makes an empty map.
#[verifier::external_body]
fn new_value_map() -> (r: dashmap::DashMap<(String, String), serde_json::Value>)
    ensures
        value_map_entries(r) == no_values(),
{
    dashmap::DashMap::new()
}

/// Calls `DashMap::get` at (scope, key) and copies the value it finds: the
/// value stored at that address, if there is one. Keys compare as pairs of
/// strings.
#[verifier::external_body]
fn value_map_get(m: &dashmap::DashMap<(String, String), serde_json::Value>, scope: &str, key: &str) -> (r: Option<
    serde_json::Value,
>)
    ensures
        r == (if value_map_entries(*m).contains_key((scope@, key@)) {
            Some(value_map_entries(*m)[(scope@, key@)])
        } else {
            None
        }),
{
    m.get(&(scope.to_owned(), key.to_owned())).map(|e| e.value().clone())
}

/// Calls `DashMap::insert`, which stores `value` at (scope, key) in place of
/// any value there and leaves the other entries alone.
#[verifier::external_body]
fn value_map_insert(
    m: &mut dashmap::DashMap<(String, String), serde_json::Value>,
    scope: String,
    key: String,
    value: serde_json::Value,
)
    ensures
        value_map_entries(*final(m)) == value_map_entries(*old(m)).insert((scope@, key@), value),
{
    m.insert((scope, key), value);
}

/// Calls `DashMap::remove`, which drops the entry at (scope, key), if any.
#[verifier::external_body]
fn value_map_remove(m: &mut dashmap::DashMap<(String, String), serde_json::Value>, scope: &str, key: &str)
    ensures
        value_map_entries(*final(m)) == value_map_entries(*old(m)).remove((scope@, key@)),
{
    m.remove(&(scope.to_owned(), key.to_owned()));
}

/// Whether the address `k` lies outside `scope`.
fn outside_scope(k: &(String, String), scope: &str) -> (r: bool)
    ensures
        r == (k.0@ != scope@),
{
    !str_eq(k.0.as_str(), scope)
}

/// Calls `DashMap::retain` with `outside_scope`: the entries of `scope` are
/// dropped and the others kept.
#[verifier::external_body]
fn value_map_drop_scope(m: &mut dashmap::DashMap<(String, String), serde_json::Value>, scope: &str)
    ensures
        value_map_entries(*final(m)) == apply_update(
            value_map_entries(*old(m)),
            (scope@, Seq::empty()),
            StateUpdate::ClearScope,
        ),
{
    m.retain(|k, _| outside_scope(k, scope));
}

/// Calls `DashMap::clear`, which drops every entry.
#[verifier::external_body]
fn value_map_clear(m: &mut dashmap::DashMap<(String, String), serde_json::Value>)
    ensures
        value_map_entries(*final(m)) == no_values(),
{
    m.clear();
}

/// Calls `DashMap::iter` and copies each entry it yields: every entry of the
/// map once, in an order that the map's hashing decides and that is not
/// stated.
#[verifier::external_body]
fn value_map_copy_entries(m: &dashmap::DashMap<(String, String), serde_json::Value>) -> (r: Vec<
    (String, String, serde_json::Value),
>)
    ensures
        assoc_unique(triples_view(r@)),
        assoc_map(triples_view(r@)) == value_map_entries(*m),
{
    m.iter().map(|e| (e.key().0.clone(), e.key().1.clone(), e.value().clone())).collect()
}

/// Calls `DashMap::new`, which makes an empty map.
#[verifier::external_body]
fn new_queue_map() -> (r: dashmap::DashMap<(String, String), StateUpdate>)
    ensures
        queued_entries(r) == no_updates(),
{
    dashmap::DashMap::new()
}

/// Calls `DashMap::insert`, which stores `update` at (scope, key) in place of
/// any update there and leaves the other entries alone.
#[verifier::external_body]
fn queue_map_insert(m: &mut dashmap::DashMap<(String, String), StateUpdate>, scope: String, key: String, update: StateUpdate)
    ensures
        queued_entries(*final(m)) == queued_entries(*old(m)).insert((scope@, key@), update),
{
    m.insert((scope, key), update);
}

/// Calls `DashMap::clear`, which drops every entry.
#[verifier::external_body]
fn queue_map_clear(m: &mut dashmap::DashMap<(String, String), StateUpdate>)
    ensures
        queued_entries(*final(m)) == no_updates(),
{
    m.clear();
}

/// Calls `DashMap::iter` and copies each entry it yields with `copy_update`:
/// every entry of the map once, in an order that the map's hashing decides
/// and that is not stated.
#[verifier::external_body]
fn queue_map_copy_entries(m: &dashmap::DashMap<(String, String), StateUpdate>) -> (r: Vec<(String, String, StateUpdate)>)
    ensures
        is_order_of(queue_view(r@), queued_entries(*m)),
{
    m.iter().map(|e| (e.key().0.clone(), e.key().1.clone(), copy_update(e.value()))).collect()
}

/// Manages workflow state across execution steps
pub struct StateManager {
    state: dashmap::DashMap<(String, String), serde_json::Value>,
    queued_updates: dashmap::DashMap<(String, String), StateUpdate>,
}

impl View for StateManager {
    type V = StateView;

    closed spec fn view(&self) -> StateView {
        StateView { state: value_map_entries(self.state), queued: queued_entries(self.queued_updates) }
    }
}

/// Snapshot of state for checkpointing
pub struct StateSnapshot {
    data: Vec<(String, String, serde_json::Value)>,
}

impl View for StateSnapshot {
    type V = Map<StatePath, serde_json::Value>;

    closed spec fn view(&self) -> Map<StatePath, serde_json::Value> {
        assoc_map(triples_view(self.data@))
    }
}

fn copy_update(u: &StateUpdate) -> (r: StateUpdate)
    ensures
        r == *u,
{
    match u {
        StateUpdate::Put(v) => StateUpdate::Put(copy_value(v)),
        StateUpdate::Delete => StateUpdate::Delete,
        StateUpdate::ClearScope => StateUpdate::ClearScope,
    }
}

/// Looks up the entry at (scope, key) in a list of triples.
fn find_entry(s: &Vec<(String, String, serde_json::Value)>, scope: &str, key: &str) -> (r: Option<usize>)
    ensures
        match r {
            Some(i) => i < s@.len() && s@[i as int].0@ == scope@ && s@[i as int].1@ == key@,
            None => !assoc_map(triples_view(s@)).contains_key((scope@, key@)),
        },
{
    let mut i: usize = 0;
    while i < s.len()
        invariant
            i <= s@.len(),
            forall|j: int| 0 <= j < i ==> !((#[trigger] s@[j]).0@ == scope@ && s@[j].1@ == key@),
        decreases s@.len() - i,
    {
        if str_eq(s[i].0.as_str(), scope) && str_eq(s[i].1.as_str(), key) {
            return Some(i);
        }
        i = i + 1;
    }
    proof {
        lemma_assoc_dom(triples_view(s@), (scope@, key@));
        assert forall|j: int| 0 <= j < triples_view(s@).len() implies (#[trigger] triples_view(s@)[j]).0 != (scope@, key@) by {
            assert(!(s@[j].0@ == scope@ && s@[j].1@ == key@));
        }
    }
    None
}

/// Stores `value` at (scope, key) in a list of triples with distinct addresses.
fn store_entry(s: &mut Vec<(String, String, serde_json::Value)>, scope: &str, key: &str, value: serde_json::Value)
    requires
        assoc_unique(triples_view(old(s)@)),
    ensures
        assoc_unique(triples_view(final(s)@)),
        assoc_map(triples_view(final(s)@)) == assoc_map(triples_view(old(s)@)).insert((scope@, key@), value),
{
    match find_entry(s, scope, key) {
        Some(i) => {
            let ghost before = triples_view(s@);
            let scope_s = s[i].0.clone();
            let key_s = s[i].1.clone();
            s.set(i, (scope_s, key_s, value));
            proof {
                assert(triples_view(s@) =~= before.update(i as int, (before[i as int].0, value)));
                lemma_assoc_update(before, i as int, value);
            }
        },
        None => {
            let ghost before = triples_view(s@);
            s.push((scope.to_owned(), key.to_owned(), value));
            proof {
                assert(triples_view(s@) =~= before.push(((scope@, key@), value)));
                lemma_assoc_push(before, (scope@, key@), value);
            }
        },
    }
}

impl StateManager {
    pub fn new() -> (r: Self)
        ensures
            r@.state == Map::<StatePath, serde_json::Value>::empty(),
            r@.queued == Map::<StatePath, StateUpdate>::empty(),
    {
        StateManager { state: new_value_map(), queued_updates: new_queue_map() }
    }

    /// Read a state value from the given scope and key
    pub fn read_state(&self, scope: &str, key: &str) -> (r: Result<Option<serde_json::Value>, WorkflowError>)
        ensures
            r == Ok::<Option<serde_json::Value>, WorkflowError>(
                if self@.state.contains_key((scope@, key@)) {
                    Some(self@.state[(scope@, key@)])
                } else {
                    None
                },
            ),
    {
        Ok(value_map_get(&self.state, scope, key))
    }

    /// Queue a state update for the next super step; it replaces an update
    /// queued at the same address.
    pub fn queue_state_update(&mut self, scope: &str, key: &str, value: serde_json::Value) -> (r: Result<(), WorkflowError>)
        ensures
            r is Ok,
            final(self)@ == (StateView {
                state: old(self)@.state,
                queued: old(self)@.queued.insert((scope@, key@), StateUpdate::Put(value)),
            }),
    {
        queue_map_insert(&mut self.queued_updates, scope.to_owned(), key.to_owned(), StateUpdate::Put(value));
        Ok(())
    }

    /// Queue clearing a scope; the clear is queued at the scope's empty key.
    pub fn queue_clear_scope(&mut self, scope: &str) -> (r: Result<(), WorkflowError>)
        ensures
            r is Ok,
            final(self)@ == (StateView {
                state: old(self)@.state,
                queued: old(self)@.queued.insert((scope@, Seq::empty()), StateUpdate::ClearScope),
            }),
    {
        let key = String::new();
        queue_map_insert(&mut self.queued_updates, scope.to_owned(), key, StateUpdate::ClearScope);
        Ok(())
    }

    /// Apply all queued state updates, one after the other in the order the
    /// queue yields them, and empty the queue
    pub fn apply_queued_updates(&mut self) -> (r: Result<(), WorkflowError>)
        ensures
            r is Ok,
            applied_in_some_order(old(self)@.state, old(self)@.queued, final(self)@.state),
            final(self)@.queued == Map::<StatePath, StateUpdate>::empty(),
    {
        let entries = queue_map_copy_entries(&self.queued_updates);
        let ghost order = queue_view(entries@);
        let ghost start = self@.state;
        let mut i: usize = 0;
        while i < entries.len()
            invariant
                i <= entries@.len(),
                order == queue_view(entries@),
                value_map_entries(self.state) == apply_all(start, order.take(i as int)),
            decreases entries@.len() - i,
        {
            proof {
                assert(order.take(i + 1).drop_last() =~= order.take(i as int));
                assert(order.take(i + 1).last() == order[i as int]);
            }
            let entry = &entries[i];
            match &entry.2 {
                StateUpdate::Put(v) => {
                    value_map_insert(&mut self.state, entry.0.clone(), entry.1.clone(), copy_value(v));
                },
                StateUpdate::Delete => {
                    value_map_remove(&mut self.state, entry.0.as_str(), entry.1.as_str());
                },
                StateUpdate::ClearScope => {
                    value_map_drop_scope(&mut self.state, entry.0.as_str());
                },
            }
            i = i + 1;
        }
        assert(order.take(order.len() as int) =~= order);
        assert(is_order_of(order, old(self)@.queued));
        queue_map_clear(&mut self.queued_updates);
        Ok(())
    }

    /// Read state value, or queue the factory's value if there is none
    pub fn read_or_init_state<F>(&mut self, scope: &str, key: &str, factory: F) -> (r: Result<serde_json::Value, WorkflowError>)
        where F: FnOnce() -> serde_json::Value,
        requires
            factory.requires(()),
        ensures
            if old(self)@.state.contains_key((scope@, key@)) {
                r == Ok::<serde_json::Value, WorkflowError>(old(self)@.state[(scope@, key@)]) && final(self)@ == old(self)@
            } else {
                r matches Ok(v) && factory.ensures((), v) && final(self)@ == (StateView {
                    state: old(self)@.state,
                    queued: old(self)@.queued.insert((scope@, key@), StateUpdate::Put(v)),
                })
            },
    {
        match self.read_state(scope, key) {
            Ok(Some(value)) => Ok(value),
            _ => {
                let value = factory();
                let stored = copy_value(&value);
                queue_map_insert(&mut self.queued_updates, scope.to_owned(), key.to_owned(), StateUpdate::Put(stored));
                Ok(value)
            },
        }
    }

    /// Get all keys in a scope, each once
    pub fn read_state_keys(&self, scope: &str) -> (r: Result<Vec<String>, WorkflowError>)
        ensures
            r matches Ok(keys) && strings_view(keys@).no_duplicates() && strings_view(keys@).to_set() == scope_keys(
                self@.state,
                scope@,
            ),
    {
        let all = value_map_copy_entries(&self.state);
        let ghost src = triples_view(all@);
        let mut keys: Vec<String> = Vec::new();
        let ghost mut idx: Seq<int> = Seq::empty();
        let mut i: usize = 0;
        while i < all.len()
            invariant
                i <= all@.len(),
                src == triples_view(all@),
                assoc_unique(src),
                idx.len() == keys@.len(),
                forall|a: int| 0 <= a < idx.len() ==> 0 <= #[trigger] idx[a] < i && src[idx[a]].0 == (scope@, keys@[a]@),
                forall|a: int, b: int| 0 <= a < b < idx.len() ==> #[trigger] idx[a] < #[trigger] idx[b],
                forall|j: int| 0 <= j < i && (#[trigger] src[j]).0.0 == scope@ ==> exists|a: int| 0 <= a < idx.len() && idx[a] == j,
            decreases all@.len() - i,
        {
            if str_eq(all[i].0.as_str(), scope) {
                keys.push(all[i].1.clone());
                proof {
                    let old_idx = idx;
                    idx = idx.push(i as int);
                    assert forall|j: int| 0 <= j < i + 1 && (#[trigger] src[j]).0.0 == scope@ implies exists|a: int|
                        0 <= a < idx.len() && idx[a] == j by {
                        if j < i {
                            let a = choose|a: int| 0 <= a < old_idx.len() && old_idx[a] == j;
                            assert(idx[a] == j);
                        } else {
                            assert(idx[old_idx.len() as int] == j);
                        }
                    }
                }
            }
            i = i + 1;
        }
        proof {
            let kv = strings_view(keys@);
            assert forall|a: int, b: int| 0 <= a < kv.len() && 0 <= b < kv.len() && a != b implies kv[a] != kv[b] by {
                if a < b {
                    assert(idx[a] < idx[b]);
                } else {
                    assert(idx[b] < idx[a]);
                }
                assert(src[idx[a]].0 != src[idx[b]].0);
            }
            assert forall|k: Seq<char>| kv.to_set().contains(k) == scope_keys(self@.state, scope@).contains(k) by {
                lemma_assoc_dom(src, (scope@, k));
                if kv.contains(k) {
                    let a = choose|a: int| 0 <= a < kv.len() && kv[a] == k;
                    assert(src[idx[a]].0 == (scope@, k));
                }
                if self@.state.contains_key((scope@, k)) {
                    let j = choose|j: int| 0 <= j < src.len() && (#[trigger] src[j]).0 == (scope@, k);
                    let a = choose|a: int| 0 <= a < idx.len() && idx[a] == j;
                    assert(kv[a] == k);
                }
            }
            assert(kv.to_set() =~= scope_keys(self@.state, scope@));
        }
        Ok(keys)
    }

    /// Get a snapshot of all current state
    pub fn get_snapshot(&self) -> (r: StateSnapshot)
        ensures
            r@ == self@.state,
    {
        StateSnapshot { data: value_map_copy_entries(&self.state) }
    }

    /// Restore state from a snapshot; queued updates stay queued
    pub fn restore_from_snapshot(&mut self, snapshot: &StateSnapshot)
        ensures
            final(self)@ == (StateView { state: snapshot@, queued: old(self)@.queued }),
    {
        value_map_clear(&mut self.state);
        let ghost src = triples_view(snapshot.data@);
        let mut i: usize = 0;
        while i < snapshot.data.len()
            invariant
                i <= snapshot.data@.len(),
                src == triples_view(snapshot.data@),
                value_map_entries(self.state) == assoc_map(src.take(i as int)),
                queued_entries(self.queued_updates) == old(self)@.queued,
            decreases snapshot.data@.len() - i,
        {
            proof {
                assert(src.take(i + 1).drop_last() =~= src.take(i as int));
                assert(src.take(i + 1).last() == src[i as int]);
            }
            let entry = &snapshot.data[i];
            value_map_insert(&mut self.state, entry.0.clone(), entry.1.clone(), copy_value(&entry.2));
            i = i + 1;
        }
        assert(src.take(src.len() as int) =~= src);
    }
}

impl Default for StateManager {
    fn default() -> (r: Self)
        ensures
            r@.state == Map::<StatePath, serde_json::Value>::empty(),
            r@.queued == Map::<StatePath, StateUpdate>::empty(),
    {
        Self::new()
    }
}

impl StateSnapshot {
    /// The invariant: no address occurs twice.
    #[verifier::type_invariant]
    spec fn wf(&self) -> bool {
        assoc_unique(triples_view(self.data@))
    }

    pub fn new() -> (r: Self)
        ensures
            r@ == Map::<StatePath, serde_json::Value>::empty(),
    {
        let r = StateSnapshot { data: Vec::new() };
        assert(r@ =~= Map::<StatePath, serde_json::Value>::empty());
        r
    }

    /// Stores `value` at (scope, key) in the snapshot.
    pub fn insert(&mut self, scope: String, key: String, value: serde_json::Value)
        ensures
            final(self)@ == old(self)@.insert((scope@, key@), value),
    {
        proof { use_type_invariant(&*self); }
        let mut data: Vec<(String, String, serde_json::Value)> = Vec::new();
        std::mem::swap(&mut data, &mut self.data);
        store_entry(&mut data, scope.as_str(), key.as_str(), value);
        self.data = data;
    }

    /// The (scope, key, value) entries of the snapshot.
    pub fn entries(&self) -> (r: &Vec<(String, String, serde_json::Value)>)
        ensures
            assoc_map(triples_view(r@)) == self@,
            assoc_unique(triples_view(r@)),
    {
        proof { use_type_invariant(self); }
        &self.data
    }
}

impl Default for StateSnapshot {
    fn default() -> (r: Self)
        ensures
            r@ == Map::<StatePath, serde_json::Value>::empty(),
    {
        Self::new()
    }
}

/// Queueing twice at the same address keeps only the later update: the last
/// write before a super step ends wins.
pub proof fn law_last_queued_update_wins(
    queued: Map<StatePath, StateUpdate>,
    at: StatePath,
    first: StateUpdate,
    second: StateUpdate,
)
    ensures
        queued.insert(at, first).insert(at, second) == queued.insert(at, second),
{
    assert(queued.insert(at, first).insert(at, second) =~= queued.insert(at, second));
}

/// Whether the queue holds a scope clear for `scope` after position `i`.
pub open spec fn clears_after(queue: Seq<(StatePath, StateUpdate)>, i: int, scope: Seq<char>) -> bool {
    exists|j: int| i < j < queue.len() && (#[trigger] queue[j]).0.0 == scope && queue[j].1 is ClearScope
}

/// A value queued at an address is read back once the queue is applied,
/// unless a clear of its scope is queued after it.
pub proof fn law_applied_write_is_read_back(
    state: Map<StatePath, serde_json::Value>,
    queue: Seq<(StatePath, StateUpdate)>,
    i: int,
)
    requires
        assoc_unique(queue),
        0 <= i < queue.len(),
        queue[i].1 is Put,
        !clears_after(queue, i, queue[i].0.0),
    ensures
        apply_all(state, queue).contains_key(queue[i].0),
        apply_all(state, queue)[queue[i].0] == queue[i].1->Put_0,
    decreases queue.len(),
{
    let d = queue.drop_last();
    if i < queue.len() - 1 {
        assert forall|a: int, b: int| 0 <= a < d.len() && 0 <= b < d.len() && a != b implies (#[trigger] d[a]).0 != (#[trigger] d[b]).0 by {
            assert(d[a] == queue[a] && d[b] == queue[b]);
        }
        assert(d[i] == queue[i]);
        if clears_after(d, i, queue[i].0.0) {
            let j = choose|j: int| i < j < d.len() && (#[trigger] d[j]).0.0 == queue[i].0.0 && d[j].1 is ClearScope;
            assert(queue[j] == d[j]);
        }
        law_applied_write_is_read_back(state, d, i);
        let last = queue.last();
        assert(last.0 != queue[i].0);
        if last.1 is ClearScope {
            assert(!(last.0.0 == queue[i].0.0));
        }
    }
}

/// In an order of a queue, the update at each address is the one queued
/// there.
proof fn lemma_order_entry(order: Seq<(StatePath, StateUpdate)>, queued: Map<StatePath, StateUpdate>, j: int)
    requires
        is_order_of(order, queued),
        0 <= j < order.len(),
    ensures
        queued.contains_key(order[j].0),
        queued[order[j].0] == order[j].1,
{
    lemma_assoc_at(order, j);
}

/// Queueing a value and applying the queue makes the value readable, in
/// whatever order the queue is applied, when no clear of its scope is queued.
pub proof fn law_write_then_apply_reads_back(
    view: StateView,
    scope: Seq<char>,
    key: Seq<char>,
    value: serde_json::Value,
    order: Seq<(StatePath, StateUpdate)>,
)
    requires
        forall|p: StatePath| #[trigger] view.queued.contains_key(p) && p.0 == scope ==> !(view.queued[p] is ClearScope),
        is_order_of(order, view.queued.insert((scope, key), StateUpdate::Put(value))),
    ensures
        apply_all(view.state, order).contains_key((scope, key)),
        apply_all(view.state, order)[(scope, key)] == value,
{
    let nq = view.queued.insert((scope, key), StateUpdate::Put(value));
    lemma_assoc_dom(order, (scope, key));
    let i = choose|i: int| 0 <= i < order.len() && (#[trigger] order[i]).0 == (scope, key);
    lemma_order_entry(order, nq, i);
    if clears_after(order, i, scope) {
        let j = choose|j: int| i < j < order.len() && (#[trigger] order[j]).0.0 == scope && order[j].1 is ClearScope;
        lemma_order_entry(order, nq, j);
        assert(order[j].0 != (scope, key));
        assert(view.queued.contains_key(order[j].0));
    }
    law_applied_write_is_read_back(view.state, order, i);
}

/// A snapshot taken with `get_snapshot` and restored with
/// `restore_from_snapshot` brings the state back to what it was when the
/// snapshot was taken, whatever was written and applied in between, and
/// keeps the updates queued at the time of the restore.
pub proof fn law_snapshot_round_trip(
    taken: StateView,
    snapshot: StateSnapshot,
    later: StateView,
    restored: StateView,
)
    requires
        snapshot@ == taken.state,
        restored == (StateView { state: snapshot@, queued: later.queued }),
    ensures
        restored.state == taken.state,
        restored.queued == later.queued,
        forall|p: StatePath| #[trigger] restored.state.contains_key(p) == taken.state.contains_key(p),
{
}

/// Clearing a scope and applying the queue leaves the scope without keys, in
/// whatever order the queue is applied, when no value of that scope is
/// queued.
pub proof fn law_clear_then_apply_empties_scope(view: StateView, scope: Seq<char>, order: Seq<(StatePath, StateUpdate)>)
    requires
        forall|p: StatePath| #[trigger] view.queued.contains_key(p) && p.0 == scope ==> !(view.queued[p] is Put),
        is_order_of(order, view.queued.insert((scope, Seq::empty()), StateUpdate::ClearScope)),
    ensures
        scope_keys(apply_all(view.state, order), scope) == Set::<Seq<char>>::empty(),
{
    let at = (scope, Seq::<char>::empty());
    let nq = view.queued.insert(at, StateUpdate::ClearScope);
    lemma_assoc_dom(order, at);
    let i = choose|i: int| 0 <= i < order.len() && (#[trigger] order[i]).0 == at;
    lemma_order_entry(order, nq, i);
    assert forall|j: int| 0 <= j < order.len() implies !((#[trigger] order[j]).0.0 == scope && order[j].1 is Put) by {
        lemma_order_entry(order, nq, j);
        if order[j].0 != at {
            assert(view.queued.contains_key(order[j].0));
        }
    }
    lemma_scope_stays_clear(view.state, order, i, scope);
    assert(scope_keys(apply_all(view.state, order), scope) =~= Set::<Seq<char>>::empty());
}

/// After a clear of `scope` at position `i`, and no later write into the
/// scope, the scope holds no key.
proof fn lemma_scope_stays_clear(state: Map<StatePath, serde_json::Value>, queue: Seq<(StatePath, StateUpdate)>, i: int, scope: Seq<char>)
    requires
        0 <= i < queue.len(),
        queue[i].0.0 == scope,
        queue[i].1 is ClearScope,
        forall|j: int| 0 <= j < queue.len() ==> !((#[trigger] queue[j]).0.0 == scope && queue[j].1 is Put),
    ensures
        forall|k: Seq<char>| !(#[trigger] apply_all(state, queue).contains_key((scope, k))),
    decreases queue.len(),
{
    let d = queue.drop_last();
    if i < queue.len() - 1 {
        assert(d[i] == queue[i]);
        assert forall|j: int| 0 <= j < d.len() implies !((#[trigger] d[j]).0.0 == scope && d[j].1 is Put) by {
            assert(d[j] == queue[j]);
        }
        lemma_scope_stays_clear(state, d, i, scope);
    }
    let last = queue.last();
    assert(!(last.0.0 == scope && last.1 is Put));
    let prev = apply_all(state, d);
    assert(apply_all(state, queue) == apply_update(prev, last.0, last.1));
    assert forall|k: Seq<char>| !(#[trigger] apply_all(state, queue).contains_key((scope, k))) by {
        if i == queue.len() - 1 {
            assert(last.1 is ClearScope && last.0.0 == scope);
        } else {
            assert(!prev.contains_key((scope, k)));
            match last.1 {
                StateUpdate::Put(v) => {
                    assert(last.0 != (scope, k));
                },
                _ => {},
            }
        }
    }
}

} // verus!
