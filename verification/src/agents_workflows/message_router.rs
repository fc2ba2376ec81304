//! Routing of messages between executors along the edges of a workflow.
use vstd::prelude::*;
use crate::agents_workflows::edge::{Edge, EdgeOutcome, no_calls, outcome_records, EdgeShape, EdgeView, all_indices, edge_routes, fan_out_routes, opt_str_view, route_targets_view, strings_view, strs_view};
use crate::agents_workflows::error::WorkflowError;
use crate::text::{contains_string, str_eq};

verus! {

/// The edges that leave `source`, in the order they were added, from a
/// routing table of (source, edge) entries.
pub open spec fn edges_from(entries: Seq<(Seq<char>, EdgeView)>, source: Seq<char>) -> Seq<EdgeView>
    decreases entries.len(),
{
    if entries.len() == 0 {
        Seq::empty()
    } else {
        edges_from(entries.drop_last(), source) + if entries.last().0 == source {
            seq![entries.last().1]
        } else {
            Seq::empty()
        }
    }
}

/// The messages routed when `source` sends `msg` (to `target` only, when it
/// is given), edge after edge in table order, given what each entry's
/// closures answered.
pub open spec fn routed(
    entries: Seq<(Seq<char>, EdgeView)>,
    source: Seq<char>,
    msg: serde_json::Value,
    target: Option<Seq<char>>,
    outcomes: Seq<EdgeOutcome>,
) -> Seq<(Seq<char>, serde_json::Value)>
    decreases entries.len(),
{
    if entries.len() == 0 || outcomes.len() == 0 {
        Seq::empty()
    } else {
        routed(entries.drop_last(), source, msg, target, outcomes.drop_last()) + if entries.last().0 == source {
            edge_routes(entries.last().1, source, msg, target, outcomes.last())
        } else {
            Seq::empty()
        }
    }
}

/// Whether `outcomes` records, entry by entry, the calls that routing `msg`
/// from `source` makes: the closures of each edge leaving `source` are called
/// as `outcome_records` says, and no closure of another entry is called.
pub open spec fn calls_recorded(
    entries: Seq<(Seq<char>, EdgeView)>,
    source: Seq<char>,
    msg: serde_json::Value,
    target: Option<Seq<char>>,
    outcomes: Seq<EdgeOutcome>,
) -> bool {
    &&& outcomes.len() == entries.len()
    &&& forall|i: int| 0 <= i < entries.len() ==> if entries[i].0 == source {
        outcome_records(entries[i].1, source, msg, target, #[trigger] outcomes[i])
    } else {
        outcomes[i] == no_calls()
    }
}

/// The executors that some edge leaving `source` leads to.
pub open spec fn targets_from(entries: Seq<(Seq<char>, EdgeView)>, source: Seq<char>) -> Set<Seq<char>> {
    Set::new(|t: Seq<char>| exists|i: int| 0 <= i < entries.len() && entries[i].0 == source
        && #[trigger] entries[i].1.targets().contains(t))
}

/// The executors that have an edge leading to `target`.
pub open spec fn sources_to(entries: Seq<(Seq<char>, EdgeView)>, target: Seq<char>) -> Set<Seq<char>> {
    Set::new(|s: Seq<char>| exists|i: int| 0 <= i < entries.len() && #[trigger] entries[i].0 == s
        && entries[i].1.targets().contains(target))
}

/// Every executor that some edge leaves from.
pub open spec fn all_sources(entries: Seq<(Seq<char>, EdgeView)>) -> Set<Seq<char>> {
    Set::new(|s: Seq<char>| exists|i: int| 0 <= i < entries.len() && #[trigger] entries[i].0 == s)
}

/// Every executor that some edge leads to.
pub open spec fn all_targets(entries: Seq<(Seq<char>, EdgeView)>) -> Set<Seq<char>> {
    Set::new(|t: Seq<char>| exists|i: int| 0 <= i < entries.len() && #[trigger] entries[i].1.targets().contains(t))
}

/// Whether step `k` of `p` follows an edge: `p[k + 1]` is a target of an
/// edge leaving `p[k]`.
pub open spec fn path_step(entries: Seq<(Seq<char>, EdgeView)>, p: Seq<Seq<char>>, k: int) -> bool {
    targets_from(entries, p[k]).contains(p[k + 1])
}

/// Whether `p` is a path along the edges of the table: at least one step,
/// each from an executor to a target of one of its edges.
pub open spec fn is_path(entries: Seq<(Seq<char>, EdgeView)>, p: Seq<Seq<char>>) -> bool {
    &&& p.len() >= 2
    &&& forall|k: int| 0 <= k < p.len() - 1 ==> #[trigger] path_step(entries, p, k)
}

/// Whether a path leads from `s` to `t`.
pub open spec fn reachable(entries: Seq<(Seq<char>, EdgeView)>, s: Seq<char>, t: Seq<char>) -> bool {
    exists|p: Seq<Seq<char>>| #[trigger] is_path(entries, p) && p[0] == s && p.last() == t
}

/// Routes messages between executors based on workflow edges. The table
/// holds one entry per (source executor, edge) pair, in the order the edges
/// were added; an edge with several sources has one entry per source.
pub struct MessageRouter {
    entries: Vec<(String, Edge)>,
}

impl View for MessageRouter {
    type V = Seq<(Seq<char>, EdgeView)>;

    closed spec fn view(&self) -> Seq<(Seq<char>, EdgeView)> {
        self.entries@.map_values(|p: (String, Edge)| (p.0@, p.1@))
    }
}

/// Target for message routing
pub use crate::agents_workflows::edge::RouteTarget;

/// Statistics about the message router
#[derive(Debug)]
pub struct RouterStats {
    pub total_edges: usize,
    pub executors_with_outgoing: usize,
    pub total_target_executors: usize,
}

/// Adds `s` to `set` unless it is there already.
pub(crate) fn insert_unique(set: &mut Vec<String>, s: &str)
    ensures
        strings_view(old(set)@).no_duplicates() ==> strings_view(final(set)@).no_duplicates(),
        strings_view(final(set)@).to_set() == strings_view(old(set)@).to_set().insert(s@),
{
    let ghost before = strings_view(set@);
    let mut i: usize = 0;
    while i < set.len()
        invariant
            i <= set@.len(),
            before == strings_view(set@),
            forall|j: int| 0 <= j < i ==> #[trigger] set@[j]@ != s@,
        decreases set@.len() - i,
    {
        if str_eq(set[i].as_str(), s) {
            assert(before[i as int] == s@);
            assert(before.to_set().insert(s@) =~= before.to_set());
            return;
        }
        i = i + 1;
    }
    set.push(s.to_owned());
    let ghost after = strings_view(set@);
    assert(after =~= before.push(s@));
    proof {
        before.lemma_push_to_set_commute(s@);
        assert(!before.contains(s@));
    }
}

/// The prefix of length `i + 1` of a table is the prefix of length `i`
/// followed by entry `i`.
proof fn lemma_take_step(entries: Seq<(Seq<char>, EdgeView)>, i: int)
    requires
        0 <= i < entries.len(),
    ensures
        forall|j: int| 0 <= j < i ==> #[trigger] entries.take(i + 1)[j] == entries.take(i)[j],
        entries.take(i + 1)[i] == entries[i],
        entries.take(i + 1).len() == i + 1,
{
}

proof fn lemma_targets_from_step(entries: Seq<(Seq<char>, EdgeView)>, i: int, source: Seq<char>)
    requires
        0 <= i < entries.len(),
    ensures
        targets_from(entries.take(i + 1), source) == targets_from(entries.take(i), source).union(
            if entries[i].0 == source { entries[i].1.targets().to_set() } else { Set::empty() }),
{
    lemma_take_step(entries, i);
    let prev = entries.take(i);
    let next = entries.take(i + 1);
    assert forall|t: Seq<char>| #[trigger] targets_from(next, source).contains(t) implies targets_from(prev, source).union(
        if entries[i].0 == source { entries[i].1.targets().to_set() } else { Set::empty() }).contains(t) by {
        let j = choose|j: int| 0 <= j < i + 1 && next[j].0 == source && #[trigger] next[j].1.targets().contains(t);
        if j < i {
            assert(prev[j] == next[j]);
        }
    }
    assert forall|t: Seq<char>| targets_from(prev, source).union(
        if entries[i].0 == source { entries[i].1.targets().to_set() } else { Set::empty() }).contains(t)
        implies #[trigger] targets_from(next, source).contains(t) by {
        if targets_from(prev, source).contains(t) {
            let j = choose|j: int| 0 <= j < i && prev[j].0 == source && #[trigger] prev[j].1.targets().contains(t);
            assert(prev[j] == next[j]);
        } else {
            assert(next[i].1.targets().contains(t));
        }
    }
    assert(targets_from(next, source) =~= targets_from(prev, source).union(
        if entries[i].0 == source { entries[i].1.targets().to_set() } else { Set::empty() }));
}

proof fn lemma_sources_to_step(entries: Seq<(Seq<char>, EdgeView)>, i: int, target: Seq<char>)
    requires
        0 <= i < entries.len(),
    ensures
        sources_to(entries.take(i + 1), target) == sources_to(entries.take(i), target).union(
            if entries[i].1.targets().contains(target) { set![entries[i].0] } else { Set::empty() }),
{
    lemma_take_step(entries, i);
    let prev = entries.take(i);
    let next = entries.take(i + 1);
    let extra = if entries[i].1.targets().contains(target) { set![entries[i].0] } else { Set::empty() };
    assert forall|s: Seq<char>| #[trigger] sources_to(next, target).contains(s) implies sources_to(prev, target).union(extra).contains(s) by {
        let j = choose|j: int| 0 <= j < i + 1 && #[trigger] next[j].0 == s && next[j].1.targets().contains(target);
        if j < i {
            assert(prev[j] == next[j]);
        }
    }
    assert forall|s: Seq<char>| sources_to(prev, target).union(extra).contains(s) implies #[trigger] sources_to(next, target).contains(s) by {
        if sources_to(prev, target).contains(s) {
            let j = choose|j: int| 0 <= j < i && #[trigger] prev[j].0 == s && prev[j].1.targets().contains(target);
            assert(prev[j] == next[j]);
        } else {
            assert(next[i].0 == s);
        }
    }
    assert(sources_to(next, target) =~= sources_to(prev, target).union(extra));
}

proof fn lemma_all_sources_step(entries: Seq<(Seq<char>, EdgeView)>, i: int)
    requires
        0 <= i < entries.len(),
    ensures
        all_sources(entries.take(i + 1)) == all_sources(entries.take(i)).insert(entries[i].0),
{
    lemma_take_step(entries, i);
    let prev = entries.take(i);
    let next = entries.take(i + 1);
    assert forall|s: Seq<char>| #[trigger] all_sources(next).contains(s) implies all_sources(prev).insert(entries[i].0).contains(s) by {
        let j = choose|j: int| 0 <= j < i + 1 && #[trigger] next[j].0 == s;
        if j < i {
            assert(prev[j] == next[j]);
        }
    }
    assert forall|s: Seq<char>| all_sources(prev).insert(entries[i].0).contains(s) implies #[trigger] all_sources(next).contains(s) by {
        if all_sources(prev).contains(s) {
            let j = choose|j: int| 0 <= j < i && #[trigger] prev[j].0 == s;
            assert(prev[j] == next[j]);
        } else {
            assert(next[i].0 == s);
        }
    }
    assert(all_sources(next) =~= all_sources(prev).insert(entries[i].0));
}

proof fn lemma_all_targets_step(entries: Seq<(Seq<char>, EdgeView)>, i: int)
    requires
        0 <= i < entries.len(),
    ensures
        all_targets(entries.take(i + 1)) == all_targets(entries.take(i)).union(entries[i].1.targets().to_set()),
{
    lemma_take_step(entries, i);
    let prev = entries.take(i);
    let next = entries.take(i + 1);
    assert forall|t: Seq<char>| #[trigger] all_targets(next).contains(t) implies all_targets(prev).union(
        entries[i].1.targets().to_set()).contains(t) by {
        let j = choose|j: int| 0 <= j < i + 1 && #[trigger] next[j].1.targets().contains(t);
        if j < i {
            assert(prev[j] == next[j]);
        }
    }
    assert forall|t: Seq<char>| all_targets(prev).union(entries[i].1.targets().to_set()).contains(t)
        implies #[trigger] all_targets(next).contains(t) by {
        if all_targets(prev).contains(t) {
            let j = choose|j: int| 0 <= j < i && #[trigger] prev[j].1.targets().contains(t);
            assert(prev[j] == next[j]);
        } else {
            assert(next[i].1.targets().contains(t));
        }
    }
    assert(all_targets(next) =~= all_targets(prev).union(entries[i].1.targets().to_set()));
}

/// A target of an edge leaving `s` is reachable from `s`.
pub proof fn law_edge_is_a_path(entries: Seq<(Seq<char>, EdgeView)>, s: Seq<char>, t: Seq<char>)
    requires
        targets_from(entries, s).contains(t),
    ensures
        reachable(entries, s, t),
{
    let p = seq![s, t];
    assert(path_step(entries, p, 0));
    assert(is_path(entries, p));
}

/// A target of an edge leaving an executor reachable from `s` is reachable
/// from `s`.
pub proof fn law_path_extends_along_edges(entries: Seq<(Seq<char>, EdgeView)>, s: Seq<char>, v: Seq<char>, t: Seq<char>)
    requires
        reachable(entries, s, v),
        targets_from(entries, v).contains(t),
    ensures
        reachable(entries, s, t),
{
    let p = choose|p: Seq<Seq<char>>| #[trigger] is_path(entries, p) && p[0] == s && p.last() == v;
    let q = p.push(t);
    assert forall|k: int| 0 <= k < q.len() - 1 implies #[trigger] path_step(entries, q, k) by {
        if k < p.len() - 1 {
            assert(path_step(entries, p, k));
            assert(q[k] == p[k] && q[k + 1] == p[k + 1]);
        } else {
            assert(q[k] == v && q[k + 1] == t);
        }
    }
    assert(is_path(entries, q));
    assert(q[0] == s && q.last() == t);
}

/// Every executor after the first on a path from `s` lies in a set `c` that
/// holds the targets of `s` and the targets of each of its members.
proof fn lemma_path_in_closure(entries: Seq<(Seq<char>, EdgeView)>, p: Seq<Seq<char>>, s: Seq<char>, c: Set<Seq<char>>)
    requires
        is_path(entries, p),
        p[0] == s,
        targets_from(entries, s).subset_of(c),
        forall|v: Seq<char>| #[trigger] c.contains(v) ==> targets_from(entries, v).subset_of(c),
    ensures
        c.contains(p.last()),
    decreases p.len(),
{
    assert(path_step(entries, p, p.len() - 2));
    if p.len() == 2 {
        assert(targets_from(entries, p[0]).contains(p[1]));
    } else {
        let d = p.drop_last();
        assert forall|k: int| 0 <= k < d.len() - 1 implies #[trigger] path_step(entries, d, k) by {
            assert(path_step(entries, p, k));
        }
        lemma_path_in_closure(entries, d, s, c);
        assert(c.contains(p[p.len() - 2]));
    }
}

/// A list without duplicates whose strings all lie among those of `u` is no
/// longer than `u`.
proof fn lemma_unique_within(v: Seq<Seq<char>>, u: Seq<Seq<char>>)
    requires
        v.no_duplicates(),
        v.to_set().subset_of(u.to_set()),
    ensures
        v.len() <= u.len(),
{
    v.unique_seq_to_set();
    u.lemma_cardinality_of_set();
    vstd::seq_lib::seq_to_set_is_finite(u);
    vstd::set_lib::lemma_len_subset(v.to_set(), u.to_set());
}

/// Whether `s` occurs among the string slices of `v`.
fn strs_contain(v: &Vec<&str>, s: &str) -> (r: bool)
    ensures
        r == strs_view(v@).contains(s@),
{
    let mut i: usize = 0;
    while i < v.len()
        invariant
            i <= v@.len(),
            forall|j: int| 0 <= j < i ==> #[trigger] v@[j]@ != s@,
        decreases v@.len() - i,
    {
        if str_eq(v[i], s) {
            assert(strs_view(v@)[i as int] == s@);
            return true;
        }
        i = i + 1;
    }
    assert forall|j: int| 0 <= j < strs_view(v@).len() implies strs_view(v@)[j] != s@ by {
        assert(v@[j]@ != s@);
    }
    false
}

/// Adds every string of `ts` to `set`, skipping those already there.
pub(crate) fn insert_all_unique(set: &mut Vec<String>, ts: &Vec<&str>)
    ensures
        strings_view(old(set)@).no_duplicates() ==> strings_view(final(set)@).no_duplicates(),
        strings_view(final(set)@).to_set() == strings_view(old(set)@).to_set().union(strs_view(ts@).to_set()),
{
    let ghost start = strings_view(set@).to_set();
    let mut k: usize = 0;
    while k < ts.len()
        invariant
            k <= ts@.len(),
            strings_view(old(set)@).no_duplicates() ==> strings_view(set@).no_duplicates(),
            strings_view(set@).to_set() == start.union(strs_view(ts@).take(k as int).to_set()),
        decreases ts@.len() - k,
    {
        insert_unique(set, ts[k]);
        proof {
            assert(strs_view(ts@).take(k + 1) =~= strs_view(ts@).take(k as int).push(strs_view(ts@)[k as int]));
            strs_view(ts@).take(k as int).lemma_push_to_set_commute(strs_view(ts@)[k as int]);
        }
        k = k + 1;
        assert(strings_view(set@).to_set() =~= start.union(strs_view(ts@).take(k as int).to_set()));
    }
    assert(strs_view(ts@).take(ts@.len() as int) =~= strs_view(ts@));
}

impl MessageRouter {
    pub fn new() -> (r: Self)
        ensures
            r@ == Seq::<(Seq<char>, EdgeView)>::empty(),
    {
        MessageRouter { entries: Vec::new() }
    }

    /// Add an edge to the router: one entry for each of its sources.
    pub fn add_edge(&mut self, edge: Edge)
        ensures
            final(self)@ == old(self)@ + edge@.sources().map_values(|s: Seq<char>| (s, edge@)),
    {
        let sources = edge.source_ids();
        let ghost srcs = edge@.sources();
        let ghost start = self.entries@;
        let mut i: usize = 0;
        while i < sources.len()
            invariant
                i <= sources@.len(),
                strs_view(sources@) == srcs,
                self.entries@.len() == start.len() + i,
                forall|k: int| 0 <= k < start.len() ==> #[trigger] self.entries@[k] == start[k],
                forall|k: int| 0 <= k < i ==> (#[trigger] self.entries@[start.len() + k]).0@ == srcs[k]
                    && self.entries@[start.len() + k].1@ == edge@,
            decreases sources@.len() - i,
        {
            let e = edge.clone();
            assert(srcs[i as int] == sources@[i as int]@);
            self.entries.push((sources[i].to_owned(), e));
            assert(self.entries@[start.len() + i] == self.entries@.last());
            i = i + 1;
        }
        assert forall|k: int| 0 <= k < self@.len() implies #[trigger] self@[k] == (old(self)@ + srcs.map_values(
            |s: Seq<char>| (s, edge@)))[k] by {
            if k >= start.len() {
                assert(self.entries@[start.len() + (k - start.len())] == self.entries@[k]);
            }
        }
        assert(self@ =~= old(self)@ + srcs.map_values(|s: Seq<char>| (s, edge@)));
    }

    /// Route a message from a source executor: each edge leaving the source,
    /// in the order the edges were added, contributes its targets.
    pub fn route_message(
        &self,
        source_id: &str,
        message: &serde_json::Value,
        target_id: Option<&str>,
    ) -> (r: Result<Vec<RouteTarget>, WorkflowError>)
        ensures
            r matches Ok(targets) && exists|outcomes: Seq<EdgeOutcome>|
                calls_recorded(self@, source_id@, *message, opt_str_view(target_id), outcomes)
                    && #[trigger] routed(self@, source_id@, *message, opt_str_view(target_id), outcomes)
                    == route_targets_view(targets@),
    {
        let mut targets: Vec<RouteTarget> = Vec::new();
        let ghost mut outcomes: Seq<EdgeOutcome> = Seq::empty();
        let ghost target = opt_str_view(target_id);
        let mut i: usize = 0;
        while i < self.entries.len()
            invariant
                i <= self@.len(),
                target == opt_str_view(target_id),
                outcomes.len() == i,
                forall|k: int| 0 <= k < i ==> if self@[k].0 == source_id@ {
                    outcome_records(self@[k].1, source_id@, *message, target, #[trigger] outcomes[k])
                } else {
                    outcomes[k] == no_calls()
                },
                route_targets_view(targets@) == routed(self@.take(i as int), source_id@, *message, target, outcomes),
            decreases self@.len() - i,
        {
            let entry = &self.entries[i];
            assert(self@[i as int] == (entry.0@, entry.1@));
            let ghost before = route_targets_view(targets@);
            proof {
                assert(self@.take(i + 1).drop_last() =~= self@.take(i as int));
                assert(self@.take(i + 1).last() == self@[i as int]);
            }
            let ghost prev_outcomes = outcomes;
            let ghost step: Seq<(Seq<char>, serde_json::Value)>;
            if str_eq(entry.0.as_str(), source_id) {
                let out = entry.1.route_into(source_id, message, target_id, &mut targets);
                proof {
                    outcomes = outcomes.push(out@);
                    step = edge_routes(self@[i as int].1, source_id@, *message, target, out@);
                }
            } else {
                proof {
                    outcomes = outcomes.push(no_calls());
                    step = Seq::empty();
                    assert(before + Seq::<(Seq<char>, serde_json::Value)>::empty() =~= before);
                }
            }
            proof {
                let next = self@.take(i + 1);
                assert(outcomes.drop_last() =~= prev_outcomes);
                assert(next.drop_last() =~= self@.take(i as int));
                assert(next.last() == self@[i as int]);
                assert(outcomes.last() == outcomes[i as int]);
                assert(route_targets_view(targets@) == before + step);
                assert(routed(next, source_id@, *message, target, outcomes) == routed(
                    next.drop_last(), source_id@, *message, target, outcomes.drop_last()) + step);
            }
            i = i + 1;
        }
        assert(self@.take(self@.len() as int) =~= self@);
        Ok(targets)
    }

    /// Get all possible target executor IDs from a source, each once.
    pub fn get_targets(&self, source_id: &str) -> (r: Vec<String>)
        ensures
            strings_view(r@).no_duplicates(),
            strings_view(r@).to_set() == targets_from(self@, source_id@),
    {
        let mut r: Vec<String> = Vec::new();
        let mut i: usize = 0;
        assert(targets_from(self@.take(0), source_id@) =~= Set::empty());
        while i < self.entries.len()
            invariant
                i <= self@.len(),
                strings_view(r@).no_duplicates(),
                strings_view(r@).to_set() == targets_from(self@.take(i as int), source_id@),
            decreases self@.len() - i,
        {
            let entry = &self.entries[i];
            assert(self@[i as int] == (entry.0@, entry.1@));
            let ghost prev = strings_view(r@).to_set();
            if str_eq(entry.0.as_str(), source_id) {
                let ts = entry.1.target_ids();
                insert_all_unique(&mut r, &ts);
            } else {
                assert(prev.union(Set::empty()) =~= prev);
            }
            proof { lemma_targets_from_step(self@, i as int, source_id@); }
            i = i + 1;
        }
        assert(self@.take(self@.len() as int) =~= self@);
        r
    }

    /// Get all source executor IDs that can reach a target, each once.
    pub fn get_sources(&self, target_id: &str) -> (r: Vec<String>)
        ensures
            strings_view(r@).no_duplicates(),
            strings_view(r@).to_set() == sources_to(self@, target_id@),
    {
        let mut r: Vec<String> = Vec::new();
        let mut i: usize = 0;
        assert(sources_to(self@.take(0), target_id@) =~= Set::empty());
        while i < self.entries.len()
            invariant
                i <= self@.len(),
                strings_view(r@).no_duplicates(),
                strings_view(r@).to_set() == sources_to(self@.take(i as int), target_id@),
            decreases self@.len() - i,
        {
            let entry = &self.entries[i];
            assert(self@[i as int] == (entry.0@, entry.1@));
            let ghost prev = strings_view(r@).to_set();
            let ts = entry.1.target_ids();
            if strs_contain(&ts, target_id) {
                insert_unique(&mut r, entry.0.as_str());
                assert(prev.insert(entry.0@) =~= prev.union(set![entry.0@]));
            } else {
                assert(prev.union(Set::empty()) =~= prev);
            }
            proof { lemma_sources_to_step(self@, i as int, target_id@); }
            i = i + 1;
        }
        assert(self@.take(self@.len() as int) =~= self@);
        r
    }

    /// Every executor that some edge leads to, each once.
    fn all_target_ids(&self) -> (r: Vec<String>)
        ensures
            strings_view(r@).no_duplicates(),
            strings_view(r@).to_set() == all_targets(self@),
    {
        let mut targets: Vec<String> = Vec::new();
        let mut i: usize = 0;
        assert(all_targets(self@.take(0)) =~= Set::empty());
        while i < self.entries.len()
            invariant
                i <= self@.len(),
                strings_view(targets@).no_duplicates(),
                strings_view(targets@).to_set() == all_targets(self@.take(i as int)),
            decreases self@.len() - i,
        {
            let entry = &self.entries[i];
            assert(self@[i as int] == (entry.0@, entry.1@));
            let ts = entry.1.target_ids();
            insert_all_unique(&mut targets, &ts);
            proof { lemma_all_targets_step(self@, i as int); }
            i = i + 1;
        }
        assert(self@.take(self@.len() as int) =~= self@);
        targets
    }

    /// Check if there's a path from source to target: following edges, one
    /// or more of them.
    pub fn has_path(&self, source_id: &str, target_id: &str) -> (r: bool)
        ensures
            r == reachable(self@, source_id@, target_id@),
    {
        let universe = self.all_target_ids();
        let mut visited = self.get_targets(source_id);
        proof {
            assert forall|v: Seq<char>| #[trigger] strings_view(visited@).to_set().contains(v) implies reachable(
                self@,
                source_id@,
                v,
            ) && all_targets(self@).contains(v) by {
                law_edge_is_a_path(self@, source_id@, v);
                let j = choose|j: int| 0 <= j < self@.len() && self@[j].0 == source_id@ && #[trigger] self@[j].1.targets().contains(v);
            }
        }
        let mut i: usize = 0;
        while i < visited.len()
            invariant
                i <= visited@.len(),
                strings_view(visited@).no_duplicates(),
                strings_view(universe@).to_set() == all_targets(self@),
                targets_from(self@, source_id@).subset_of(strings_view(visited@).to_set()),
                forall|j: int| 0 <= j < i ==> targets_from(self@, #[trigger] visited@[j]@).subset_of(
                    strings_view(visited@).to_set(),
                ),
                forall|v: Seq<char>| #[trigger] strings_view(visited@).to_set().contains(v) ==> reachable(
                    self@,
                    source_id@,
                    v,
                ) && all_targets(self@).contains(v),
            decreases universe@.len() - i,
        {
            proof {
                assert(strings_view(visited@).to_set().subset_of(strings_view(universe@).to_set()));
                lemma_unique_within(strings_view(visited@), strings_view(universe@));
                assert(strings_view(visited@).to_set().contains(strings_view(visited@)[i as int]));
            }
            let current = visited[i].clone();
            let next = self.get_targets(current.as_str());
            let ghost before = visited@;
            let mut k: usize = 0;
            while k < next.len()
                invariant
                    i < before.len(),
                    k <= next@.len(),
                    visited@.len() >= before.len(),
                    forall|j: int| 0 <= j < before.len() ==> #[trigger] visited@[j] == before[j],
                    current@ == before[i as int]@,
                    strings_view(next@).to_set() == targets_from(self@, current@),
                    strings_view(visited@).no_duplicates(),
                    strings_view(before).to_set().subset_of(strings_view(visited@).to_set()),
                    forall|a: int| 0 <= a < k ==> strings_view(visited@).to_set().contains(#[trigger] next@[a]@),
                    forall|v: Seq<char>| #[trigger] strings_view(visited@).to_set().contains(v) ==> reachable(
                        self@,
                        source_id@,
                        v,
                    ) && all_targets(self@).contains(v),
                decreases next@.len() - k,
            {
                let ghost old_v = visited@;
                proof {
                    assert(strings_view(next@).to_set().contains(strings_view(next@)[k as int]));
                    assert(strings_view(old_v).to_set().contains(current@)) by {
                        assert(old_v[i as int] == before[i as int]);
                        assert(strings_view(old_v)[i as int] == current@);
                    }
                    law_path_extends_along_edges(self@, source_id@, current@, next@[k as int]@);
                    let j = choose|j: int| 0 <= j < self@.len() && self@[j].0 == current@
                        && #[trigger] self@[j].1.targets().contains(next@[k as int]@);
                }
                if !contains_string(&visited, next[k].as_str()) {
                    visited.push(next[k].clone());
                    proof {
                        let nv = strings_view(visited@);
                        assert(nv =~= strings_view(old_v).push(next@[k as int]@));
                        assert forall|x: int, y: int| 0 <= x < y < nv.len() implies nv[x] != nv[y] by {
                            if y == nv.len() - 1 {
                                assert(strings_view(old_v)[x] == old_v[x]@);
                            }
                        }
                        assert forall|v: Seq<char>| #[trigger] nv.to_set().contains(v) implies strings_view(old_v).to_set().contains(v)
                            || v == next@[k as int]@ by {
                            let x = choose|x: int| 0 <= x < nv.len() && nv[x] == v;
                            if x < old_v.len() {
                                assert(strings_view(old_v)[x] == v);
                            }
                        }
                        assert forall|v: Seq<char>| #[trigger] strings_view(old_v).to_set().contains(v) implies nv.to_set().contains(v) by {
                            let x = choose|x: int| 0 <= x < old_v.len() && strings_view(old_v)[x] == v;
                            assert(nv[x] == v);
                        }
                        assert(nv[old_v.len() as int] == next@[k as int]@);
                    }
                } else {
                    proof {
                        let x = choose|x: int| 0 <= x < old_v.len() && #[trigger] old_v[x]@ == next@[k as int]@;
                        assert(strings_view(old_v)[x] == next@[k as int]@);
                    }
                }
                k = k + 1;
            }
            proof {
                assert forall|t: Seq<char>| #[trigger] targets_from(self@, current@).contains(t) implies strings_view(visited@).to_set().contains(t) by {
                    assert(strings_view(next@).to_set().contains(t));
                    let a = choose|a: int| 0 <= a < strings_view(next@).len() && strings_view(next@)[a] == t;
                    assert(strings_view(visited@).to_set().contains(next@[a]@));
                }
                assert(visited@[i as int] == before[i as int]);
                assert forall|j: int| 0 <= j < i + 1 implies targets_from(self@, #[trigger] visited@[j]@).subset_of(
                    strings_view(visited@).to_set(),
                ) by {
                    assert(visited@[j] == before[j]);
                }
            }
            i = i + 1;
        }
        let found = contains_string(&visited, target_id);
        proof {
            let c = strings_view(visited@).to_set();
            assert forall|v: Seq<char>| #[trigger] c.contains(v) implies targets_from(self@, v).subset_of(c) by {
                let j = choose|j: int| 0 <= j < strings_view(visited@).len() && strings_view(visited@)[j] == v;
                assert(visited@[j]@ == v);
            }
            if reachable(self@, source_id@, target_id@) {
                let p = choose|p: Seq<Seq<char>>| #[trigger] is_path(self@, p) && p[0] == source_id@ && p.last() == target_id@;
                lemma_path_in_closure(self@, p, source_id@, c);
                let j = choose|j: int| 0 <= j < strings_view(visited@).len() && strings_view(visited@)[j] == target_id@;
                assert(visited@[j]@ == target_id@);
            }
            if found {
                let j = choose|j: int| 0 <= j < visited@.len() && #[trigger] visited@[j]@ == target_id@;
                assert(c.contains(strings_view(visited@)[j]));
            }
        }
        found
    }

    /// Get all edges from a source, in the order they were added
    pub fn get_edges_from(&self, source_id: &str) -> (r: Vec<&Edge>)
        ensures
            r@.map_values(|e: &Edge| e@) == edges_from(self@, source_id@),
    {
        let mut r: Vec<&Edge> = Vec::new();
        let mut i: usize = 0;
        while i < self.entries.len()
            invariant
                i <= self@.len(),
                r@.map_values(|e: &Edge| e@) == edges_from(self@.take(i as int), source_id@),
            decreases self@.len() - i,
        {
            let entry = &self.entries[i];
            assert(self@[i as int] == (entry.0@, entry.1@));
            let ghost prev = r@.map_values(|e: &Edge| e@);
            proof { lemma_take_step(self@, i as int); }
            assert(self@.take(i + 1).drop_last() =~= self@.take(i as int));
            if str_eq(entry.0.as_str(), source_id) {
                r.push(&entry.1);
                assert(r@.map_values(|e: &Edge| e@) =~= prev + seq![entry.1@]);
            } else {
                assert(prev + Seq::<EdgeView>::empty() =~= prev);
            }
            i = i + 1;
        }
        assert(self@.take(self@.len() as int) =~= self@);
        r
    }

    /// Get statistics about the routing table
    pub fn get_stats(&self) -> (r: RouterStats)
        ensures
            r.total_edges == self@.len(),
            r.executors_with_outgoing == all_sources(self@).len(),
            r.total_target_executors == all_targets(self@).len(),
    {
        let mut sources: Vec<String> = Vec::new();
        let mut targets: Vec<String> = Vec::new();
        let mut i: usize = 0;
        assert(all_sources(self@.take(0)) =~= Set::empty());
        assert(all_targets(self@.take(0)) =~= Set::empty());
        while i < self.entries.len()
            invariant
                i <= self@.len(),
                strings_view(sources@).no_duplicates(),
                strings_view(targets@).no_duplicates(),
                strings_view(sources@).to_set() == all_sources(self@.take(i as int)),
                strings_view(targets@).to_set() == all_targets(self@.take(i as int)),
            decreases self@.len() - i,
        {
            let entry = &self.entries[i];
            assert(self@[i as int] == (entry.0@, entry.1@));
            insert_unique(&mut sources, entry.0.as_str());
            let ts = entry.1.target_ids();
            insert_all_unique(&mut targets, &ts);
            proof {
                lemma_all_sources_step(self@, i as int);
                lemma_all_targets_step(self@, i as int);
            }
            i = i + 1;
        }
        assert(self@.take(self@.len() as int) =~= self@);
        proof {
            strings_view(sources@).unique_seq_to_set();
            strings_view(targets@).unique_seq_to_set();
        }
        RouterStats {
            total_edges: self.entries.len(),
            executors_with_outgoing: sources.len(),
            total_target_executors: targets.len(),
        }
    }
}

impl Default for MessageRouter {
    fn default() -> (r: Self)
        ensures
            r@ == Seq::<(Seq<char>, EdgeView)>::empty(),
    {
        Self::new()
    }
}

/// Every message that a fan-out edge sends carries the message unchanged, goes
/// to one of the edge's targets, and to the requested target when one is.
proof fn lemma_fan_out_routes_sound(
    targets: Seq<Seq<char>>,
    picks: Seq<usize>,
    target: Option<Seq<char>>,
    msg: serde_json::Value,
)
    ensures
        forall|k: int| 0 <= k < fan_out_routes(targets, picks, target, msg).len() ==> {
            let p = #[trigger] fan_out_routes(targets, picks, target, msg)[k];
            &&& p.1 == msg
            &&& targets.contains(p.0)
            &&& (target matches Some(want) ==> p.0 == want)
        },
    decreases picks.len(),
{
    if picks.len() > 0 {
        lemma_fan_out_routes_sound(targets, picks.drop_last(), target, msg);
        let i = picks.last() as int;
        let whole = fan_out_routes(targets, picks, target, msg);
        let head = fan_out_routes(targets, picks.drop_last(), target, msg);
        let tail = if i < targets.len() && (target is None || target.unwrap() == targets[i]) {
            seq![(targets[i], msg)]
        } else {
            Seq::empty()
        };
        assert(whole == head + tail);
        assert forall|k: int| 0 <= k < whole.len() implies {
            let p = #[trigger] whole[k];
            &&& p.1 == msg
            &&& targets.contains(p.0)
            &&& (target matches Some(want) ==> p.0 == want)
        } by {
            if k < head.len() {
                assert(whole[k] == head[k]);
            } else {
                assert(whole[k] == tail[k - head.len()]);
                assert(targets[i] == tail[0].0);
            }
        }
    }
}

/// Every message that one edge routes carries the message unchanged, goes to
/// one of the edge's targets, and to the requested target when one is.
proof fn lemma_edge_routes_sound(
    e: EdgeView,
    source: Seq<char>,
    msg: serde_json::Value,
    target: Option<Seq<char>>,
    outcome: EdgeOutcome,
)
    ensures
        forall|k: int| 0 <= k < edge_routes(e, source, msg, target, outcome).len() ==> {
            let p = #[trigger] edge_routes(e, source, msg, target, outcome)[k];
            &&& p.1 == msg
            &&& e.targets().contains(p.0)
            &&& (target matches Some(want) ==> p.0 == want)
        },
{
    match e.shape {
        EdgeShape::Direct { target: t, .. } => {
            assert(e.targets()[0] == t);
        },
        EdgeShape::FanOut { targets, partitioned, .. } => {
            let picks = if partitioned { outcome.picks } else { all_indices(targets.len()) };
            lemma_fan_out_routes_sound(targets, picks, target, msg);
        },
        EdgeShape::FanIn { target: t, .. } => {
            assert(e.targets()[0] == t);
        },
    }
}

/// Routing only follows edges: every message routed from `source` goes to an
/// executor that an edge leaving `source` leads to, carries the sent message
/// unchanged, and goes to the requested target when one is given, whatever
/// the edges' conditions and partitioners answered.
pub proof fn law_routing_follows_edges(
    entries: Seq<(Seq<char>, EdgeView)>,
    source: Seq<char>,
    msg: serde_json::Value,
    target: Option<Seq<char>>,
    outcomes: Seq<EdgeOutcome>,
)
    ensures
        forall|k: int| 0 <= k < routed(entries, source, msg, target, outcomes).len() ==> {
            let p = #[trigger] routed(entries, source, msg, target, outcomes)[k];
            &&& targets_from(entries, source).contains(p.0)
            &&& p.1 == msg
            &&& (target matches Some(want) ==> p.0 == want)
        },
    decreases entries.len(),
{
    if entries.len() > 0 && outcomes.len() > 0 {
        let prev = entries.drop_last();
        let head = routed(prev, source, msg, target, outcomes.drop_last());
        let tail = if entries.last().0 == source {
            edge_routes(entries.last().1, source, msg, target, outcomes.last())
        } else {
            Seq::empty()
        };
        law_routing_follows_edges(prev, source, msg, target, outcomes.drop_last());
        lemma_edge_routes_sound(entries.last().1, source, msg, target, outcomes.last());
        let all = routed(entries, source, msg, target, outcomes);
        assert(all == head + tail);
        assert forall|k: int| 0 <= k < all.len() implies {
            let p = #[trigger] all[k];
            &&& targets_from(entries, source).contains(p.0)
            &&& p.1 == msg
            &&& (target matches Some(want) ==> p.0 == want)
        } by {
            let p = all[k];
            if k < head.len() {
                assert(p == head[k]);
                let j = choose|j: int| 0 <= j < prev.len() && prev[j].0 == source
                    && #[trigger] prev[j].1.targets().contains(p.0);
                assert(entries[j] == prev[j]);
            } else {
                assert(p == tail[k - head.len()]);
                let j = entries.len() - 1;
                assert(entries[j] == entries.last());
                assert(entries[j].1.targets().contains(p.0));
            }
        }
    }
}

/// Whether every edge leaving `source` in the table is unconditional and
/// unpartitioned.
pub open spec fn plain_edges_from(entries: Seq<(Seq<char>, EdgeView)>, source: Seq<char>) -> bool {
    forall|i: int| 0 <= i < entries.len() && #[trigger] entries[i].0 == source ==> match entries[i].1.shape {
        EdgeShape::Direct { conditional, .. } => !conditional,
        EdgeShape::FanOut { partitioned, .. } => !partitioned,
        EdgeShape::FanIn { .. } => true,
    }
}

/// Routing goes through every entry of the table: with one more entry, what
/// is routed is what was routed before followed by what that entry's edge
/// routes, when the entry leaves the source, and nothing more otherwise.
pub proof fn law_every_entry_is_consulted(
    entries: Seq<(Seq<char>, EdgeView)>,
    source: Seq<char>,
    msg: serde_json::Value,
    target: Option<Seq<char>>,
    outcomes: Seq<EdgeOutcome>,
    entry: (Seq<char>, EdgeView),
    outcome: EdgeOutcome,
)
    requires
        outcomes.len() == entries.len(),
    ensures
        routed(entries.push(entry), source, msg, target, outcomes.push(outcome)) == routed(
            entries,
            source,
            msg,
            target,
            outcomes,
        ) + if entry.0 == source {
            edge_routes(entry.1, source, msg, target, outcome)
        } else {
            Seq::empty()
        },
{
    assert(entries.push(entry).drop_last() =~= entries);
    assert(outcomes.push(outcome).drop_last() =~= outcomes);
}

/// An unconditional direct edge leaving the source always carries the
/// message to its target, when no target or that target is requested.
pub proof fn law_plain_edge_always_routes(
    entries: Seq<(Seq<char>, EdgeView)>,
    source: Seq<char>,
    msg: serde_json::Value,
    target: Option<Seq<char>>,
    outcomes: Seq<EdgeOutcome>,
    i: int,
    t: Seq<char>,
)
    requires
        outcomes.len() == entries.len(),
        0 <= i < entries.len(),
        entries[i].0 == source,
        entries[i].1.shape matches EdgeShape::Direct { target: et, conditional, .. } && et == t && !conditional,
        target is None || target == Some(t),
    ensures
        routed(entries, source, msg, target, outcomes).contains((t, msg)),
    decreases entries.len(),
{
    let prev = entries.drop_last();
    let last = routed(entries, source, msg, target, outcomes);
    if i < entries.len() - 1 {
        assert(prev[i] == entries[i]);
        law_plain_edge_always_routes(prev, source, msg, target, outcomes.drop_last(), i, t);
        let before = routed(prev, source, msg, target, outcomes.drop_last());
        let k = choose|k: int| 0 <= k < before.len() && before[k] == (t, msg);
        assert(last[k] == before[k]);
    } else {
        let before = routed(prev, source, msg, target, outcomes.drop_last());
        assert(edge_routes(entries.last().1, source, msg, target, outcomes.last()) == seq![(t, msg)]);
        assert(last[before.len() as int] == (t, msg));
    }
}

/// Where no edge leaving the source has a condition or a partitioner, what is
/// routed does not depend on any closure: two routings of the same message
/// agree.
pub proof fn law_plain_routing_is_deterministic(
    entries: Seq<(Seq<char>, EdgeView)>,
    source: Seq<char>,
    msg: serde_json::Value,
    target: Option<Seq<char>>,
    outcomes1: Seq<EdgeOutcome>,
    outcomes2: Seq<EdgeOutcome>,
)
    requires
        plain_edges_from(entries, source),
        outcomes1.len() == entries.len(),
        outcomes2.len() == entries.len(),
    ensures
        routed(entries, source, msg, target, outcomes1) == routed(entries, source, msg, target, outcomes2),
    decreases entries.len(),
{
    if entries.len() > 0 {
        let prev = entries.drop_last();
        assert forall|i: int| 0 <= i < prev.len() && #[trigger] prev[i].0 == source implies match prev[i].1.shape {
            EdgeShape::Direct { conditional, .. } => !conditional,
            EdgeShape::FanOut { partitioned, .. } => !partitioned,
            EdgeShape::FanIn { .. } => true,
        } by {
            assert(entries[i] == prev[i]);
        }
        law_plain_routing_is_deterministic(prev, source, msg, target, outcomes1.drop_last(), outcomes2.drop_last());
        let j = entries.len() - 1;
        assert(entries[j] == entries.last());
    }
}

/// A fan-out edge without a partitioner sends the message to each of its
/// targets, in order, when no particular target is requested.
pub proof fn law_fan_out_reaches_every_target(
    e: EdgeView,
    source: Seq<char>,
    msg: serde_json::Value,
    outcome: EdgeOutcome,
)
    requires
        e.shape matches EdgeShape::FanOut { partitioned, .. } && !partitioned,
        e.targets().len() <= usize::MAX,
    ensures
        edge_routes(e, source, msg, None, outcome) == e.targets().map_values(|t: Seq<char>| (t, msg)),
{
    let targets = e.targets();
    lemma_fan_out_all(targets, targets.len(), msg);
    assert(targets.take(targets.len() as int) =~= targets);
}

/// Sending to the first `n` indices of `targets` reaches the first `n`
/// targets in order.
proof fn lemma_fan_out_all(targets: Seq<Seq<char>>, n: nat, msg: serde_json::Value)
    requires
        n <= targets.len(),
        n <= usize::MAX + 1,
    ensures
        fan_out_routes(targets, all_indices(n), None, msg) == targets.take(n as int).map_values(
            |t: Seq<char>| (t, msg),
        ),
    decreases n,
{
    if n > 0 {
        lemma_fan_out_all(targets, (n - 1) as nat, msg);
        assert(all_indices(n).drop_last() =~= all_indices((n - 1) as nat));
        assert(all_indices(n).last() as int == n - 1);
        assert(targets.take(n as int).map_values(|t: Seq<char>| (t, msg)) =~= targets.take(n - 1).map_values(
            |t: Seq<char>| (t, msg),
        ).push((targets[n - 1], msg)));
    } else {
        assert(targets.take(0).map_values(|t: Seq<char>| (t, msg)) =~= Seq::<(Seq<char>, serde_json::Value)>::empty());
    }
}

/// Adding an edge opens a path from each of its sources to each of its
/// targets, and closes none of the paths there were.
pub proof fn law_added_edge_opens_paths(entries: Seq<(Seq<char>, EdgeView)>, e: EdgeView, s: Seq<char>, t: Seq<char>)
    ensures
        ({
            let after = entries + e.sources().map_values(|x: Seq<char>| (x, e));
            &&& e.sources().contains(s) && e.targets().contains(t) ==> targets_from(after, s).contains(t)
            &&& targets_from(entries, s).contains(t) ==> targets_from(after, s).contains(t)
        }),
{
    let added = e.sources().map_values(|x: Seq<char>| (x, e));
    let after = entries + added;
    if e.sources().contains(s) && e.targets().contains(t) {
        let i = choose|i: int| 0 <= i < e.sources().len() && e.sources()[i] == s;
        assert(after[entries.len() + i] == added[i]);
        assert(after[entries.len() + i].1.targets().contains(t));
    }
    if targets_from(entries, s).contains(t) {
        let j = choose|j: int| 0 <= j < entries.len() && entries[j].0 == s && #[trigger] entries[j].1.targets().contains(t);
        assert(after[j] == entries[j]);
    }
}

/// Sources and targets agree: `s` is among the sources that reach `t`
/// exactly when `t` is among the targets of `s`.
pub proof fn law_sources_and_targets_agree(entries: Seq<(Seq<char>, EdgeView)>, s: Seq<char>, t: Seq<char>)
    ensures
        sources_to(entries, t).contains(s) == targets_from(entries, s).contains(t),
{
    if sources_to(entries, t).contains(s) {
        let i = choose|i: int| 0 <= i < entries.len() && #[trigger] entries[i].0 == s && entries[i].1.targets().contains(t);
        assert(entries[i].1.targets().contains(t));
    }
    if targets_from(entries, s).contains(t) {
        let i = choose|i: int| 0 <= i < entries.len() && entries[i].0 == s && #[trigger] entries[i].1.targets().contains(t);
        assert(entries[i].0 == s);
    }
}

} // verus!
