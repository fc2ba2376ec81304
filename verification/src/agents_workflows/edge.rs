//! Edges between executors, and how one edge routes a message.
use vstd::prelude::*;
use crate::external::copy_value;
use crate::text::{contains_string, str_eq};

verus! {

/// Unique identifier for an edge
#[derive(Debug, Clone, Copy, PartialEq, Eq, Hash, Structural)]
pub struct EdgeId(pub u64);

impl EdgeId {
    pub fn new(id: u64) -> (r: Self)
        ensures
            r.0 == id,
    {
        EdgeId(id)
    }
}

/// A condition that a user attaches to a direct edge: a closure over the
/// message. The library calls it and does not know what it answers.
#[verifier::external_body]
pub struct EdgeCondition {
    f: std::sync::Arc<dyn Fn(&serde_json::Value) -> bool + Send + Sync>,
}

impl EdgeCondition {
    /// Stores the user's closure behind `std::sync::Arc::new`.
    #[verifier::external_body]
    pub fn new<F>(condition: F) -> (r: Self)
        where F: Fn(&serde_json::Value) -> bool + Send + Sync + 'static,
    {
        EdgeCondition { f: std::sync::Arc::new(condition) }
    }

    /// Calls the user's closure on `message`, and returns its answer with a
    /// record of the call: the message handed to the closure and the answer.
    /// What the closure answers is not stated.
    #[verifier::external_body]
    pub(crate) fn holds(&self, message: &serde_json::Value) -> (r: (bool, Ghost<ConditionCall>))
        ensures
            r.1@ == (ConditionCall { message: *message, answer: r.0 }),
    {
        let answer = (self.f)(message);
        (answer, Ghost(ConditionCall { message: *message, answer }))
    }

    /// Calls `Arc::clone`: the copy shares the same closure.
    #[verifier::external_body]
    pub(crate) fn share(&self) -> (r: Self) {
        EdgeCondition { f: std::sync::Arc::clone(&self.f) }
    }
}

/// A partitioner that a user attaches to a fan-out edge: a closure from the
/// message and the number of targets to the indices of the chosen targets.
#[verifier::external_body]
pub struct EdgePartitioner {
    f: std::sync::Arc<dyn Fn(&serde_json::Value, usize) -> Vec<usize> + Send + Sync>,
}

impl EdgePartitioner {
    /// Stores the user's closure behind `std::sync::Arc::new`.
    #[verifier::external_body]
    pub fn new<F>(partitioner: F) -> (r: Self)
        where F: Fn(&serde_json::Value, usize) -> Vec<usize> + Send + Sync + 'static,
    {
        EdgePartitioner { f: std::sync::Arc::new(partitioner) }
    }

    /// Calls the user's closure on `message` and `target_count`, and returns
    /// the indices it chose with a record of the call: the message and the
    /// count handed to the closure, and the indices. Which indices it chooses
    /// is not stated.
    #[verifier::external_body]
    pub(crate) fn partition(&self, message: &serde_json::Value, target_count: usize) -> (r: (
        Vec<usize>,
        Ghost<PartitionCall>,
    ))
        ensures
            r.1@ == (PartitionCall { message: *message, target_count: target_count as nat, picks: r.0@ }),
    {
        let picks = (self.f)(message, target_count);
        let record = Ghost(PartitionCall { message: *message, target_count: target_count as nat, picks: picks@ });
        (picks, record)
    }

    /// Calls `Arc::clone`: the copy shares the same closure.
    #[verifier::external_body]
    pub(crate) fn share(&self) -> (r: Self) {
        EdgePartitioner { f: std::sync::Arc::clone(&self.f) }
    }
}

/// Direct edge between two executors
pub struct DirectEdgeData {
    pub source_id: String,
    pub target_id: String,
    pub id: EdgeId,
    pub condition: Option<EdgeCondition>,
}

/// Fan-out edge from one executor to multiple targets
pub struct FanOutEdgeData {
    pub source_id: String,
    pub target_ids: Vec<String>,
    pub id: EdgeId,
    pub partitioner: Option<EdgePartitioner>,
}

/// Fan-in edge from multiple sources to one target
pub struct FanInEdgeData {
    pub source_ids: Vec<String>,
    pub target_id: String,
    pub id: EdgeId,
}

/// Edge data variants
pub enum EdgeData {
    Direct(DirectEdgeData),
    FanOut(FanOutEdgeData),
    FanIn(FanInEdgeData),
}

/// An edge connecting executors in a workflow
pub struct Edge {
    pub data: EdgeData,
}

/// The shape of an edge as the contracts see it.
pub enum EdgeShape {
    Direct { source: Seq<char>, target: Seq<char>, conditional: bool },
    FanOut { source: Seq<char>, targets: Seq<Seq<char>>, partitioned: bool },
    FanIn { sources: Seq<Seq<char>>, target: Seq<char> },
}

/// An edge as the contracts see it: its identifier and its shape.
pub struct EdgeView {
    pub id: u64,
    pub shape: EdgeShape,
}

/// The characters of each string of `v`.
pub open spec fn strings_view(v: Seq<String>) -> Seq<Seq<char>> {
    v.map_values(|s: String| s@)
}

/// The characters of each string slice of `v`.
pub open spec fn strs_view(v: Seq<&str>) -> Seq<Seq<char>> {
    v.map_values(|s: &str| s@)
}

/// The characters of an optional string slice.
pub open spec fn opt_str_view(t: Option<&str>) -> Option<Seq<char>> {
    match t {
        Some(s) => Some(s@),
        None => None,
    }
}

impl EdgeView {
    /// The executors the edge leaves from.
    pub open spec fn sources(self) -> Seq<Seq<char>> {
        match self.shape {
            EdgeShape::Direct { source, .. } => seq![source],
            EdgeShape::FanOut { source, .. } => seq![source],
            EdgeShape::FanIn { sources, .. } => sources,
        }
    }

    /// The executors the edge leads to.
    pub open spec fn targets(self) -> Seq<Seq<char>> {
        match self.shape {
            EdgeShape::Direct { target, .. } => seq![target],
            EdgeShape::FanOut { targets, .. } => targets,
            EdgeShape::FanIn { target, .. } => seq![target],
        }
    }
}

impl View for Edge {
    type V = EdgeView;

    open spec fn view(&self) -> EdgeView {
        match self.data {
            EdgeData::Direct(d) => EdgeView {
                id: d.id.0,
                shape: EdgeShape::Direct { source: d.source_id@, target: d.target_id@, conditional: d.condition is Some },
            },
            EdgeData::FanOut(d) => EdgeView {
                id: d.id.0,
                shape: EdgeShape::FanOut {
                    source: d.source_id@,
                    targets: strings_view(d.target_ids@),
                    partitioned: d.partitioner is Some,
                },
            },
            EdgeData::FanIn(d) => EdgeView {
                id: d.id.0,
                shape: EdgeShape::FanIn { sources: strings_view(d.source_ids@), target: d.target_id@ },
            },
        }
    }
}

/// A message routed to one executor.
pub struct RouteTarget {
    pub executor_id: String,
    pub message: serde_json::Value,
}

/// A routed message as the contracts see it: the target and the message.
pub open spec fn route_targets_view(v: Seq<RouteTarget>) -> Seq<(Seq<char>, serde_json::Value)> {
    v.map_values(|t: RouteTarget| (t.executor_id@, t.message))
}

/// A call of a user's condition: the message it was asked about, and its
/// answer.
pub struct ConditionCall {
    pub message: serde_json::Value,
    pub answer: bool,
}

/// A call of a user's partitioner: the message and the target count it was
/// handed, and the indices it chose.
pub struct PartitionCall {
    pub message: serde_json::Value,
    pub target_count: nat,
    pub picks: Seq<usize>,
}

/// What the user's closures answered for one edge: the condition's verdict,
/// the indices the partitioner chose, and the calls made to them.
pub struct EdgeOutcome {
    pub condition_holds: bool,
    pub picks: Seq<usize>,
    pub condition_call: Option<ConditionCall>,
    pub partition_call: Option<PartitionCall>,
}

/// The outcome of an edge whose closures were not called.
pub open spec fn no_calls() -> EdgeOutcome {
    EdgeOutcome { condition_holds: true, picks: Seq::empty(), condition_call: None, partition_call: None }
}

/// Whether `o` records the calls that routing `msg` from `source` (to
/// `target` only, when it is given) makes along `e`: the condition of a
/// conditional direct edge is asked once about the message, and the
/// partitioner of a partitioned fan-out edge is called once with the message
/// and the edge's target count, each only where the target filter lets the
/// edge through; the outcome's verdict and indices are what those calls
/// returned, and no other call is made.
pub open spec fn outcome_records(
    e: EdgeView,
    source: Seq<char>,
    msg: serde_json::Value,
    target: Option<Seq<char>>,
    o: EdgeOutcome,
) -> bool {
    match e.shape {
        EdgeShape::Direct { target: t, conditional, .. } => {
            &&& o.partition_call is None
            &&& if (target matches Some(want) && want != t) || !conditional {
                o.condition_call is None
            } else {
                o.condition_call == Some(ConditionCall { message: msg, answer: o.condition_holds })
            }
        },
        EdgeShape::FanOut { targets, partitioned, .. } => {
            &&& o.condition_call is None
            &&& if (target matches Some(want) && !targets.contains(want)) || !partitioned {
                o.partition_call is None
            } else {
                o.partition_call == Some(PartitionCall { message: msg, target_count: targets.len(), picks: o.picks })
            }
        },
        EdgeShape::FanIn { .. } => o.condition_call is None && o.partition_call is None,
    }
}

/// The indices `0, 1, ..., n - 1`.
pub open spec fn all_indices(n: nat) -> Seq<usize> {
    Seq::new(n, |i: int| i as usize)
}

/// The targets that a fan-out edge sends to for the chosen indices `picks`:
/// in order, each index below the number of targets whose target passes the
/// requested target filter.
pub open spec fn fan_out_routes(
    targets: Seq<Seq<char>>,
    picks: Seq<usize>,
    target: Option<Seq<char>>,
    msg: serde_json::Value,
) -> Seq<(Seq<char>, serde_json::Value)>
    decreases picks.len(),
{
    if picks.len() == 0 {
        Seq::empty()
    } else {
        let i = picks.last() as int;
        fan_out_routes(targets, picks.drop_last(), target, msg) + if i < targets.len() && (
        target is None || target.unwrap() == targets[i]) {
            seq![(targets[i], msg)]
        } else {
            Seq::empty()
        }
    }
}

/// A fan-out edge sends to each index the partitioner picked, in the order
/// picked: one more pick adds the target at that index, when there is one
/// and it passes the requested target filter, and nothing otherwise; so
/// every picked target that passes the filter gets the message.
pub proof fn law_fan_out_sends_to_each_pick(
    targets: Seq<Seq<char>>,
    picks: Seq<usize>,
    target: Option<Seq<char>>,
    msg: serde_json::Value,
    p: usize,
    j: int,
)
    ensures
        fan_out_routes(targets, picks.push(p), target, msg) == fan_out_routes(targets, picks, target, msg) + if p
            < targets.len() && (target is None || target == Some(targets[p as int])) {
            seq![(targets[p as int], msg)]
        } else {
            Seq::empty()
        },
        0 <= j < picks.len() && picks[j] < targets.len() && (target is None || target == Some(targets[picks[j] as int]))
            ==> fan_out_routes(targets, picks, target, msg).contains((targets[picks[j] as int], msg)),
    decreases picks.len(),
{
    assert(picks.push(p).drop_last() =~= picks);
    if 0 <= j < picks.len() && picks[j] < targets.len() && (target is None || target == Some(targets[picks[j] as int])) {
        let prev = picks.drop_last();
        let all = fan_out_routes(targets, picks, target, msg);
        let before = fan_out_routes(targets, prev, target, msg);
        if j < picks.len() - 1 {
            assert(prev[j] == picks[j]);
            law_fan_out_sends_to_each_pick(targets, prev, target, msg, p, j);
            let k = choose|k: int| 0 <= k < before.len() && before[k] == (targets[picks[j] as int], msg);
            assert(all[k] == before[k]);
        } else {
            assert(all[before.len() as int] == (targets[picks[j] as int], msg));
        }
    }
}

/// The messages that one edge routes when `source` sends `msg`, optionally to
/// `target` only, given what the edge's closures answered.
pub open spec fn edge_routes(
    e: EdgeView,
    source: Seq<char>,
    msg: serde_json::Value,
    target: Option<Seq<char>>,
    outcome: EdgeOutcome,
) -> Seq<(Seq<char>, serde_json::Value)> {
    match e.shape {
        EdgeShape::Direct { target: t, conditional, .. } => {
            if (target matches Some(want) && want != t) || (conditional && !outcome.condition_holds) {
                Seq::empty()
            } else {
                seq![(t, msg)]
            }
        },
        EdgeShape::FanOut { targets, partitioned, .. } => {
            if target matches Some(want) && !targets.contains(want) {
                Seq::empty()
            } else {
                fan_out_routes(
                    targets,
                    if partitioned { outcome.picks } else { all_indices(targets.len()) },
                    target,
                    msg,
                )
            }
        },
        EdgeShape::FanIn { sources, target: t } => {
            if !sources.contains(source) || (target matches Some(want) && want != t) {
                Seq::empty()
            } else {
                seq![(t, msg)]
            }
        },
    }
}

/// A conditional direct edge whose condition answered false routes nothing,
/// whichever target is asked for; when the condition holds, or the edge has
/// none, it routes the message, unchanged, to its target exactly when no
/// target or that target is asked for.
pub proof fn law_false_condition_routes_nothing(
    e: EdgeView,
    source: Seq<char>,
    msg: serde_json::Value,
    target: Option<Seq<char>>,
    outcome: EdgeOutcome,
)
    requires
        e.shape is Direct,
    ensures
        e.shape->conditional && !outcome.condition_holds ==> edge_routes(e, source, msg, target, outcome).len() == 0,
        (!e.shape->conditional || outcome.condition_holds) ==> (edge_routes(e, source, msg, target, outcome).len() > 0
            <==> (target is None || target == Some(e.shape->Direct_target))),
        edge_routes(e, source, msg, target, outcome).len() > 0 ==> edge_routes(e, source, msg, target, outcome) == seq![
            (e.shape->Direct_target, msg),
        ],
{
}

/// Copies a list of strings.
pub fn clone_strings(v: &Vec<String>) -> (r: Vec<String>)
    ensures
        r@ == v@,
{
    let mut r: Vec<String> = Vec::new();
    let mut i: usize = 0;
    while i < v.len()
        invariant
            i <= v@.len(),
            r@ == v@.take(i as int),
        decreases v@.len() - i,
    {
        r.push(v[i].clone());
        i = i + 1;
        assert(r@ =~= v@.take(i as int));
    }
    assert(v@.take(v@.len() as int) =~= v@);
    r
}

/// The string slices of a list of strings.
fn as_strs(v: &Vec<String>) -> (r: Vec<&str>)
    ensures
        strs_view(r@) == strings_view(v@),
{
    let mut r: Vec<&str> = Vec::new();
    let mut i: usize = 0;
    while i < v.len()
        invariant
            i <= v@.len(),
            r@.len() == i,
            forall|k: int| 0 <= k < i ==> #[trigger] r@[k]@ == v@[k]@,
        decreases v@.len() - i,
    {
        r.push(v[i].as_str());
        i = i + 1;
    }
    assert(strs_view(r@) =~= strings_view(v@));
    r
}

/// Whether a string view occurs in a list of strings, through `contains_string`.
proof fn lemma_contains_view(v: Seq<String>, s: Seq<char>)
    ensures
        strings_view(v).contains(s) == (exists|i: int| 0 <= i < v.len() && #[trigger] v[i]@ == s),
{
    if strings_view(v).contains(s) {
        let i = choose|i: int| 0 <= i < strings_view(v).len() && strings_view(v)[i] == s;
        assert(v[i]@ == s);
    }
    if exists|i: int| 0 <= i < v.len() && #[trigger] v[i]@ == s {
        let i = choose|i: int| 0 <= i < v.len() && #[trigger] v[i]@ == s;
        assert(strings_view(v)[i] == s);
    }
}

impl Clone for Edge {
    fn clone(&self) -> (r: Self)
        ensures
            r@ == self@,
    {
        match &self.data {
            EdgeData::Direct(d) => Edge {
                data: EdgeData::Direct(DirectEdgeData {
                    source_id: d.source_id.clone(),
                    target_id: d.target_id.clone(),
                    id: d.id,
                    condition: match &d.condition {
                        Some(c) => Some(c.share()),
                        None => None,
                    },
                }),
            },
            EdgeData::FanOut(d) => Edge {
                data: EdgeData::FanOut(FanOutEdgeData {
                    source_id: d.source_id.clone(),
                    target_ids: clone_strings(&d.target_ids),
                    id: d.id,
                    partitioner: match &d.partitioner {
                        Some(p) => Some(p.share()),
                        None => None,
                    },
                }),
            },
            EdgeData::FanIn(d) => Edge {
                data: EdgeData::FanIn(FanInEdgeData {
                    source_ids: clone_strings(&d.source_ids),
                    target_id: d.target_id.clone(),
                    id: d.id,
                }),
            },
        }
    }
}

impl Edge {
    pub fn direct(source: String, target: String, id: EdgeId) -> (r: Self)
        ensures
            r@ == (EdgeView { id: id.0, shape: EdgeShape::Direct { source: source@, target: target@, conditional: false } }),
    {
        Edge { data: EdgeData::Direct(DirectEdgeData { source_id: source, target_id: target, id, condition: None }) }
    }

    pub fn direct_with_condition<F>(source: String, target: String, id: EdgeId, condition: F) -> (r: Self)
        where F: Fn(&serde_json::Value) -> bool + Send + Sync + 'static,
        ensures
            r@ == (EdgeView { id: id.0, shape: EdgeShape::Direct { source: source@, target: target@, conditional: true } }),
    {
        Edge {
            data: EdgeData::Direct(DirectEdgeData {
                source_id: source,
                target_id: target,
                id,
                condition: Some(EdgeCondition::new(condition)),
            }),
        }
    }

    pub fn fan_out(source: String, targets: Vec<String>, id: EdgeId) -> (r: Self)
        ensures
            r@ == (EdgeView {
                id: id.0,
                shape: EdgeShape::FanOut { source: source@, targets: strings_view(targets@), partitioned: false },
            }),
    {
        Edge { data: EdgeData::FanOut(FanOutEdgeData { source_id: source, target_ids: targets, id, partitioner: None }) }
    }

    pub fn fan_out_with_partitioner<F>(source: String, targets: Vec<String>, id: EdgeId, partitioner: F) -> (r: Self)
        where F: Fn(&serde_json::Value, usize) -> Vec<usize> + Send + Sync + 'static,
        ensures
            r@ == (EdgeView {
                id: id.0,
                shape: EdgeShape::FanOut { source: source@, targets: strings_view(targets@), partitioned: true },
            }),
    {
        Edge {
            data: EdgeData::FanOut(FanOutEdgeData {
                source_id: source,
                target_ids: targets,
                id,
                partitioner: Some(EdgePartitioner::new(partitioner)),
            }),
        }
    }

    pub fn fan_in(sources: Vec<String>, target: String, id: EdgeId) -> (r: Self)
        ensures
            r@ == (EdgeView { id: id.0, shape: EdgeShape::FanIn { sources: strings_view(sources@), target: target@ } }),
    {
        Edge { data: EdgeData::FanIn(FanInEdgeData { source_ids: sources, target_id: target, id }) }
    }

    pub fn id(&self) -> (r: EdgeId)
        ensures
            r.0 == self@.id,
    {
        match &self.data {
            EdgeData::Direct(d) => d.id,
            EdgeData::FanOut(d) => d.id,
            EdgeData::FanIn(d) => d.id,
        }
    }

    pub fn source_ids(&self) -> (r: Vec<&str>)
        ensures
            strs_view(r@) == self@.sources(),
    {
        match &self.data {
            EdgeData::Direct(d) => {
                let mut r: Vec<&str> = Vec::new();
                r.push(d.source_id.as_str());
                assert(strs_view(r@) =~= self@.sources());
                r
            },
            EdgeData::FanOut(d) => {
                let mut r: Vec<&str> = Vec::new();
                r.push(d.source_id.as_str());
                assert(strs_view(r@) =~= self@.sources());
                r
            },
            EdgeData::FanIn(d) => as_strs(&d.source_ids),
        }
    }

    pub fn target_ids(&self) -> (r: Vec<&str>)
        ensures
            strs_view(r@) == self@.targets(),
    {
        match &self.data {
            EdgeData::Direct(d) => {
                let mut r: Vec<&str> = Vec::new();
                r.push(d.target_id.as_str());
                assert(strs_view(r@) =~= self@.targets());
                r
            },
            EdgeData::FanOut(d) => as_strs(&d.target_ids),
            EdgeData::FanIn(d) => {
                let mut r: Vec<&str> = Vec::new();
                r.push(d.target_id.as_str());
                assert(strs_view(r@) =~= self@.targets());
                r
            },
        }
    }

    /// Appends to `out` the messages that this edge routes when `source_id`
    /// sends `message`, optionally to `target_id` only. The user's condition
    /// or partitioner is called only where the target filter lets the edge
    /// through; the returned outcome records what they answered.
    pub fn route_into(
        &self,
        source_id: &str,
        message: &serde_json::Value,
        target_id: Option<&str>,
        out: &mut Vec<RouteTarget>,
    ) -> (outcome: Ghost<EdgeOutcome>)
        ensures
            route_targets_view(final(out)@) == route_targets_view(old(out)@) + edge_routes(
                self@,
                source_id@,
                *message,
                opt_str_view(target_id),
                outcome@,
            ),
            outcome_records(self@, source_id@, *message, opt_str_view(target_id), outcome@),
    {
        let ghost start = route_targets_view(out@);
        let ghost target = opt_str_view(target_id);
        match &self.data {
            EdgeData::Direct(d) => {
                if let Some(t) = target_id {
                    if !str_eq(d.target_id.as_str(), t) {
                        assert(route_targets_view(out@) =~= start + Seq::empty());
                        return Ghost(no_calls());
                    }
                }
                let (holds, call): (bool, Ghost<Option<ConditionCall>>) = match &d.condition {
                    Some(c) => {
                        let (answer, record) = c.holds(message);
                        (answer, Ghost(Some(record@)))
                    },
                    None => (true, Ghost(None)),
                };
                if holds {
                    out.push(RouteTarget { executor_id: d.target_id.clone(), message: copy_value(message) });
                    assert(route_targets_view(out@) =~= start + seq![(d.target_id@, *message)]);
                } else {
                    assert(route_targets_view(out@) =~= start + Seq::empty());
                }
                Ghost(EdgeOutcome { condition_holds: holds, picks: Seq::empty(), condition_call: call@, partition_call: None })
            },
            EdgeData::FanOut(d) => {
                let ghost targets = strings_view(d.target_ids@);
                if let Some(t) = target_id {
                    proof { lemma_contains_view(d.target_ids@, t@); }
                    if !contains_string(&d.target_ids, t) {
                        assert(route_targets_view(out@) =~= start + Seq::empty());
                        return Ghost(no_calls());
                    }
                }
                let n = d.target_ids.len();
                let (picks, call): (Vec<usize>, Ghost<Option<PartitionCall>>) = match &d.partitioner {
                    Some(p) => {
                        let (chosen, record) = p.partition(message, n);
                        (chosen, Ghost(Some(record@)))
                    },
                    None => {
                        let mut all: Vec<usize> = Vec::new();
                        let mut k: usize = 0;
                        while k < n
                            invariant
                                k <= n,
                                all@ == all_indices(k as nat),
                            decreases n - k,
                        {
                            all.push(k);
                            k = k + 1;
                            assert(all@ =~= all_indices(k as nat));
                        }
                        (all, Ghost(None))
                    },
                };
                assert(targets.len() == n);
                let mut j: usize = 0;
                while j < picks.len()
                    invariant
                        j <= picks@.len(),
                        n == d.target_ids@.len(),
                        targets == strings_view(d.target_ids@),
                        target == opt_str_view(target_id),
                        route_targets_view(out@) == start + fan_out_routes(targets, picks@.take(j as int), target, *message),
                    decreases picks@.len() - j,
                {
                    let index = picks[j];
                    proof {
                        assert(picks@.take(j + 1).drop_last() =~= picks@.take(j as int));
                        assert(picks@.take(j + 1).last() == index);
                    }
                    let ghost before = route_targets_view(out@);
                    if index < n {
                        let pass = match target_id {
                            Some(t) => str_eq(d.target_ids[index].as_str(), t),
                            None => true,
                        };
                        if pass {
                            out.push(RouteTarget {
                                executor_id: d.target_ids[index].clone(),
                                message: copy_value(message),
                            });
                            assert(route_targets_view(out@) =~= before + seq![(targets[index as int], *message)]);
                        } else {
                            assert(before + Seq::<(Seq<char>, serde_json::Value)>::empty() =~= before);
                        }
                    } else {
                        assert(before + Seq::<(Seq<char>, serde_json::Value)>::empty() =~= before);
                    }
                    j = j + 1;
                    assert(route_targets_view(out@) =~= start + fan_out_routes(targets, picks@.take(j as int), target, *message));
                }
                assert(picks@.take(picks@.len() as int) =~= picks@);
                Ghost(EdgeOutcome { condition_holds: true, picks: picks@, condition_call: None, partition_call: call@ })
            },
            EdgeData::FanIn(d) => {
                proof { lemma_contains_view(d.source_ids@, source_id@); }
                if !contains_string(&d.source_ids, source_id) {
                    assert(route_targets_view(out@) =~= start + Seq::empty());
                    return Ghost(no_calls());
                }
                if let Some(t) = target_id {
                    if !str_eq(d.target_id.as_str(), t) {
                        assert(route_targets_view(out@) =~= start + Seq::empty());
                        return Ghost(no_calls());
                    }
                }
                out.push(RouteTarget { executor_id: d.target_id.clone(), message: copy_value(message) });
                assert(route_targets_view(out@) =~= start + seq![(d.target_id@, *message)]);
                Ghost(no_calls())
            },
        }
    }
}

/// Types of edges
#[derive(Debug, Clone, Copy, PartialEq, Eq, Structural)]
pub enum EdgeType {
    Direct,
    FanOut,
    FanIn,
}

/// Information about an edge for reflection/inspection
#[derive(Debug)]
pub struct EdgeInfo {
    pub id: u64,
    pub edge_type: EdgeType,
    pub source_ids: Vec<String>,
    pub target_ids: Vec<String>,
    pub has_condition: bool,
    pub has_partitioner: bool,
}

impl EdgeInfo {
    /// Whether this record describes the edge `e`.
    pub open spec fn describes(self, e: EdgeView) -> bool {
        &&& self.id == e.id
        &&& strings_view(self.source_ids@) == e.sources()
        &&& strings_view(self.target_ids@) == e.targets()
        &&& match e.shape {
            EdgeShape::Direct { conditional, .. } => self.edge_type == EdgeType::Direct
                && self.has_condition == conditional && !self.has_partitioner,
            EdgeShape::FanOut { partitioned, .. } => self.edge_type == EdgeType::FanOut
                && !self.has_condition && self.has_partitioner == partitioned,
            EdgeShape::FanIn { .. } => self.edge_type == EdgeType::FanIn
                && !self.has_condition && !self.has_partitioner,
        }
    }

    /// Reflection record of an edge.
    pub fn from(edge: &Edge) -> (r: Self)
        ensures
            r.describes(edge@),
    {
        match &edge.data {
            EdgeData::Direct(data) => {
                let mut s: Vec<String> = Vec::new();
                s.push(data.source_id.clone());
                let mut t: Vec<String> = Vec::new();
                t.push(data.target_id.clone());
                assert(strings_view(s@) =~= edge@.sources());
                assert(strings_view(t@) =~= edge@.targets());
                EdgeInfo {
                    id: data.id.0,
                    edge_type: EdgeType::Direct,
                    source_ids: s,
                    target_ids: t,
                    has_condition: data.condition.is_some(),
                    has_partitioner: false,
                }
            },
            EdgeData::FanOut(data) => {
                let mut s: Vec<String> = Vec::new();
                s.push(data.source_id.clone());
                assert(strings_view(s@) =~= edge@.sources());
                EdgeInfo {
                    id: data.id.0,
                    edge_type: EdgeType::FanOut,
                    source_ids: s,
                    target_ids: clone_strings(&data.target_ids),
                    has_condition: false,
                    has_partitioner: data.partitioner.is_some(),
                }
            },
            EdgeData::FanIn(data) => {
                let mut t: Vec<String> = Vec::new();
                t.push(data.target_id.clone());
                assert(strings_view(t@) =~= edge@.targets());
                EdgeInfo {
                    id: data.id.0,
                    edge_type: EdgeType::FanIn,
                    source_ids: clone_strings(&data.source_ids),
                    target_ids: t,
                    has_condition: false,
                    has_partitioner: false,
                }
            },
        }
    }
}

} // verus!
