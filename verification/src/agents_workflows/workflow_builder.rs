//! Construction of workflows: executors, edges, outputs, and validation.
use vstd::prelude::*;
use crate::agents_workflows::edge::{
    DirectEdgeData, Edge, EdgeCondition, EdgeData, EdgeId, EdgePartitioner, EdgeShape, EdgeView,
    FanInEdgeData, FanOutEdgeData, strings_view,
};
use crate::agents_workflows::error::WorkflowError;
use crate::agents_workflows::executor::{
    ExecutorRegistration, RegistrationView, find_registration, lemma_registry_at, lemma_registry_dom, lemma_registry_ids,
    registry_map, registry_view, registry_wf,
};
use crate::agents_workflows::message_router::{MessageRouter, law_added_edge_opens_paths, targets_from};
use crate::agents_workflows::workflow::{Workflow, WorkflowView, opt_string_view};
use crate::text::{IntoText, join_strings, remove_string, seq_join, str_eq};

verus! {

/// An executor that may be bound to a registration or be a placeholder.
#[verifier::reject_recursive_types(E)]
pub struct ExecutorIsh<E> {
    id: String,
    kind: ExecutorKind<E>,
}

#[verifier::reject_recursive_types(E)]
enum ExecutorKind<E> {
    Unbound,
    Bound(ExecutorRegistration<E>),
}

/// An executor placeholder as the contracts see it: its id, and its
/// registration when it is bound.
pub struct ExecutorIshView {
    pub id: Seq<char>,
    pub registration: Option<RegistrationView>,
}

impl<E> View for ExecutorIsh<E> {
    type V = ExecutorIshView;

    closed spec fn view(&self) -> ExecutorIshView {
        ExecutorIshView {
            id: self.id@,
            registration: match self.kind {
                ExecutorKind::Bound(r) => Some(r@),
                ExecutorKind::Unbound => None,
            },
        }
    }
}

/// A bound executor carries the id of its registration.
pub open spec fn ish_consistent(x: ExecutorIshView) -> bool {
    x.registration matches Some(r) ==> r.id == x.id
}

impl<E> ExecutorIsh<E> {
    #[verifier::type_invariant]
    spec fn consistent(self) -> bool {
        ish_consistent(self@)
    }

    /// Create an unbound executor placeholder
    pub fn unbound<S: IntoText>(id: S) -> (r: Self)
        ensures
            r@ == (ExecutorIshView { id: id.text_view(), registration: None }),
    {
        ExecutorIsh { id: id.into_text(), kind: ExecutorKind::Unbound }
    }

    /// Create a bound executor from a registration
    pub fn bound(registration: ExecutorRegistration<E>) -> (r: Self)
        ensures
            r@ == (ExecutorIshView { id: registration@.id, registration: Some(registration@) }),
    {
        let id = registration.id.clone();
        ExecutorIsh { id, kind: ExecutorKind::Bound(registration) }
    }

    /// Get the executor ID
    pub fn id(&self) -> (r: &str)
        ensures
            r@ == self@.id,
    {
        self.id.as_str()
    }

    /// Check if this is an unbound executor
    pub fn is_unbound(&self) -> (r: bool)
        ensures
            r == (self@.registration is None),
    {
        match self.kind {
            ExecutorKind::Unbound => true,
            ExecutorKind::Bound(_) => false,
        }
    }
}

impl<E> Clone for ExecutorIsh<E> {
    fn clone(&self) -> (r: Self)
        ensures
            r@ == self@,
    {
        proof { use_type_invariant(self); }
        match &self.kind {
            ExecutorKind::Unbound => ExecutorIsh { id: self.id.clone(), kind: ExecutorKind::Unbound },
            ExecutorKind::Bound(reg) => ExecutorIsh { id: self.id.clone(), kind: ExecutorKind::Bound(reg.clone()) },
        }
    }
}

/// A builder as the contracts see it.
pub struct BuilderView {
    pub start: Seq<char>,
    pub name: Option<Seq<char>>,
    pub description: Option<Seq<char>>,
    pub registrations: Map<Seq<char>, RegistrationView>,
    pub edges: Seq<EdgeView>,
    pub unbound: Set<Seq<char>>,
    pub outputs: Set<Seq<char>>,
    pub edge_counter: u64,
}

/// Why a builder operation failed.
pub enum BuildFailure {
    /// An executor was given with a registration of another type than the
    /// one registered under its id.
    TypeMismatch { id: Seq<char>, existing: Seq<char>, given: Seq<char> },
    /// An unconditional direct edge between the two executors exists.
    EdgeExists { source: Seq<char>, target: Seq<char> },
    /// A fan-out edge was given no targets.
    NoFanOutTargets,
    /// A fan-in edge was given no sources.
    NoFanInSources,
    /// The executor to bind is not among the unbound placeholders.
    NotUnbound { id: Seq<char> },
    /// Placeholders are left unbound.
    UnboundLeft { ids: Set<Seq<char>> },
    /// The start executor has no registration.
    StartMissing { id: Seq<char> },
}

/// The message of a type mismatch.
pub open spec fn type_mismatch_message(id: Seq<char>, existing: Seq<char>, given: Seq<char>) -> Seq<char> {
    "Executor '"@ + id + "' type mismatch: "@ + existing + " vs "@ + given
}

/// The message of a failed bind.
pub open spec fn not_unbound_message(id: Seq<char>) -> Seq<char> {
    "Executor '"@ + id + "' is already bound or does not exist"@
}

/// Whether the error `e` reports the failure `f`.
pub open spec fn failure_matches(e: WorkflowError, f: BuildFailure) -> bool {
    match f {
        BuildFailure::TypeMismatch { id, existing, given } => e matches WorkflowError::InvalidConfiguration { message }
            && message@ == type_mismatch_message(id, existing, given),
        BuildFailure::EdgeExists { source, target } => e matches WorkflowError::EdgeAlreadyExists(s, t) && s@ == source
            && t@ == target,
        BuildFailure::NoFanOutTargets => e matches WorkflowError::InvalidConfiguration { message }
            && message@ == "Fan-out edge must have at least one target"@,
        BuildFailure::NoFanInSources => e matches WorkflowError::InvalidConfiguration { message }
            && message@ == "Fan-in edge must have at least one source"@,
        BuildFailure::NotUnbound { id } => e matches WorkflowError::InvalidConfiguration { message }
            && message@ == not_unbound_message(id),
        BuildFailure::UnboundLeft { ids } => e matches WorkflowError::InvalidConfiguration { message }
            && exists|order: Seq<Seq<char>>| order.no_duplicates() && order.to_set() == ids
                && message@ == "Unbound executors: "@ + #[trigger] seq_join(order, ", "@),
        BuildFailure::StartMissing { id } => e matches WorkflowError::ExecutorNotFound(x) && x@ == id,
    }
}

/// The builder after taking note of executor `x`: a placeholder is
/// remembered as unbound unless its id is registered; a bound executor is
/// registered unless its id is, in which case the types must agree.
pub open spec fn track(b: BuilderView, x: ExecutorIshView) -> Result<BuilderView, BuildFailure> {
    match x.registration {
        None => Ok(
            if b.registrations.contains_key(x.id) {
                b
            } else {
                BuilderView { unbound: b.unbound.insert(x.id), ..b }
            },
        ),
        Some(reg) => if b.registrations.contains_key(x.id) {
            if b.registrations[x.id].executor_type == reg.executor_type {
                Ok(b)
            } else {
                Err(
                    BuildFailure::TypeMismatch {
                        id: x.id,
                        existing: b.registrations[x.id].executor_type,
                        given: reg.executor_type,
                    },
                )
            }
        } else {
            Ok(BuilderView { registrations: b.registrations.insert(x.id, reg), unbound: b.unbound.remove(x.id), ..b })
        },
    }
}

/// The builder after taking note of each executor of `xs` in turn; the first
/// failure stops it.
pub open spec fn track_all(b: BuilderView, xs: Seq<ExecutorIshView>) -> Result<BuilderView, BuildFailure>
    decreases xs.len(),
{
    if xs.len() == 0 {
        Ok(b)
    } else {
        match track_all(b, xs.drop_last()) {
            Ok(b1) => track(b1, xs.last()),
            Err(f) => Err(f),
        }
    }
}

/// The builder after taking note of each executor of `xs` in turn and
/// marking it as an output source.
pub open spec fn track_outputs(b: BuilderView, xs: Seq<ExecutorIshView>) -> Result<BuilderView, BuildFailure>
    decreases xs.len(),
{
    if xs.len() == 0 {
        Ok(b)
    } else {
        match track_outputs(b, xs.drop_last()) {
            Ok(b1) => match track(b1, xs.last()) {
                Ok(b2) => Ok(BuilderView { outputs: b2.outputs.insert(xs.last().id), ..b2 }),
                Err(f) => Err(f),
            },
            Err(f) => Err(f),
        }
    }
}

/// The id the edge counter takes after `c`: the next number, wrapping to 0.
pub open spec fn next_edge_id(c: u64) -> u64 {
    if c == u64::MAX {
        0
    } else {
        (c + 1) as u64
    }
}

/// Whether `edges` holds an unconditional direct edge from `s` to `t`.
pub open spec fn has_plain_edge(edges: Seq<EdgeView>, s: Seq<char>, t: Seq<char>) -> bool {
    exists|i: int| 0 <= i < edges.len() && #[trigger] edges[i].shape == (EdgeShape::Direct {
        source: s,
        target: t,
        conditional: false,
    })
}

/// The builder after appending an edge of shape `shape` with the next id.
pub open spec fn push_edge(b: BuilderView, shape: EdgeShape) -> BuilderView {
    BuilderView {
        edges: b.edges.push(EdgeView { id: b.edge_counter, shape }),
        edge_counter: next_edge_id(b.edge_counter),
        ..b
    }
}

/// The builder after adding a direct edge from `s` to `t`. Both executors are
/// noted first. A second unconditional edge between the same executors is
/// refused, or ignored when `idempotent`.
pub open spec fn add_direct(
    b: BuilderView,
    s: ExecutorIshView,
    t: ExecutorIshView,
    conditional: bool,
    idempotent: bool,
) -> Result<BuilderView, BuildFailure> {
    match track(b, s) {
        Err(f) => Err(f),
        Ok(b1) => match track(b1, t) {
            Err(f) => Err(f),
            Ok(b2) => if !conditional && has_plain_edge(b2.edges, s.id, t.id) {
                if idempotent {
                    Ok(b2)
                } else {
                    Err(BuildFailure::EdgeExists { source: s.id, target: t.id })
                }
            } else {
                Ok(push_edge(b2, EdgeShape::Direct { source: s.id, target: t.id, conditional }))
            },
        },
    }
}

/// The ids of a list of executors.
pub open spec fn ids_of(xs: Seq<ExecutorIshView>) -> Seq<Seq<char>> {
    xs.map_values(|x: ExecutorIshView| x.id)
}

/// The builder after adding a fan-out edge from `s` to `ts`.
pub open spec fn add_fan_out(b: BuilderView, s: ExecutorIshView, ts: Seq<ExecutorIshView>, partitioned: bool) -> Result<
    BuilderView,
    BuildFailure,
> {
    if ts.len() == 0 {
        Err(BuildFailure::NoFanOutTargets)
    } else {
        match track(b, s) {
            Err(f) => Err(f),
            Ok(b1) => match track_all(b1, ts) {
                Err(f) => Err(f),
                Ok(b2) => Ok(push_edge(b2, EdgeShape::FanOut { source: s.id, targets: ids_of(ts), partitioned })),
            },
        }
    }
}

/// The builder after adding a fan-in edge from `ss` to `t`.
pub open spec fn add_fan_in(b: BuilderView, t: ExecutorIshView, ss: Seq<ExecutorIshView>) -> Result<BuilderView, BuildFailure> {
    if ss.len() == 0 {
        Err(BuildFailure::NoFanInSources)
    } else {
        match track(b, t) {
            Err(f) => Err(f),
            Ok(b1) => match track_all(b1, ss) {
                Err(f) => Err(f),
                Ok(b2) => Ok(push_edge(b2, EdgeShape::FanIn { sources: ids_of(ss), target: t.id })),
            },
        }
    }
}

/// The builder after binding the placeholder `x.id` to the executor `x`. A
/// placeholder given in place of a bound executor binds nothing: the id stays
/// unbound.
pub open spec fn bind(b: BuilderView, x: ExecutorIshView) -> Result<BuilderView, BuildFailure> {
    if !b.unbound.contains(x.id) {
        Err(BuildFailure::NotUnbound { id: x.id })
    } else if x.registration is None {
        Ok(b)
    } else {
        match track(b, x) {
            Err(f) => Err(f),
            Ok(b1) => Ok(BuilderView { unbound: b1.unbound.remove(x.id), ..b1 }),
        }
    }
}

/// Why a builder cannot be built, if it cannot.
pub open spec fn validation(b: BuilderView) -> Option<BuildFailure> {
    if !b.unbound.is_empty() {
        Some(BuildFailure::UnboundLeft { ids: b.unbound })
    } else if !b.registrations.contains_key(b.start) {
        Some(BuildFailure::StartMissing { id: b.start })
    } else {
        None
    }
}

/// The routing table of a router to which `edges` were added in order.
pub open spec fn routes_of(edges: Seq<EdgeView>) -> Seq<(Seq<char>, EdgeView)>
    decreases edges.len(),
{
    if edges.len() == 0 {
        Seq::empty()
    } else {
        routes_of(edges.drop_last()) + edges.last().sources().map_values(|s: Seq<char>| (s, edges.last()))
    }
}

/// The workflow that a valid builder builds.
pub open spec fn built(b: BuilderView) -> WorkflowView {
    WorkflowView {
        start: b.start,
        name: b.name,
        description: b.description,
        registrations: b.registrations,
        routes: routes_of(b.edges),
        outputs: b.outputs,
        owner: None,
        needs_reset: false,
    }
}

/// The builder that `new` starts from, before the start executor is noted.
pub open spec fn empty_builder(start: Seq<char>) -> BuilderView {
    BuilderView {
        start,
        name: None,
        description: None,
        registrations: Map::empty(),
        edges: Seq::empty(),
        unbound: Set::empty(),
        outputs: Set::empty(),
        edge_counter: 0,
    }
}

/// The pairs of a list of connections.
pub open spec fn pairs_view(c: Seq<(String, String)>) -> Seq<(Seq<char>, Seq<char>)> {
    c.map_values(|p: (String, String)| (p.0@, p.1@))
}

/// The (source, target) pairs of the unconditional direct edges of `edges`.
pub open spec fn plain_pairs(edges: Seq<EdgeView>) -> Set<(Seq<char>, Seq<char>)> {
    Set::new(|p: (Seq<char>, Seq<char>)| has_plain_edge(edges, p.0, p.1))
}

/// Appending an edge adds its pair to the plain pairs exactly when it is an
/// unconditional direct edge.
proof fn lemma_plain_pairs_push(edges: Seq<EdgeView>, e: EdgeView)
    ensures
        plain_pairs(edges.push(e)) == match e.shape {
            EdgeShape::Direct { source, target, conditional } => if !conditional {
                plain_pairs(edges).insert((source, target))
            } else {
                plain_pairs(edges)
            },
            _ => plain_pairs(edges),
        },
{
    let next = edges.push(e);
    let expected = match e.shape {
        EdgeShape::Direct { source, target, conditional } => if !conditional {
            plain_pairs(edges).insert((source, target))
        } else {
            plain_pairs(edges)
        },
        _ => plain_pairs(edges),
    };
    assert forall|p: (Seq<char>, Seq<char>)| plain_pairs(next).contains(p) == expected.contains(p) by {
        if has_plain_edge(next, p.0, p.1) {
            let i = choose|i: int| 0 <= i < next.len() && #[trigger] next[i].shape == (EdgeShape::Direct {
                source: p.0, target: p.1, conditional: false });
            if i < edges.len() {
                assert(edges[i] == next[i]);
            }
        }
        if has_plain_edge(edges, p.0, p.1) {
            let i = choose|i: int| 0 <= i < edges.len() && #[trigger] edges[i].shape == (EdgeShape::Direct {
                source: p.0, target: p.1, conditional: false });
            assert(next[i] == edges[i]);
        }
        if expected.contains(p) && !plain_pairs(edges).contains(p) {
            assert(next[edges.len() as int] == e);
        }
    }
    assert(plain_pairs(next) =~= expected);
}


/// When taking note of the executors stops with a failure at position `i`,
/// so does taking note of all of them.
proof fn lemma_track_all_prefix_err(b: BuilderView, xs: Seq<ExecutorIshView>, i: int)
    requires
        0 <= i < xs.len(),
        track_all(b, xs.take(i)) is Ok,
        track(track_all(b, xs.take(i))->Ok_0, xs[i]) is Err,
    ensures
        track_all(b, xs) == track(track_all(b, xs.take(i))->Ok_0, xs[i]),
    decreases xs.len() - i,
{
    assert(xs.take(i + 1).drop_last() =~= xs.take(i));
    if i + 1 == xs.len() {
        assert(xs.take(i + 1) =~= xs);
    } else {
        lemma_track_all_err_stays(b, xs, i + 1);
    }
}

/// A failure of a prefix stays the failure of every longer prefix.
proof fn lemma_track_all_err_stays(b: BuilderView, xs: Seq<ExecutorIshView>, n: int)
    requires
        0 <= n <= xs.len(),
        track_all(b, xs.take(n)) is Err,
    ensures
        track_all(b, xs) == track_all(b, xs.take(n)),
    decreases xs.len() - n,
{
    if n == xs.len() {
        assert(xs.take(n) =~= xs);
    } else {
        assert(xs.take(n + 1).drop_last() =~= xs.take(n));
        lemma_track_all_err_stays(b, xs, n + 1);
    }
}

/// When noting the outputs stops with a failure at position `i`, so does
/// noting all of them.
proof fn lemma_track_outputs_prefix_err(b: BuilderView, xs: Seq<ExecutorIshView>, i: int)
    requires
        0 <= i < xs.len(),
        track_outputs(b, xs.take(i)) is Ok,
        track(track_outputs(b, xs.take(i))->Ok_0, xs[i]) is Err,
    ensures
        track_outputs(b, xs) == track(track_outputs(b, xs.take(i))->Ok_0, xs[i]),
    decreases xs.len() - i,
{
    assert(xs.take(i + 1).drop_last() =~= xs.take(i));
    assert(xs.take(i + 1).last() == xs[i]);
    if i + 1 == xs.len() {
        assert(xs.take(i + 1) =~= xs);
    } else {
        lemma_track_outputs_err_stays(b, xs, i + 1);
    }
}

proof fn lemma_track_outputs_err_stays(b: BuilderView, xs: Seq<ExecutorIshView>, n: int)
    requires
        0 <= n <= xs.len(),
        track_outputs(b, xs.take(n)) is Err,
    ensures
        track_outputs(b, xs) == track_outputs(b, xs.take(n)),
    decreases xs.len() - n,
{
    if n == xs.len() {
        assert(xs.take(n) =~= xs);
    } else {
        assert(xs.take(n + 1).drop_last() =~= xs.take(n));
        lemma_track_outputs_err_stays(b, xs, n + 1);
    }
}

/// Whether the builder already knows executor `x` as it is given: a bound
/// executor registered with the same type, or a placeholder whose id is
/// registered or remembered as unbound.
pub open spec fn settled(b: BuilderView, x: ExecutorIshView) -> bool {
    match x.registration {
        None => b.registrations.contains_key(x.id) || b.unbound.contains(x.id),
        Some(reg) => b.registrations.contains_key(x.id) && b.registrations[x.id].executor_type
            == reg.executor_type,
    }
}

/// Taking note of a settled executor changes nothing.
proof fn lemma_track_settled(b: BuilderView, x: ExecutorIshView)
    requires
        settled(b, x),
    ensures
        track(b, x) == Ok::<BuilderView, BuildFailure>(b),
{
    if x.registration is None && !b.registrations.contains_key(x.id) {
        assert(b.unbound.insert(x.id) =~= b.unbound);
    }
}

/// An executor that was noted successfully is settled afterwards, and noting
/// it keeps every other settled executor settled.
proof fn lemma_track_settles(b: BuilderView, x: ExecutorIshView, y: ExecutorIshView)
    requires
        track(b, x) is Ok,
    ensures
        settled(track(b, x)->Ok_0, x),
        settled(b, y) ==> settled(track(b, x)->Ok_0, y),
{
}

/// A settled executor stays settled when an edge is appended.
proof fn lemma_push_edge_settled(b: BuilderView, shape: EdgeShape, x: ExecutorIshView)
    ensures
        settled(b, x) == settled(push_edge(b, shape), x),
{
}

/// An unconditional direct edge is added once: adding the same edge again
/// is refused with `EdgeAlreadyExists`, and adding it idempotently leaves the
/// builder as it is.
pub proof fn law_plain_edge_is_added_once(b: BuilderView, s: ExecutorIshView, t: ExecutorIshView)
    requires
        add_direct(b, s, t, false, false) is Ok,
    ensures
        add_direct(add_direct(b, s, t, false, false)->Ok_0, s, t, false, false) == Err::<BuilderView, BuildFailure>(
            BuildFailure::EdgeExists { source: s.id, target: t.id },
        ),
        add_direct(add_direct(b, s, t, false, false)->Ok_0, s, t, false, true) == add_direct(b, s, t, false, false),
{
    let b1 = track(b, s)->Ok_0;
    lemma_track_settles(b, s, s);
    lemma_track_settles(b1, t, s);
    let b2 = track(b1, t)->Ok_0;
    let shape = EdgeShape::Direct { source: s.id, target: t.id, conditional: false };
    let b3 = push_edge(b2, shape);
    lemma_push_edge_settled(b2, shape, s);
    lemma_push_edge_settled(b2, shape, t);
    lemma_track_settled(b3, s);
    lemma_track_settled(b3, t);
    assert(b3.edges[b2.edges.len() as int].shape == shape);
    assert(has_plain_edge(b3.edges, s.id, t.id));
}

/// Adding an edge idempotently twice is the same as adding it once.
pub proof fn law_idempotent_edge_is_idempotent(b: BuilderView, s: ExecutorIshView, t: ExecutorIshView)
    requires
        add_direct(b, s, t, false, true) is Ok,
    ensures
        add_direct(add_direct(b, s, t, false, true)->Ok_0, s, t, false, true) == add_direct(b, s, t, false, true),
{
    let b1 = track(b, s)->Ok_0;
    lemma_track_settles(b, s, s);
    lemma_track_settles(b1, t, s);
    let b2 = track(b1, t)->Ok_0;
    let shape = EdgeShape::Direct { source: s.id, target: t.id, conditional: false };
    if has_plain_edge(b2.edges, s.id, t.id) {
        lemma_track_settled(b2, s);
        lemma_track_settled(b2, t);
    } else {
        let b3 = push_edge(b2, shape);
        lemma_push_edge_settled(b2, shape, s);
        lemma_push_edge_settled(b2, shape, t);
        lemma_track_settled(b3, s);
        lemma_track_settled(b3, t);
        assert(b3.edges[b2.edges.len() as int].shape == shape);
    }
}

/// Conditional edges are never refused as duplicates: the same conditional
/// edge can be added again, and each addition appends one edge.
pub proof fn law_conditional_edges_repeat(b: BuilderView, s: ExecutorIshView, t: ExecutorIshView)
    requires
        add_direct(b, s, t, true, false) is Ok,
    ensures
        add_direct(add_direct(b, s, t, true, false)->Ok_0, s, t, true, false) is Ok,
        add_direct(add_direct(b, s, t, true, false)->Ok_0, s, t, true, false)->Ok_0.edges.len()
            == add_direct(b, s, t, true, false)->Ok_0.edges.len() + 1,
{
    let b1 = track(b, s)->Ok_0;
    lemma_track_settles(b, s, s);
    lemma_track_settles(b1, t, s);
    let b2 = track(b1, t)->Ok_0;
    let shape = EdgeShape::Direct { source: s.id, target: t.id, conditional: true };
    let b3 = push_edge(b2, shape);
    lemma_push_edge_settled(b2, shape, s);
    lemma_push_edge_settled(b2, shape, t);
    lemma_track_settled(b3, s);
    lemma_track_settled(b3, t);
}

/// Every new edge takes the builder's edge counter as its id, and the
/// counter moves on.
pub proof fn law_new_edge_takes_counter(b: BuilderView, s: ExecutorIshView, ts: Seq<ExecutorIshView>, partitioned: bool)
    requires
        add_fan_out(b, s, ts, partitioned) is Ok,
    ensures
        add_fan_out(b, s, ts, partitioned)->Ok_0.edges.len() == b.edges.len() + 1,
        add_fan_out(b, s, ts, partitioned)->Ok_0.edges.last().id == b.edge_counter,
        add_fan_out(b, s, ts, partitioned)->Ok_0.edge_counter == next_edge_id(b.edge_counter),
        add_fan_out(b, s, ts, partitioned)->Ok_0.edges.drop_last() == b.edges,
{
    lemma_track_all_keeps_edges(track(b, s)->Ok_0, ts);
    let b2 = track_all(track(b, s)->Ok_0, ts)->Ok_0;
    assert(b2.edges.push(EdgeView { id: b2.edge_counter, shape: EdgeShape::FanOut {
        source: s.id, targets: ids_of(ts), partitioned } }).drop_last() =~= b2.edges);
}

/// A fan-in edge has every source it was given, in order, and the given
/// target: it is appended after the edges that were there, and in the built
/// workflow each given source leads to the target.
pub proof fn law_fan_in_edge_has_every_source(b: BuilderView, t: ExecutorIshView, ss: Seq<ExecutorIshView>)
    requires
        add_fan_in(b, t, ss) is Ok,
    ensures
        ({
            let b2 = add_fan_in(b, t, ss)->Ok_0;
            &&& b2.edges.len() == b.edges.len() + 1
            &&& b2.edges.drop_last() == b.edges
            &&& b2.edges.last().shape is FanIn
            &&& b2.edges.last().targets() == seq![t.id]
            &&& b2.edges.last().sources().len() == ss.len()
            &&& forall|i: int| 0 <= i < ss.len() ==> b2.edges.last().sources()[i] == (#[trigger] ss[i]).id
            &&& forall|i: int| 0 <= i < ss.len() ==> targets_from(built(b2).routes, (#[trigger] ss[i]).id).contains(t.id)
        }),
{
    lemma_track_all_keeps_edges(track(b, t)->Ok_0, ss);
    let b1 = track_all(track(b, t)->Ok_0, ss)->Ok_0;
    let b2 = add_fan_in(b, t, ss)->Ok_0;
    assert(b2.edges.drop_last() =~= b1.edges);
    let last = b2.edges.len() - 1;
    assert forall|i: int| 0 <= i < ss.len() implies targets_from(built(b2).routes, (#[trigger] ss[i]).id).contains(t.id) by {
        assert(b2.edges[last].sources()[i] == ss[i].id);
        assert(b2.edges[last].targets()[0] == t.id);
        law_built_workflow_routes_every_edge(b2, last, ss[i].id, t.id);
    }
}

/// A fan-out edge has the given source and every target it was given, in
/// order, and in the built workflow the source leads to each of them.
pub proof fn law_fan_out_edge_has_every_target(
    b: BuilderView,
    s: ExecutorIshView,
    ts: Seq<ExecutorIshView>,
    partitioned: bool,
)
    requires
        add_fan_out(b, s, ts, partitioned) is Ok,
    ensures
        ({
            let b2 = add_fan_out(b, s, ts, partitioned)->Ok_0;
            &&& b2.edges.last().shape is FanOut
            &&& b2.edges.last().sources() == seq![s.id]
            &&& b2.edges.last().targets().len() == ts.len()
            &&& forall|i: int| 0 <= i < ts.len() ==> b2.edges.last().targets()[i] == (#[trigger] ts[i]).id
            &&& forall|i: int| 0 <= i < ts.len() ==> targets_from(built(b2).routes, s.id).contains((#[trigger] ts[i]).id)
        }),
{
    lemma_track_all_keeps_edges(track(b, s)->Ok_0, ts);
    let b2 = add_fan_out(b, s, ts, partitioned)->Ok_0;
    let last = b2.edges.len() - 1;
    assert forall|i: int| 0 <= i < ts.len() implies targets_from(built(b2).routes, s.id).contains((#[trigger] ts[i]).id) by {
        assert(b2.edges[last].targets()[i] == ts[i].id);
        assert(b2.edges[last].sources()[0] == s.id);
        law_built_workflow_routes_every_edge(b2, last, s.id, ts[i].id);
    }
}

/// A direct edge that is added leads from the given source to the given
/// target, appended after the edges that were there, and in the built
/// workflow the source leads to the target; the only call that adds no edge
/// is an idempotent one for an unconditional edge that is already there.
pub proof fn law_direct_edge_connects_its_executors(
    b: BuilderView,
    s: ExecutorIshView,
    t: ExecutorIshView,
    conditional: bool,
    idempotent: bool,
)
    requires
        add_direct(b, s, t, conditional, idempotent) is Ok,
    ensures
        ({
            let b2 = add_direct(b, s, t, conditional, idempotent)->Ok_0;
            &&& targets_from(built(b2).routes, s.id).contains(t.id)
            &&& b2.edges.len() == b.edges.len() || b2.edges.len() == b.edges.len() + 1
            &&& b2.edges.len() == b.edges.len() + 1 ==> b2.edges.drop_last() == b.edges && b2.edges.last().shape
                == (EdgeShape::Direct { source: s.id, target: t.id, conditional })
            &&& b2.edges.len() == b.edges.len() ==> idempotent && !conditional && b2.edges == b.edges
        }),
{
    let b1 = track(b, s)->Ok_0;
    let bt = track(b1, t)->Ok_0;
    let b2 = add_direct(b, s, t, conditional, idempotent)->Ok_0;
    if !conditional && has_plain_edge(bt.edges, s.id, t.id) {
        let i = choose|i: int| 0 <= i < bt.edges.len() && #[trigger] bt.edges[i].shape == (EdgeShape::Direct {
            source: s.id,
            target: t.id,
            conditional: false,
        });
        assert(bt.edges[i].sources()[0] == s.id);
        assert(bt.edges[i].targets()[0] == t.id);
        law_built_workflow_routes_every_edge(b2, i, s.id, t.id);
    } else {
        assert(b2.edges.drop_last() =~= bt.edges);
        let last = b2.edges.len() - 1;
        assert(b2.edges[last].sources()[0] == s.id);
        assert(b2.edges[last].targets()[0] == t.id);
        law_built_workflow_routes_every_edge(b2, last, s.id, t.id);
    }
}

/// A builder can be built exactly when no placeholder is left unbound and
/// the start executor is registered.
pub proof fn law_build_needs_every_placeholder_bound(b: BuilderView)
    ensures
        (validation(b) is None) == (b.unbound.is_empty() && b.registrations.contains_key(b.start)),
{
}

/// Taking note of executors keeps the edges and the edge counter.
proof fn lemma_track_all_keeps_edges(b: BuilderView, xs: Seq<ExecutorIshView>)
    requires
        track_all(b, xs) is Ok,
    ensures
        track_all(b, xs)->Ok_0.edges == b.edges,
        track_all(b, xs)->Ok_0.edge_counter == b.edge_counter,
    decreases xs.len(),
{
    if xs.len() > 0 {
        lemma_track_all_keeps_edges(b, xs.drop_last());
    }
}

/// Binding a placeholder to a bound executor registers it and leaves it no
/// longer unbound; binding it to another placeholder leaves it unbound.
pub proof fn law_bound_placeholder_is_not_unbound(b: BuilderView, x: ExecutorIshView)
    requires
        bind(b, x) is Ok,
    ensures
        x.registration is Some ==> !bind(b, x)->Ok_0.unbound.contains(x.id)
            && bind(b, x)->Ok_0.registrations.contains_key(x.id),
        x.registration is None ==> bind(b, x)->Ok_0.unbound.contains(x.id),
{
}

/// Every executor named as an output source is one once the outputs are
/// noted, and the outputs noted before stay outputs.
pub proof fn law_output_sources_are_marked(b: BuilderView, xs: Seq<ExecutorIshView>)
    requires
        track_outputs(b, xs) is Ok,
    ensures
        forall|i: int| 0 <= i < xs.len() ==> track_outputs(b, xs)->Ok_0.outputs.contains(#[trigger] xs[i].id),
        b.outputs.subset_of(track_outputs(b, xs)->Ok_0.outputs),
    decreases xs.len(),
{
    if xs.len() > 0 {
        let d = xs.drop_last();
        law_output_sources_are_marked(b, d);
        let b1 = track_outputs(b, d)->Ok_0;
        let b2 = track(b1, xs.last())->Ok_0;
        lemma_track_keeps_outputs(b1, xs.last());
        assert forall|i: int| 0 <= i < xs.len() implies track_outputs(b, xs)->Ok_0.outputs.contains(#[trigger] xs[i].id) by {
            if i < xs.len() - 1 {
                assert(d[i] == xs[i]);
            }
        }
    }
}

/// Taking note of an executor keeps the outputs.
proof fn lemma_track_keeps_outputs(b: BuilderView, x: ExecutorIshView)
    requires
        track(b, x) is Ok,
    ensures
        track(b, x)->Ok_0.outputs == b.outputs,
{
}

/// In the routing table of the edges `edges`, each source of each edge leads
/// to each target of that edge.
proof fn lemma_routes_of_paths(edges: Seq<EdgeView>, i: int, s: Seq<char>, t: Seq<char>)
    requires
        0 <= i < edges.len(),
        edges[i].sources().contains(s),
        edges[i].targets().contains(t),
    ensures
        targets_from(routes_of(edges), s).contains(t),
    decreases edges.len(),
{
    let prev = edges.drop_last();
    law_added_edge_opens_paths(routes_of(prev), edges.last(), s, t);
    if i < edges.len() - 1 {
        assert(prev[i] == edges[i]);
        lemma_routes_of_paths(prev, i, s, t);
    }
}

/// A built workflow routes along every edge that was added to its builder:
/// each source of each edge has a path to each target of that edge.
pub proof fn law_built_workflow_routes_every_edge(b: BuilderView, i: int, s: Seq<char>, t: Seq<char>)
    requires
        0 <= i < b.edges.len(),
        b.edges[i].sources().contains(s),
        b.edges[i].targets().contains(t),
    ensures
        targets_from(built(b).routes, s).contains(t),
{
    lemma_routes_of_paths(b.edges, i, s, t);
}

/// Whether no placeholder left unbound is also registered, and each
/// registration is filed under its own id.
pub open spec fn builder_consistent(b: BuilderView) -> bool {
    &&& forall|k: Seq<char>| #[trigger] b.unbound.contains(k) ==> !b.registrations.contains_key(k)
    &&& forall|k: Seq<char>| #[trigger] b.registrations.contains_key(k) ==> b.registrations[k].id == k
}

/// Taking note of an executor keeps the builder consistent, leaves the
/// executor either registered or unbound, keeps every registration as it
/// was first given, and keeps every id it knew either registered or unbound.
pub proof fn law_tracked_executors_stay_known(b: BuilderView, x: ExecutorIshView, k: Seq<char>)
    requires
        builder_consistent(b),
        ish_consistent(x),
        track(b, x) is Ok,
    ensures
        builder_consistent(track(b, x)->Ok_0),
        track(b, x)->Ok_0.registrations.contains_key(x.id) || track(b, x)->Ok_0.unbound.contains(x.id),
        b.registrations.contains_key(k) ==> track(b, x)->Ok_0.registrations.contains_key(k)
            && track(b, x)->Ok_0.registrations[k] == b.registrations[k],
        b.unbound.contains(k) ==> track(b, x)->Ok_0.registrations.contains_key(k) || track(b, x)->Ok_0.unbound.contains(k),
{
}

/// Binding a placeholder to a bound executor fails exactly when the id is
/// not an unbound placeholder; when it succeeds, the id is registered with
/// the executor's registration and is no longer unbound.
pub proof fn law_bind_registers_the_executor(b: BuilderView, x: ExecutorIshView)
    requires
        builder_consistent(b),
        x.registration is Some,
    ensures
        (bind(b, x) is Err) == !b.unbound.contains(x.id),
        bind(b, x) is Ok ==> bind(b, x)->Ok_0.registrations.contains_key(x.id)
            && bind(b, x)->Ok_0.registrations[x.id] == x.registration->Some_0
            && !bind(b, x)->Ok_0.unbound.contains(x.id),
{
}

/// One call on a builder, with its arguments as the contracts see them.
pub enum BuilderCall {
    /// `add_edge`, `add_edge_with_condition` or `add_edge_idempotent`.
    Direct { source: ExecutorIshView, target: ExecutorIshView, conditional: bool, idempotent: bool },
    /// `add_fan_out_edge` or `add_fan_out_edge_with_partitioner`.
    FanOut { source: ExecutorIshView, targets: Seq<ExecutorIshView>, partitioned: bool },
    /// `add_fan_in_edge`.
    FanIn { target: ExecutorIshView, sources: Seq<ExecutorIshView> },
    /// `with_output_from`.
    Outputs { executors: Seq<ExecutorIshView> },
    /// `bind_executor`.
    Bind { executor: ExecutorIshView },
    /// `with_name`.
    Name { name: Seq<char> },
    /// `with_description`.
    Description { description: Seq<char> },
}

/// The builder after the call `c`, as the contract of the method called says.
pub open spec fn apply_call(b: BuilderView, c: BuilderCall) -> Result<BuilderView, BuildFailure> {
    match c {
        BuilderCall::Direct { source, target, conditional, idempotent } => add_direct(
            b,
            source,
            target,
            conditional,
            idempotent,
        ),
        BuilderCall::FanOut { source, targets, partitioned } => add_fan_out(b, source, targets, partitioned),
        BuilderCall::FanIn { target, sources } => add_fan_in(b, target, sources),
        BuilderCall::Outputs { executors } => track_outputs(b, executors),
        BuilderCall::Bind { executor } => bind(b, executor),
        BuilderCall::Name { name } => Ok(BuilderView { name: Some(name), ..b }),
        BuilderCall::Description { description } => Ok(BuilderView { description: Some(description), ..b }),
    }
}

/// The builder after the calls `cs`, one after the other; the first failure
/// stops them.
pub open spec fn apply_calls(b: BuilderView, cs: Seq<BuilderCall>) -> Result<BuilderView, BuildFailure>
    decreases cs.len(),
{
    if cs.len() == 0 {
        Ok(b)
    } else {
        match apply_calls(b, cs.drop_last()) {
            Ok(b1) => apply_call(b1, cs.last()),
            Err(f) => Err(f),
        }
    }
}

/// The executors that the call `c` names, in the order the builder takes
/// note of them.
pub open spec fn named_in(c: BuilderCall) -> Seq<ExecutorIshView> {
    match c {
        BuilderCall::Direct { source, target, .. } => seq![source, target],
        BuilderCall::FanOut { source, targets, .. } => seq![source] + targets,
        BuilderCall::FanIn { target, sources } => seq![target] + sources,
        BuilderCall::Outputs { executors } => executors,
        BuilderCall::Bind { executor } => seq![executor],
        _ => Seq::empty(),
    }
}

/// The executors that the calls `cs` name, call after call.
pub open spec fn named_in_all(cs: Seq<BuilderCall>) -> Seq<ExecutorIshView>
    decreases cs.len(),
{
    if cs.len() == 0 {
        Seq::empty()
    } else {
        named_in_all(cs.drop_last()) + named_in(cs.last())
    }
}

/// Whether some executor of `seen` has the id `id`.
pub open spec fn mentions(seen: Seq<ExecutorIshView>, id: Seq<char>) -> bool
    decreases seen.len(),
{
    seen.len() > 0 && (mentions(seen.drop_last(), id) || seen.last().id == id)
}

/// The registration of the first executor of `seen` that came bound with the
/// id `id`, if one did.
pub open spec fn first_registration(seen: Seq<ExecutorIshView>, id: Seq<char>) -> Option<RegistrationView>
    decreases seen.len(),
{
    if seen.len() == 0 {
        None
    } else {
        match first_registration(seen.drop_last(), id) {
            Some(r) => Some(r),
            None => if seen.last().id == id {
                seen.last().registration
            } else {
                None
            },
        }
    }
}

/// Whether `b` registers exactly the ids that came bound among `seen`, each
/// with the registration it first came with, and holds as unbound exactly
/// the other ids of `seen`.
pub open spec fn knows_as_given(b: BuilderView, seen: Seq<ExecutorIshView>) -> bool {
    &&& forall|k: Seq<char>|
        #![trigger b.registrations.contains_key(k)]
        #![trigger first_registration(seen, k)]
        b.registrations.contains_key(k) == (first_registration(seen, k) is Some)
    &&& forall|k: Seq<char>| #[trigger]
        b.registrations.contains_key(k) ==> b.registrations[k] == first_registration(seen, k)->Some_0
    &&& forall|k: Seq<char>|
        #![trigger b.unbound.contains(k)]
        #![trigger mentions(seen, k)]
        b.unbound.contains(k) == (mentions(seen, k) && first_registration(seen, k) is None)
}

/// Taking note of an executor keeps the builder knowing what it was given.
proof fn lemma_track_knows(b: BuilderView, seen: Seq<ExecutorIshView>, x: ExecutorIshView)
    requires
        knows_as_given(b, seen),
        track(b, x) is Ok,
    ensures
        knows_as_given(track(b, x)->Ok_0, seen.push(x)),
{
    let s2 = seen.push(x);
    let b2 = track(b, x)->Ok_0;
    assert(s2.drop_last() =~= seen);
    assert forall|k: Seq<char>|
        (b2.registrations.contains_key(k) == (first_registration(s2, k) is Some))
        && (b2.registrations.contains_key(k) ==> b2.registrations[k] == first_registration(s2, k)->Some_0)
        && (b2.unbound.contains(k) == (mentions(s2, k) && first_registration(s2, k) is None)) by {
        assert(b.registrations.contains_key(k) == (first_registration(seen, k) is Some));
        assert(b.unbound.contains(k) == (mentions(seen, k) && first_registration(seen, k) is None));
        assert(mentions(s2, k) == (mentions(seen, k) || x.id == k));
    }
}

/// Taking note of executors one after the other keeps the builder knowing
/// what it was given.
proof fn lemma_track_all_knows(b: BuilderView, seen: Seq<ExecutorIshView>, xs: Seq<ExecutorIshView>)
    requires
        knows_as_given(b, seen),
        track_all(b, xs) is Ok,
    ensures
        knows_as_given(track_all(b, xs)->Ok_0, seen + xs),
    decreases xs.len(),
{
    if xs.len() == 0 {
        assert(seen + xs =~= seen);
    } else {
        lemma_track_all_knows(b, seen, xs.drop_last());
        lemma_track_knows(track_all(b, xs.drop_last())->Ok_0, seen + xs.drop_last(), xs.last());
        assert((seen + xs.drop_last()).push(xs.last()) =~= seen + xs);
    }
}

/// Noting output sources keeps the builder knowing what it was given.
proof fn lemma_track_outputs_knows(b: BuilderView, seen: Seq<ExecutorIshView>, xs: Seq<ExecutorIshView>)
    requires
        knows_as_given(b, seen),
        track_outputs(b, xs) is Ok,
    ensures
        knows_as_given(track_outputs(b, xs)->Ok_0, seen + xs),
    decreases xs.len(),
{
    if xs.len() == 0 {
        assert(seen + xs =~= seen);
    } else {
        lemma_track_outputs_knows(b, seen, xs.drop_last());
        lemma_track_knows(track_outputs(b, xs.drop_last())->Ok_0, seen + xs.drop_last(), xs.last());
        assert((seen + xs.drop_last()).push(xs.last()) =~= seen + xs);
    }
}

/// A successful call keeps the builder knowing what it was given, now with
/// the executors the call named.
proof fn lemma_call_knows(b: BuilderView, seen: Seq<ExecutorIshView>, c: BuilderCall)
    requires
        knows_as_given(b, seen),
        apply_call(b, c) is Ok,
    ensures
        knows_as_given(apply_call(b, c)->Ok_0, seen + named_in(c)),
{
    match c {
        BuilderCall::Direct { source, target, conditional, idempotent } => {
            lemma_track_knows(b, seen, source);
            let b1 = track(b, source)->Ok_0;
            lemma_track_knows(b1, seen.push(source), target);
            assert(seen.push(source).push(target) =~= seen + named_in(c));
        },
        BuilderCall::FanOut { source, targets, partitioned } => {
            lemma_track_knows(b, seen, source);
            lemma_track_all_knows(track(b, source)->Ok_0, seen.push(source), targets);
            assert(seen.push(source) + targets =~= seen + named_in(c));
        },
        BuilderCall::FanIn { target, sources } => {
            lemma_track_knows(b, seen, target);
            lemma_track_all_knows(track(b, target)->Ok_0, seen.push(target), sources);
            assert(seen.push(target) + sources =~= seen + named_in(c));
        },
        BuilderCall::Outputs { executors } => {
            lemma_track_outputs_knows(b, seen, executors);
        },
        BuilderCall::Bind { executor } => {
            let s2 = seen.push(executor);
            assert(s2 =~= seen + named_in(c));
            assert(s2.drop_last() =~= seen);
            assert(b.unbound.contains(executor.id));
            if executor.registration is None {
                assert forall|k: Seq<char>| first_registration(s2, k) == first_registration(seen, k)
                    && mentions(s2, k) == (mentions(seen, k) || executor.id == k) by {}
            } else {
                lemma_track_knows(b, seen, executor);
                let b1 = track(b, executor)->Ok_0;
                assert(b1.registrations.contains_key(executor.id) == (first_registration(s2, executor.id) is Some));
                assert(b1.unbound.remove(executor.id) =~= b1.unbound);
            }
        },
        _ => {
            assert(seen + named_in(c) =~= seen);
        },
    }
}

/// A chain of successful calls keeps the builder knowing what it was given.
proof fn lemma_calls_knows(b: BuilderView, seen: Seq<ExecutorIshView>, cs: Seq<BuilderCall>)
    requires
        knows_as_given(b, seen),
        apply_calls(b, cs) is Ok,
    ensures
        knows_as_given(apply_calls(b, cs)->Ok_0, seen + named_in_all(cs)),
    decreases cs.len(),
{
    if cs.len() == 0 {
        assert(seen + named_in_all(cs) =~= seen);
    } else {
        lemma_calls_knows(b, seen, cs.drop_last());
        lemma_call_knows(apply_calls(b, cs.drop_last())->Ok_0, seen + named_in_all(cs.drop_last()), cs.last());
        assert(seen + named_in_all(cs.drop_last()) + named_in(cs.last()) =~= seen + named_in_all(cs));
    }
}

/// An executor of `seen` is mentioned by it.
proof fn lemma_mentions_each(seen: Seq<ExecutorIshView>, i: int)
    requires
        0 <= i < seen.len(),
    ensures
        mentions(seen, seen[i].id),
    decreases seen.len(),
{
    if i < seen.len() - 1 {
        lemma_mentions_each(seen.drop_last(), i);
    }
}

/// Along any chain of successful calls on a builder that `new` made, every
/// executor named so far, the start executor and each executor given to a
/// call, is either registered or an unbound placeholder, never both. An id
/// is registered exactly when some executor named with it came bound, and
/// then with the registration it first came with; no id that was never
/// named is registered or unbound.
pub proof fn law_named_executors_keep_first_registration(start: ExecutorIshView, calls: Seq<BuilderCall>)
    requires
        apply_calls(track(empty_builder(start.id), start)->Ok_0, calls) is Ok,
    ensures
        ({
            let b = apply_calls(track(empty_builder(start.id), start)->Ok_0, calls)->Ok_0;
            let seen = seq![start] + named_in_all(calls);
            &&& forall|i: int|
                0 <= i < seen.len() ==> b.registrations.contains_key(#[trigger] seen[i].id) != b.unbound.contains(
                    seen[i].id,
                )
            &&& knows_as_given(b, seen)
        }),
{
    let e = empty_builder(start.id);
    let b0 = track(e, start)->Ok_0;
    let s0: Seq<ExecutorIshView> = Seq::empty();
    assert(knows_as_given(e, s0)) by {
        assert forall|k: Seq<char>| !e.registrations.contains_key(k) && !e.unbound.contains(k)
            && first_registration(s0, k) is None && !mentions(s0, k) by {}
    }
    lemma_track_knows(e, s0, start);
    assert(s0.push(start) =~= seq![start]);
    lemma_calls_knows(b0, seq![start], calls);
    let b = apply_calls(b0, calls)->Ok_0;
    let seen = seq![start] + named_in_all(calls);
    assert forall|i: int| 0 <= i < seen.len() implies b.registrations.contains_key(#[trigger] seen[i].id)
        != b.unbound.contains(seen[i].id) by {
        lemma_mentions_each(seen, i);
    }
}

/// Builder for constructing workflows
#[verifier::reject_recursive_types(E)]
pub struct WorkflowBuilder<E> {
    start_executor_id: String,
    name: Option<String>,
    description: Option<String>,
    registrations: Vec<(String, ExecutorRegistration<E>)>,
    edges: Vec<Edge>,
    unbound_executors: Vec<String>,
    output_executors: Vec<String>,
    edge_counter: u64,
    conditionless_connections: Vec<(String, String)>,
}

impl<E> View for WorkflowBuilder<E> {
    type V = BuilderView;

    closed spec fn view(&self) -> BuilderView {
        BuilderView {
            start: self.start_executor_id@,
            name: opt_string_view(self.name),
            description: opt_string_view(self.description),
            registrations: registry_map(registry_view(self.registrations@)),
            edges: self.edges@.map_values(|e: Edge| e@),
            unbound: strings_view(self.unbound_executors@).to_set(),
            outputs: strings_view(self.output_executors@).to_set(),
            edge_counter: self.edge_counter,
        }
    }
}

/// Whether the builder result `r` is what the specification `s` describes.
pub open spec fn build_step_matches<E>(
    r: Result<WorkflowBuilder<E>, WorkflowError>,
    s: Result<BuilderView, BuildFailure>,
) -> bool {
    match (r, s) {
        (Ok(b), Ok(v)) => b.wf() && b@ == v,
        (Err(e), Err(f)) => failure_matches(e, f),
        _ => false,
    }
}

fn invalid_configuration(message: String) -> (r: WorkflowError)
    ensures
        r == (WorkflowError::InvalidConfiguration { message }),
{
    WorkflowError::InvalidConfiguration { message }
}

impl<E> WorkflowBuilder<E> {
    /// The invariant of a builder: a well-formed table of registrations,
    /// placeholders and outputs listed once each, no id both registered and
    /// unbound, and the remembered connections being exactly those of the
    /// unconditional direct edges.
    pub closed spec fn wf(&self) -> bool {
        &&& registry_wf(registry_view(self.registrations@))
        &&& strings_view(self.unbound_executors@).no_duplicates()
        &&& strings_view(self.output_executors@).no_duplicates()
        &&& forall|k: Seq<char>| #[trigger] strings_view(self.unbound_executors@).contains(k)
            ==> !registry_map(registry_view(self.registrations@)).contains_key(k)
        &&& pairs_view(self.conditionless_connections@).to_set() == plain_pairs(self@.edges)
    }

    /// A well-formed builder is consistent: no unbound placeholder is
    /// registered, and each registration is filed under its own id.
    pub proof fn lemma_wf_consistent(&self)
        requires
            self.wf(),
        ensures
            builder_consistent(self@),
    {
        assert forall|k: Seq<char>| #[trigger] self@.unbound.contains(k) implies !self@.registrations.contains_key(k) by {
            assert(strings_view(self.unbound_executors@).contains(k));
        }
        lemma_registry_ids(registry_view(self.registrations@));
    }

    /// Create a new workflow builder with a starting executor
    pub fn new(start_executor: ExecutorIsh<E>) -> (r: Result<Self, WorkflowError>)
        ensures
            build_step_matches(r, track(empty_builder(start_executor@.id), start_executor@)),
            r is Ok,
    {
        let mut builder = WorkflowBuilder {
            start_executor_id: start_executor.id.clone(),
            name: None,
            description: None,
            registrations: Vec::new(),
            edges: Vec::new(),
            unbound_executors: Vec::new(),
            output_executors: Vec::new(),
            edge_counter: 0,
            conditionless_connections: Vec::new(),
        };
        proof {
            assert(builder@.registrations =~= Map::empty());
            assert(builder@.unbound =~= Set::empty());
            assert(builder@.outputs =~= Set::empty());
            assert(builder@.edges =~= Seq::empty());
            assert(pairs_view(builder.conditionless_connections@).to_set() =~= plain_pairs(builder@.edges));
            assert(builder@ == empty_builder(start_executor@.id));
        }
        let r = builder.track_executor(start_executor);
        match r {
            Ok(()) => Ok(builder),
            Err(e) => Err(e),
        }
    }

    /// Set the workflow name
    pub fn with_name<S: IntoText>(self, name: S) -> (r: Self)
        requires
            self.wf(),
        ensures
            r.wf(),
            r@ == (BuilderView { name: Some(name.text_view()), ..self@ }),
    {
        let mut s = self;
        s.name = Some(name.into_text());
        s
    }

    /// Set the workflow description
    pub fn with_description<S: IntoText>(self, description: S) -> (r: Self)
        requires
            self.wf(),
        ensures
            r.wf(),
            r@ == (BuilderView { description: Some(description.text_view()), ..self@ }),
    {
        let mut s = self;
        s.description = Some(description.into_text());
        s
    }

    /// Takes note of an executor: see `track`.
    fn track_executor(&mut self, executor: ExecutorIsh<E>) -> (r: Result<(), WorkflowError>)
        requires
            old(self).wf(),
        ensures
            match (r, track(old(self)@, executor@)) {
                (Ok(()), Ok(v)) => final(self).wf() && final(self)@ == v,
                (Err(e), Err(f)) => failure_matches(e, f) && final(self).wf() && final(self)@ == old(self)@,
                _ => false,
            },
    {
        proof { use_type_invariant(&executor); }
        let ghost old_view = self@;
        let ghost regs = registry_view(self.registrations@);
        let ExecutorIsh { id: executor_id, kind } = executor;
        match kind {
            ExecutorKind::Unbound => {
                match find_registration(&self.registrations, executor_id.as_str()) {
                    Some(i) => {
                        proof { lemma_registry_at(regs, i as int); }
                    },
                    None => {
                        let ghost before = strings_view(self.unbound_executors@);
                        crate::agents_workflows::message_router::insert_unique(&mut self.unbound_executors, executor_id.as_str());
                        proof {
                            assert forall|k: Seq<char>| #[trigger] strings_view(self.unbound_executors@).contains(k)
                                implies !registry_map(regs).contains_key(k) by {
                                assert(strings_view(self.unbound_executors@).to_set().contains(k));
                                if k != executor_id@ {
                                    assert(before.to_set().contains(k));
                                }
                            }
                            assert(self@ =~= BuilderView { unbound: old_view.unbound.insert(executor_id@), ..old_view });
                        }
                    },
                }
                Ok(())
            },
            ExecutorKind::Bound(registration) => {
                match find_registration(&self.registrations, executor_id.as_str()) {
                    Some(i) => {
                        proof { lemma_registry_at(regs, i as int); }
                        if !str_eq(self.registrations[i].1.executor_type.as_str(), registration.executor_type.as_str()) {
                            let mut message = "Executor '".to_owned();
                            message.append(executor_id.as_str());
                            message.append("' type mismatch: ");
                            message.append(self.registrations[i].1.executor_type.as_str());
                            message.append(" vs ");
                            message.append(registration.executor_type.as_str());
                            return Err(invalid_configuration(message));
                        }
                        Ok(())
                    },
                    None => {
                        let ghost reg_view = registration@;
                        let ghost before_u = strings_view(self.unbound_executors@);
                        self.registrations.push((executor_id.clone(), registration));
                        remove_string(&mut self.unbound_executors, executor_id.as_str());
                        proof {
                            let regs2 = registry_view(self.registrations@);
                            assert(regs2 =~= regs.push((executor_id@, reg_view)));
                            assert(regs2.drop_last() =~= regs);
                            assert forall|a: int| 0 <= a < regs.len() implies (#[trigger] regs[a]).0 != executor_id@ by {
                                lemma_registry_dom(regs, executor_id@);
                            }
                            assert(registry_wf(regs2)) by {
                                assert forall|a: int, c: int| 0 <= a < regs2.len() && 0 <= c < regs2.len() && a != c
                                    implies (#[trigger] regs2[a]).0 != (#[trigger] regs2[c]).0 by {
                                    if a < regs.len() && c < regs.len() {
                                        assert(regs2[a] == regs[a] && regs2[c] == regs[c]);
                                    } else if a < regs.len() {
                                        assert(regs2[a] == regs[a]);
                                    } else if c < regs.len() {
                                        assert(regs2[c] == regs[c]);
                                    }
                                }
                                assert forall|a: int| 0 <= a < regs2.len() implies (#[trigger] regs2[a]).0 == regs2[a].1.id by {
                                    if a < regs.len() {
                                        assert(regs2[a] == regs[a]);
                                    }
                                }
                            }
                            assert forall|k: Seq<char>| #[trigger] strings_view(self.unbound_executors@).contains(k)
                                implies !registry_map(regs2).contains_key(k) by {
                                assert(strings_view(self.unbound_executors@).to_set().contains(k));
                                assert(before_u.to_set().contains(k));
                                assert(before_u.contains(k));
                            }
                            assert(self@ =~= BuilderView {
                                registrations: old_view.registrations.insert(executor_id@, reg_view),
                                unbound: old_view.unbound.remove(executor_id@),
                                ..old_view
                            });
                        }
                        Ok(())
                    },
                }
            },
        }
    }

    /// Whether an unconditional direct edge from `source` to `target` was added.
    fn has_connection(&self, source: &str, target: &str) -> (r: bool)
        requires
            self.wf(),
        ensures
            r == has_plain_edge(self@.edges, source@, target@),
    {
        let ghost pairs = pairs_view(self.conditionless_connections@);
        let mut i: usize = 0;
        while i < self.conditionless_connections.len()
            invariant
                i <= self.conditionless_connections@.len(),
                pairs == pairs_view(self.conditionless_connections@),
                self.wf(),
                forall|j: int| 0 <= j < i ==> #[trigger] pairs[j] != (source@, target@),
            decreases self.conditionless_connections@.len() - i,
        {
            let c = &self.conditionless_connections[i];
            if str_eq(c.0.as_str(), source) && str_eq(c.1.as_str(), target) {
                assert(pairs[i as int] == (source@, target@));
                assert(pairs.to_set().contains((source@, target@)));
                return true;
            }
            i = i + 1;
        }
        assert(!pairs.to_set().contains((source@, target@))) by {
            if pairs.contains((source@, target@)) {
                let j = choose|j: int| 0 <= j < pairs.len() && pairs[j] == (source@, target@);
                assert(pairs[j] != (source@, target@));
            }
        }
        false
    }

    /// Appends `edge`, with the next edge id already taken, keeping the
    /// connections in step.
    fn push_edge(&mut self, edge: Edge)
        requires
            old(self).wf(),
            edge@.id == old(self).edge_counter,
            edge@.shape matches EdgeShape::Direct { source, target, conditional } ==> (!conditional
                ==> !has_plain_edge(old(self)@.edges, source, target)),
        ensures
            final(self).wf(),
            final(self)@ == push_edge(old(self)@, edge@.shape),
    {
        let ghost old_view = self@;
        let ghost e = edge@;
        if let EdgeData::Direct(d) = &edge.data {
            if d.condition.is_none() {
                self.conditionless_connections.push((d.source_id.clone(), d.target_id.clone()));
            }
        }
        self.edges.push(edge);
        self.edge_counter = self.edge_counter.wrapping_add(1);
        proof {
            lemma_plain_pairs_push(old_view.edges, e);
            assert(self@.edges =~= old_view.edges.push(e));
            assert(self@ =~= push_edge(old_view, e.shape));
            match e.shape {
                EdgeShape::Direct { source, target, conditional } => {
                    if !conditional {
                        let old_pairs = pairs_view(old(self).conditionless_connections@);
                        assert(pairs_view(self.conditionless_connections@) =~= old_pairs.push((source, target)));
                        old_pairs.lemma_push_to_set_commute((source, target));
                    } else {
                        assert(pairs_view(self.conditionless_connections@) =~= pairs_view(old(self).conditionless_connections@));
                    }
                },
                _ => {
                    assert(pairs_view(self.conditionless_connections@) =~= pairs_view(old(self).conditionless_connections@));
                },
            }
        }
    }

    /// Adds a direct edge: see `add_direct`.
    fn add_edge_internal(
        &mut self,
        source: ExecutorIsh<E>,
        target: ExecutorIsh<E>,
        condition: Option<EdgeCondition>,
        idempotent: bool,
    ) -> (r: Result<(), WorkflowError>)
        requires
            old(self).wf(),
        ensures
            match (r, add_direct(old(self)@, source@, target@, condition is Some, idempotent)) {
                (Ok(()), Ok(v)) => final(self).wf() && final(self)@ == v,
                (Err(e), Err(f)) => failure_matches(e, f),
                _ => false,
            },
    {
        let source_id = source.id().to_owned();
        let target_id = target.id().to_owned();
        let ghost sv = source@;
        let ghost tv = target@;
        match self.track_executor(source) {
            Ok(()) => {},
            Err(e) => return Err(e),
        }
        match self.track_executor(target) {
            Ok(()) => {},
            Err(e) => return Err(e),
        }
        let conditional = condition.is_some();
        if !conditional && self.has_connection(source_id.as_str(), target_id.as_str()) {
            if idempotent {
                return Ok(());
            }
            return Err(WorkflowError::EdgeAlreadyExists(source_id, target_id));
        }
        let edge_id = EdgeId::new(self.edge_counter);
        let edge = Edge {
            data: EdgeData::Direct(DirectEdgeData { source_id, target_id, id: edge_id, condition }),
        };
        self.push_edge(edge);
        Ok(())
    }

    /// Takes note of each executor of `xs` in turn, collecting their ids.
    fn track_each(&mut self, xs: &[ExecutorIsh<E>], ids: &mut Vec<String>) -> (r: Result<(), WorkflowError>)
        requires
            old(self).wf(),
            old(ids)@.len() == 0,
        ensures
            match (r, track_all(old(self)@, xs@.map_values(|x: ExecutorIsh<E>| x@))) {
                (Ok(()), Ok(v)) => final(self).wf() && final(self)@ == v
                    && strings_view(final(ids)@) == ids_of(xs@.map_values(|x: ExecutorIsh<E>| x@)),
                (Err(e), Err(f)) => failure_matches(e, f),
                _ => false,
            },
    {
        let ghost views = xs@.map_values(|x: ExecutorIsh<E>| x@);
        let ghost start = self@;
        let mut i: usize = 0;
        while i < xs.len()
            invariant
                i <= xs@.len(),
                views == xs@.map_values(|x: ExecutorIsh<E>| x@),
                start == old(self)@,
                self.wf(),
                track_all(start, views.take(i as int)) == Ok::<BuilderView, BuildFailure>(self@),
                strings_view(ids@) == ids_of(views.take(i as int)),
            decreases xs@.len() - i,
        {
            let x = xs[i].clone();
            proof {
                assert(views.take(i + 1).drop_last() =~= views.take(i as int));
                assert(views.take(i + 1).last() == views[i as int]);
                assert(x@ == views[i as int]);
            }
            let ghost old_ids = strings_view(ids@);
            ids.push(x.id().to_owned());
            assert(strings_view(ids@) =~= old_ids.push(views[i as int].id));
            assert(ids_of(views.take(i + 1)) =~= ids_of(views.take(i as int)).push(views[i as int].id));
            match self.track_executor(x) {
                Ok(()) => {},
                Err(e) => {
                    proof {
                        lemma_track_all_prefix_err(start, views, i as int);
                    }
                    return Err(e);
                },
            }
            i = i + 1;
        }
        assert(views.take(xs@.len() as int) =~= views);
        Ok(())
    }

    /// Register executors as output sources
    pub fn with_output_from(self, executors: &[ExecutorIsh<E>]) -> (r: Result<Self, WorkflowError>)
        requires
            self.wf(),
        ensures
            build_step_matches(r, track_outputs(self@, executors@.map_values(|x: ExecutorIsh<E>| x@))),
    {
        let ghost start = self@;
        let mut s = self;
        let ghost views = executors@.map_values(|x: ExecutorIsh<E>| x@);
        let mut i: usize = 0;
        while i < executors.len()
            invariant
                i <= executors@.len(),
                views == executors@.map_values(|x: ExecutorIsh<E>| x@),
                start == self@,
                s.wf(),
                track_outputs(start, views.take(i as int)) == Ok::<BuilderView, BuildFailure>(s@),
            decreases executors@.len() - i,
        {
            let x = executors[i].clone();
            let id = x.id().to_owned();
            proof {
                assert(views.take(i + 1).drop_last() =~= views.take(i as int));
                assert(views.take(i + 1).last() == views[i as int]);
                assert(x@ == views[i as int]);
            }
            match s.track_executor(x) {
                Ok(()) => {},
                Err(e) => {
                    proof { lemma_track_outputs_prefix_err(start, views, i as int); }
                    return Err(e);
                },
            }
            let ghost before = s@;
            crate::agents_workflows::message_router::insert_unique(&mut s.output_executors, id.as_str());
            assert(s@ =~= BuilderView { outputs: before.outputs.insert(id@), ..before });
            i = i + 1;
        }
        assert(views.take(executors@.len() as int) =~= views);
        Ok(s)
    }

    /// Bind an unbound executor
    pub fn bind_executor(self, executor: ExecutorIsh<E>) -> (r: Result<Self, WorkflowError>)
        requires
            self.wf(),
        ensures
            build_step_matches(r, bind(self@, executor@)),
    {
        let mut s = self;
        let executor_id = executor.id().to_owned();
        let ghost xv = executor@;
        if !crate::text::contains_string(&s.unbound_executors, executor_id.as_str()) {
            proof {
                if s@.unbound.contains(xv.id) {
                    let j = choose|j: int| 0 <= j < strings_view(s.unbound_executors@).len()
                        && strings_view(s.unbound_executors@)[j] == xv.id;
                    assert(s.unbound_executors@[j]@ == executor_id@);
                }
            }
            let mut message = "Executor '".to_owned();
            message.append(executor_id.as_str());
            message.append("' is already bound or does not exist");
            return Err(invalid_configuration(message));
        }
        proof {
            let j = choose|j: int| 0 <= j < s.unbound_executors@.len() && #[trigger] s.unbound_executors@[j]@ == executor_id@;
            assert(strings_view(s.unbound_executors@)[j] == xv.id);
        }
        if executor.is_unbound() {
            return Ok(s);
        }
        match s.track_executor(executor) {
            Ok(()) => {},
            Err(e) => return Err(e),
        }
        let ghost before = s@;
        remove_string(&mut s.unbound_executors, executor_id.as_str());
        proof {
            assert forall|k: Seq<char>| #[trigger] strings_view(s.unbound_executors@).contains(k)
                implies !registry_map(registry_view(s.registrations@)).contains_key(k) by {
                assert(strings_view(s.unbound_executors@).to_set().contains(k));
                assert(before.unbound.contains(k));
            }
        }
        assert(s@ =~= BuilderView { unbound: before.unbound.remove(xv.id), ..before });
        Ok(s)
    }

    /// Add a direct edge between two executors
    pub fn add_edge(self, source: ExecutorIsh<E>, target: ExecutorIsh<E>) -> (r: Result<Self, WorkflowError>)
        requires
            self.wf(),
        ensures
            build_step_matches(r, add_direct(self@, source@, target@, false, false)),
    {
        let mut s = self;
        match s.add_edge_internal(source, target, None, false) {
            Ok(()) => Ok(s),
            Err(e) => Err(e),
        }
    }

    /// Add a direct edge with a condition
    pub fn add_edge_with_condition<F>(self, source: ExecutorIsh<E>, target: ExecutorIsh<E>, condition: F) -> (r: Result<
        Self,
        WorkflowError,
    >)
        where F: Fn(&serde_json::Value) -> bool + Send + Sync + 'static,
        requires
            self.wf(),
        ensures
            build_step_matches(r, add_direct(self@, source@, target@, true, false)),
    {
        let mut s = self;
        match s.add_edge_internal(source, target, Some(EdgeCondition::new(condition)), false) {
            Ok(()) => Ok(s),
            Err(e) => Err(e),
        }
    }

    /// Add an idempotent edge (won't error if edge already exists)
    pub fn add_edge_idempotent(self, source: ExecutorIsh<E>, target: ExecutorIsh<E>) -> (r: Result<Self, WorkflowError>)
        requires
            self.wf(),
        ensures
            build_step_matches(r, add_direct(self@, source@, target@, false, true)),
    {
        let mut s = self;
        match s.add_edge_internal(source, target, None, true) {
            Ok(()) => Ok(s),
            Err(e) => Err(e),
        }
    }

    /// Adds a fan-out edge: see `add_fan_out`.
    fn add_fan_out_edge_internal(
        &mut self,
        source: ExecutorIsh<E>,
        targets: &[ExecutorIsh<E>],
        partitioner: Option<EdgePartitioner>,
    ) -> (r: Result<(), WorkflowError>)
        requires
            old(self).wf(),
        ensures
            match (r, add_fan_out(old(self)@, source@, targets@.map_values(|x: ExecutorIsh<E>| x@), partitioner is Some)) {
                (Ok(()), Ok(v)) => final(self).wf() && final(self)@ == v,
                (Err(e), Err(f)) => failure_matches(e, f),
                _ => false,
            },
    {
        if targets.len() == 0 {
            return Err(invalid_configuration("Fan-out edge must have at least one target".to_owned()));
        }
        let source_id = source.id().to_owned();
        match self.track_executor(source) {
            Ok(()) => {},
            Err(e) => return Err(e),
        }
        let mut target_ids: Vec<String> = Vec::new();
        match self.track_each(targets, &mut target_ids) {
            Ok(()) => {},
            Err(e) => return Err(e),
        }
        let edge_id = EdgeId::new(self.edge_counter);
        let edge = Edge {
            data: EdgeData::FanOut(FanOutEdgeData { source_id, target_ids, id: edge_id, partitioner }),
        };
        self.push_edge(edge);
        Ok(())
    }

    /// Add a fan-out edge from one source to multiple targets
    pub fn add_fan_out_edge(self, source: ExecutorIsh<E>, targets: &[ExecutorIsh<E>]) -> (r: Result<Self, WorkflowError>)
        requires
            self.wf(),
        ensures
            build_step_matches(r, add_fan_out(self@, source@, targets@.map_values(|x: ExecutorIsh<E>| x@), false)),
    {
        let mut s = self;
        match s.add_fan_out_edge_internal(source, targets, None) {
            Ok(()) => Ok(s),
            Err(e) => Err(e),
        }
    }

    /// Add a fan-out edge with a custom partitioner
    pub fn add_fan_out_edge_with_partitioner<F>(
        self,
        source: ExecutorIsh<E>,
        targets: &[ExecutorIsh<E>],
        partitioner: F,
    ) -> (r: Result<Self, WorkflowError>)
        where F: Fn(&serde_json::Value, usize) -> Vec<usize> + Send + Sync + 'static,
        requires
            self.wf(),
        ensures
            build_step_matches(r, add_fan_out(self@, source@, targets@.map_values(|x: ExecutorIsh<E>| x@), true)),
    {
        let mut s = self;
        match s.add_fan_out_edge_internal(source, targets, Some(EdgePartitioner::new(partitioner))) {
            Ok(()) => Ok(s),
            Err(e) => Err(e),
        }
    }

    /// Add a fan-in edge from multiple sources to one target
    pub fn add_fan_in_edge(self, target: ExecutorIsh<E>, sources: &[ExecutorIsh<E>]) -> (r: Result<Self, WorkflowError>)
        requires
            self.wf(),
        ensures
            build_step_matches(r, add_fan_in(self@, target@, sources@.map_values(|x: ExecutorIsh<E>| x@))),
    {
        let mut s = self;
        if sources.len() == 0 {
            return Err(invalid_configuration("Fan-in edge must have at least one source".to_owned()));
        }
        let target_id = target.id().to_owned();
        match s.track_executor(target) {
            Ok(()) => {},
            Err(e) => return Err(e),
        }
        let mut source_ids: Vec<String> = Vec::new();
        match s.track_each(sources, &mut source_ids) {
            Ok(()) => {},
            Err(e) => return Err(e),
        }
        let edge_id = EdgeId::new(s.edge_counter);
        let edge = Edge { data: EdgeData::FanIn(FanInEdgeData { source_ids, target_id, id: edge_id }) };
        s.push_edge(edge);
        Ok(s)
    }


    /// Validate the workflow configuration: it fails while placeholders are
    /// left unbound or the start executor has no registration.
    fn validate(&self) -> (r: Result<(), WorkflowError>)
        requires
            self.wf(),
        ensures
            match (r, validation(self@)) {
                (Ok(()), None) => true,
                (Err(e), Some(f)) => failure_matches(e, f),
                _ => false,
            },
    {
        if self.unbound_executors.len() > 0 {
            let joined = join_strings(&self.unbound_executors, ", ");
            let mut message = "Unbound executors: ".to_owned();
            message.append(joined.as_str());
            proof {
                let order = strings_view(self.unbound_executors@);
                assert(order =~= self.unbound_executors@.map_values(|s: String| s@));
                assert(order.to_set().contains(order[0]));
                assert(message@ == "Unbound executors: "@ + seq_join(order, ", "@));
            }
            return Err(invalid_configuration(message));
        }
        assert(self@.unbound =~= Set::empty());
        match find_registration(&self.registrations, self.start_executor_id.as_str()) {
            Some(i) => {
                proof { lemma_registry_at(registry_view(self.registrations@), i as int); }
                Ok(())
            },
            None => Err(WorkflowError::ExecutorNotFound(self.start_executor_id.clone())),
        }
    }

    /// Build the workflow: it fails while placeholders are left unbound or
    /// the start executor has no registration.
    pub fn build(self) -> (r: Result<Workflow<E>, WorkflowError>)
        requires
            self.wf(),
        ensures
            match (r, validation(self@)) {
                (Ok(w), None) => w@ == built(self@),
                (Err(e), Some(f)) => failure_matches(e, f),
                _ => false,
            },
    {
        let ghost view = self@;
        match self.validate() {
            Ok(()) => {},
            Err(e) => return Err(e),
        }
        let ghost edges = view.edges;
        let mut router = MessageRouter::new();
        let mut i: usize = 0;
        while i < self.edges.len()
            invariant
                i <= self.edges@.len(),
                edges == self.edges@.map_values(|e: Edge| e@),
                router@ == routes_of(edges.take(i as int)),
            decreases self.edges@.len() - i,
        {
            let e = self.edges[i].clone();
            router.add_edge(e);
            proof {
                assert(edges.take(i + 1).drop_last() =~= edges.take(i as int));
                assert(edges.take(i + 1).last() == edges[i as int]);
            }
            i = i + 1;
        }
        assert(edges.take(self.edges@.len() as int) =~= edges);
        let WorkflowBuilder { start_executor_id, name, description, registrations, output_executors, .. } = self;
        let w = Workflow::new(start_executor_id, name, description, registrations, router, output_executors);
        Ok(w)
    }

}

} // verus!
