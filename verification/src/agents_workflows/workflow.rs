//! A built workflow: its executors, routes, outputs and ownership by a run.
use vstd::prelude::*;
use crate::agents_workflows::edge::{Edge, EdgeInfo, EdgeView, strings_view, strs_view};
use crate::agents_workflows::error::WorkflowError;
use crate::agents_workflows::executor::{
    ExecutorRegistration, RegistrationView, find_registration, lemma_registry_at, lemma_registry_dom,
    lemma_registry_ids, registry_map, registry_view, registry_wf,
};
use crate::agents_workflows::message_router::{MessageRouter, edges_from};
use crate::agents_workflows::edge::clone_strings;
use crate::text::str_eq;

verus! {

/// Token representing ownership of a workflow
#[derive(Debug)]
pub struct OwnershipToken {
    pub owner_id: String,
    pub is_subworkflow: bool,
}

/// A token as the contracts see it.
pub struct TokenView {
    pub owner_id: Seq<char>,
    pub is_subworkflow: bool,
}

impl View for OwnershipToken {
    type V = TokenView;

    open spec fn view(&self) -> TokenView {
        TokenView { owner_id: self.owner_id@, is_subworkflow: self.is_subworkflow }
    }
}

impl Clone for OwnershipToken {
    fn clone(&self) -> (r: Self)
        ensures
            r@ == self@,
    {
        OwnershipToken { owner_id: self.owner_id.clone(), is_subworkflow: self.is_subworkflow }
    }
}

impl OwnershipToken {
    pub fn new(owner_id: String) -> (r: Self)
        ensures
            r@ == (TokenView { owner_id: owner_id@, is_subworkflow: false }),
    {
        OwnershipToken { owner_id, is_subworkflow: false }
    }

    pub fn subworkflow(owner_id: String) -> (r: Self)
        ensures
            r@ == (TokenView { owner_id: owner_id@, is_subworkflow: true }),
    {
        OwnershipToken { owner_id, is_subworkflow: true }
    }
}

/// Information about a request port
#[derive(Debug)]
pub struct RequestPortInfo {
    pub id: String,
    pub description: Option<String>,
    pub input_types: Vec<String>,
}

/// Information about a workflow for serialization/inspection
#[derive(Debug)]
pub struct WorkflowInfo {
    pub start_executor_id: String,
    pub name: Option<String>,
    pub description: Option<String>,
    pub executor_ids: Vec<String>,
    pub edges: Vec<(String, Vec<EdgeInfo>)>,
    pub output_executor_ids: Vec<String>,
    pub allows_concurrent: bool,
}

/// A workflow as the contracts see it.
pub struct WorkflowView {
    pub start: Seq<char>,
    pub name: Option<Seq<char>>,
    pub description: Option<Seq<char>>,
    pub registrations: Map<Seq<char>, RegistrationView>,
    pub routes: Seq<(Seq<char>, EdgeView)>,
    pub outputs: Set<Seq<char>>,
    pub owner: Option<TokenView>,
    pub needs_reset: bool,
}

/// The ids of the registered executors that do not support concurrent
/// execution.
pub open spec fn non_concurrent_ids(regs: Map<Seq<char>, RegistrationView>) -> Set<Seq<char>> {
    Set::new(|k: Seq<char>| regs.contains_key(k) && !regs[k].supports_concurrent)
}


/// Whether `infos` describes the edges `es`, one by one.
pub open spec fn infos_describe(infos: Seq<EdgeInfo>, es: Seq<EdgeView>) -> bool {
    &&& infos.len() == es.len()
    &&& forall|i: int| 0 <= i < infos.len() ==> (#[trigger] infos[i]).describes(es[i])
}

/// Whether `r` is the reflection of the edges of a workflow with
/// registrations `regs` and routing table `routes`: one entry, keyed once,
/// for each registered executor that has outgoing edges, describing them in
/// order.
pub open spec fn reflects_edges(
    r: Seq<(String, Vec<EdgeInfo>)>,
    regs: Map<Seq<char>, RegistrationView>,
    routes: Seq<(Seq<char>, EdgeView)>,
) -> bool {
    &&& forall|a: int, b: int| 0 <= a < r.len() && 0 <= b < r.len() && a != b ==> (#[trigger] r[a]).0@ != (#[trigger] r[b]).0@
    &&& forall|a: int| 0 <= a < r.len() ==> regs.contains_key((#[trigger] r[a]).0@)
        && edges_from(routes, r[a].0@).len() > 0 && infos_describe(r[a].1@, edges_from(routes, r[a].0@))
    &&& forall|k: Seq<char>| #[trigger] regs.contains_key(k) && edges_from(routes, k).len() > 0 ==> exists|a: int|
        0 <= a < r.len() && (#[trigger] r[a]).0@ == k
}

/// The characters of an optional string.
pub open spec fn opt_string_view(s: Option<String>) -> Option<Seq<char>> {
    match s {
        Some(x) => Some(x@),
        None => None,
    }
}

/// The token of an optional owner.
pub open spec fn opt_token_view(t: Option<OwnershipToken>) -> Option<TokenView> {
    match t {
        Some(x) => Some(x@),
        None => None,
    }
}

/// The token that an optional reference points to, as the contracts see it.
pub open spec fn opt_token_ref_view(t: Option<&OwnershipToken>) -> Option<TokenView> {
    match t {
        Some(x) => Some(x@),
        None => None,
    }
}

/// A workflow that can be executed. `E` is the type of the executor
/// instances that the registered factories make.
#[verifier::reject_recursive_types(E)]
pub struct Workflow<E> {
    start_executor_id: String,
    name: Option<String>,
    description: Option<String>,
    registrations: Vec<(String, ExecutorRegistration<E>)>,
    message_router: MessageRouter,
    output_executors: Vec<String>,
    ownership_token: Option<OwnershipToken>,
    needs_reset: bool,
}

impl<E> View for Workflow<E> {
    type V = WorkflowView;

    closed spec fn view(&self) -> WorkflowView {
        WorkflowView {
            start: self.start_executor_id@,
            name: opt_string_view(self.name),
            description: opt_string_view(self.description),
            registrations: registry_map(registry_view(self.registrations@)),
            routes: self.message_router@,
            outputs: strings_view(self.output_executors@).to_set(),
            owner: opt_token_view(self.ownership_token),
            needs_reset: self.needs_reset,
        }
    }
}

/// The message of the error that `take_ownership` returns while another
/// owner holds the workflow.
pub open spec fn already_owned_message(owner: Seq<char>) -> Seq<char> {
    "Workflow is already owned by '"@ + owner + "'"@
}

/// The message of the error that `release_ownership` returns for a token that
/// is not the owner's.
pub open spec fn release_mismatch_message(owner: Seq<char>, other: Seq<char>) -> Seq<char> {
    "Cannot release ownership: owned by '"@ + owner + "', not '"@ + other + "'"@
}

/// The message of the error that `check_ownership` returns when the tokens
/// differ.
pub open spec fn ownership_mismatch_message(expected: Seq<char>, actual: Seq<char>) -> Seq<char> {
    "Ownership mismatch: expected '"@ + expected + "', actual '"@ + actual + "'"@
}

/// The message of the error that `check_ownership` returns when the workflow
/// is owned but no owner was expected.
pub open spec fn unexpected_owner_message(owner: Seq<char>) -> Seq<char> {
    "Workflow is owned by '"@ + owner + "' but no ownership expected"@
}

/// The message of the error that `check_ownership` returns when an owner was
/// expected but the workflow is unowned.
pub open spec fn missing_owner_message(expected: Seq<char>) -> Seq<char> {
    "Expected ownership by '"@ + expected + "' but workflow is unowned"@
}

/// Whether `e` is an ownership error with message `m`.
pub open spec fn is_ownership_error(e: WorkflowError, m: Seq<char>) -> bool {
    e matches WorkflowError::OwnershipError { message } && message@ == m
}

/// What taking ownership with `token` does to a workflow `w`: the workflow
/// owned by `token`, or the message of the ownership error it is refused with.
pub open spec fn take_outcome(w: WorkflowView, token: TokenView) -> Result<WorkflowView, Seq<char>> {
    match w.owner {
        Some(existing) if existing.owner_id != token.owner_id => Err(already_owned_message(existing.owner_id)),
        _ => if w.needs_reset {
            Err("Workflow needs reset before reuse"@)
        } else {
            Ok(WorkflowView { owner: Some(token), ..w })
        },
    }
}

/// Whether some registered executor can be reset.
pub open spec fn any_resettable(regs: Map<Seq<char>, RegistrationView>) -> bool {
    exists|k: Seq<char>| #[trigger] regs.contains_key(k) && regs[k].supports_resetting
}

/// What releasing ownership with `token` does to a workflow `w`: the unowned
/// workflow, which no longer needs a reset when some executor can be reset,
/// or the message of the ownership error it is refused with.
pub open spec fn release_outcome(w: WorkflowView, token: TokenView) -> Result<WorkflowView, Seq<char>> {
    match w.owner {
        Some(current) => if current.owner_id == token.owner_id {
            Ok(WorkflowView {
                owner: None,
                needs_reset: if any_resettable(w.registrations) { false } else { w.needs_reset },
                ..w
            })
        } else {
            Err(release_mismatch_message(current.owner_id, token.owner_id))
        },
        None => Err("Workflow is not currently owned"@),
    }
}

/// What checking the owner `owner` of a workflow against `expected` answers:
/// success, or the message of the ownership error.
pub open spec fn check_outcome(owner: Option<TokenView>, expected: Option<TokenView>) -> Result<(), Seq<char>> {
    match (owner, expected) {
        (Some(current), Some(exp)) => if current.owner_id == exp.owner_id {
            Ok(())
        } else {
            Err(ownership_mismatch_message(exp.owner_id, current.owner_id))
        },
        (Some(current), None) => Err(unexpected_owner_message(current.owner_id)),
        (None, Some(exp)) => Err(missing_owner_message(exp.owner_id)),
        (None, None) => Ok(()),
    }
}

/// Whether the result `r` and the workflow `after` of an ownership operation
/// are what `outcome` describes for the workflow `before`.
pub open spec fn ownership_step_matches(
    r: Result<(), WorkflowError>,
    before: WorkflowView,
    after: WorkflowView,
    outcome: Result<WorkflowView, Seq<char>>,
) -> bool {
    match outcome {
        Ok(v) => r is Ok && after == v,
        Err(m) => r matches Err(e) && is_ownership_error(e, m) && after == before,
    }
}

/// A workflow that its owner checks after taking it is owned by that owner:
/// the ownership check with the same token succeeds.
pub proof fn law_taken_workflow_checks_owner(w: WorkflowView, token: TokenView)
    requires
        take_outcome(w, token) is Ok,
    ensures
        take_outcome(w, token)->Ok_0.owner == Some(token),
        check_outcome(take_outcome(w, token)->Ok_0.owner, Some(token)) is Ok,
{
}

/// Ownership is exclusive: once a token owns a workflow, a token of another
/// owner can neither take it nor pass the ownership check.
pub proof fn law_ownership_is_exclusive(w: WorkflowView, token: TokenView, other: TokenView)
    requires
        take_outcome(w, token) is Ok,
        other.owner_id != token.owner_id,
    ensures
        take_outcome(take_outcome(w, token)->Ok_0, other) == Err::<WorkflowView, Seq<char>>(
            already_owned_message(token.owner_id),
        ),
        check_outcome(take_outcome(w, token)->Ok_0.owner, Some(other)) == Err::<(), Seq<char>>(
            ownership_mismatch_message(other.owner_id, token.owner_id),
        ),
        release_outcome(take_outcome(w, token)->Ok_0, other) == Err::<WorkflowView, Seq<char>>(
            release_mismatch_message(token.owner_id, other.owner_id),
        ),
{
}

/// Taking a workflow again with the owner's own token changes nothing.
pub proof fn law_retaking_by_owner_is_no_change(w: WorkflowView, token: TokenView)
    requires
        take_outcome(w, token) is Ok,
    ensures
        take_outcome(take_outcome(w, token)->Ok_0, token) == take_outcome(w, token),
{
}

/// Releasing undoes taking: the owner that took a workflow can release it,
/// after which the workflow is unowned, passes the ownership check that expects no
/// owner, and keeps everything else but the need for a reset.
pub proof fn law_release_undoes_take(w: WorkflowView, token: TokenView)
    requires
        take_outcome(w, token) is Ok,
    ensures
        release_outcome(take_outcome(w, token)->Ok_0, token) is Ok,
        ({
            let v = release_outcome(take_outcome(w, token)->Ok_0, token)->Ok_0;
            &&& v.owner is None
            &&& check_outcome(v.owner, None) is Ok
            &&& v == (WorkflowView { owner: None, needs_reset: v.needs_reset, ..w })
        }),
{
}

/// Taking ownership of a workflow that needs no reset fails exactly when
/// another owner holds it; a failure leaves the owner as it was, and a
/// success makes the token the owner, also when its owner takes it again.
pub proof fn law_take_ownership(w: WorkflowView, token: TokenView)
    requires
        !w.needs_reset,
    ensures
        (take_outcome(w, token) is Err) == (w.owner matches Some(c) && c.owner_id != token.owner_id),
        take_outcome(w, token) is Ok ==> take_outcome(w, token)->Ok_0.owner == Some(token),
{
}

/// Text made of the given pieces, in order.
fn text3(a: &str, b: &str, c: &str) -> (r: String)
    ensures
        r@ == a@ + b@ + c@,
{
    let mut r = a.to_owned();
    r.append(b);
    r.append(c);
    r
}

fn text5(a: &str, b: &str, c: &str, d: &str, e: &str) -> (r: String)
    ensures
        r@ == a@ + b@ + c@ + d@ + e@,
{
    let mut r = a.to_owned();
    r.append(b);
    r.append(c);
    r.append(d);
    r.append(e);
    r
}

fn clone_opt(s: &Option<String>) -> (r: Option<String>)
    ensures
        r == *s,
{
    match s {
        Some(x) => Some(x.clone()),
        None => None,
    }
}

fn ownership_error(message: String) -> (r: WorkflowError)
    ensures
        is_ownership_error(r, message@),
{
    WorkflowError::OwnershipError { message }
}

impl<E> Workflow<E> {
    /// The invariant of a workflow: a well-formed table of registrations and
    /// output executors listed once each.
    #[verifier::type_invariant]
    spec fn wf(&self) -> bool {
        &&& registry_wf(registry_view(self.registrations@))
        &&& strings_view(self.output_executors@).no_duplicates()
        &&& !self.needs_reset
    }

    /// Assembles a workflow from its parts, unowned.
    pub(crate) fn new(
        start_executor_id: String,
        name: Option<String>,
        description: Option<String>,
        registrations: Vec<(String, ExecutorRegistration<E>)>,
        message_router: MessageRouter,
        output_executors: Vec<String>,
    ) -> (r: Self)
        requires
            registry_wf(registry_view(registrations@)),
            strings_view(output_executors@).no_duplicates(),
        ensures
            r@ == (WorkflowView {
                start: start_executor_id@,
                name: opt_string_view(name),
                description: opt_string_view(description),
                registrations: registry_map(registry_view(registrations@)),
                routes: message_router@,
                outputs: strings_view(output_executors@).to_set(),
                owner: None,
                needs_reset: false,
            }),
    {
        Workflow {
            start_executor_id,
            name,
            description,
            registrations,
            message_router,
            output_executors,
            ownership_token: None,
            needs_reset: false,
        }
    }

    /// Get the starting executor ID
    pub fn start_executor_id(&self) -> (r: &str)
        ensures
            r@ == self@.start,
    {
        self.start_executor_id.as_str()
    }

    /// Get the workflow name
    pub fn name(&self) -> (r: Option<&str>)
        ensures
            match r {
                Some(s) => self@.name == Some(s@),
                None => self@.name is None,
            },
    {
        match &self.name {
            Some(s) => Some(s.as_str()),
            None => None,
        }
    }

    /// Get the workflow description
    pub fn description(&self) -> (r: Option<&str>)
        ensures
            match r {
                Some(s) => self@.description == Some(s@),
                None => self@.description is None,
            },
    {
        match &self.description {
            Some(s) => Some(s.as_str()),
            None => None,
        }
    }

    /// Check if all executors support concurrent execution
    pub fn allow_concurrent(&self) -> (r: bool)
        ensures
            r == (forall|k: Seq<char>| #[trigger] self@.registrations.contains_key(k)
                ==> self@.registrations[k].supports_concurrent),
    {
        proof { use_type_invariant(self); }
        let ghost regs = registry_view(self.registrations@);
        let mut i: usize = 0;
        while i < self.registrations.len()
            invariant
                i <= self.registrations@.len(),
                regs == registry_view(self.registrations@),
                registry_wf(regs),
                forall|j: int| 0 <= j < i ==> (#[trigger] regs[j]).1.supports_concurrent,
            decreases self.registrations@.len() - i,
        {
            if !self.registrations[i].1.supports_concurrent {
                proof { lemma_registry_at(regs, i as int); }
                assert(self@.registrations.contains_key(regs[i as int].0));
                assert(!self@.registrations[regs[i as int].0].supports_concurrent);
                return false;
            }
            i = i + 1;
        }
        assert forall|k: Seq<char>| #[trigger] self@.registrations.contains_key(k)
            implies self@.registrations[k].supports_concurrent by {
            lemma_registry_dom(regs, k);
            let j = choose|j: int| 0 <= j < regs.len() && (#[trigger] regs[j]).0 == k;
            lemma_registry_at(regs, j);
        }
        true
    }

    /// Get executor IDs that don't support concurrent execution, each once
    pub fn non_concurrent_executor_ids(&self) -> (r: Vec<&str>)
        ensures
            strs_view(r@).no_duplicates(),
            strs_view(r@).to_set() == non_concurrent_ids(self@.registrations),
    {
        proof { use_type_invariant(self); }
        let ghost regs = registry_view(self.registrations@);
        let mut r: Vec<&str> = Vec::new();
        let ghost mut idx: Seq<int> = Seq::empty();
        let mut i: usize = 0;
        proof { lemma_registry_ids(regs); }
        while i < self.registrations.len()
            invariant
                i <= self.registrations@.len(),
                regs == registry_view(self.registrations@),
                registry_wf(regs),
                idx.len() == r@.len(),
                forall|a: int| 0 <= a < idx.len() ==> 0 <= #[trigger] idx[a] < i && regs[idx[a]].0 == r@[a]@
                    && !regs[idx[a]].1.supports_concurrent,
                forall|a: int, b: int| 0 <= a < b < idx.len() ==> #[trigger] idx[a] < #[trigger] idx[b],
                forall|j: int| 0 <= j < i && !(#[trigger] regs[j]).1.supports_concurrent ==> exists|a: int|
                    0 <= a < idx.len() && idx[a] == j,
            decreases self.registrations@.len() - i,
        {
            if !self.registrations[i].1.supports_concurrent {
                r.push(self.registrations[i].1.id.as_str());
                proof {
                    assert(regs[i as int].0 == regs[i as int].1.id);
                    let old_idx = idx;
                    idx = idx.push(i as int);
                    assert forall|j: int| 0 <= j < i + 1 && !(#[trigger] regs[j]).1.supports_concurrent
                        implies exists|a: int| 0 <= a < idx.len() && idx[a] == j by {
                        if j < i {
                            let a = choose|a: int| 0 <= a < old_idx.len() && old_idx[a] == j;
                            assert(idx[a] == j);
                        } else {
                            assert(idx[old_idx.len() as int] == j);
                        }
                    }
                }
            }
            i = i + 1;
        }
        proof {
            assert forall|a: int, b: int| 0 <= a < strs_view(r@).len() && 0 <= b < strs_view(r@).len() && a != b
                implies strs_view(r@)[a] != strs_view(r@)[b] by {
                if a < b {
                    assert(idx[a] < idx[b]);
                } else {
                    assert(idx[b] < idx[a]);
                }
                assert(regs[idx[a]].0 != regs[idx[b]].0);
            }
            assert forall|k: Seq<char>| strs_view(r@).contains(k) <==> (#[trigger] self@.registrations.contains_key(k)
                && !self@.registrations[k].supports_concurrent) by {
                lemma_registry_dom(regs, k);
                if strs_view(r@).contains(k) {
                    let a = choose|a: int| 0 <= a < strs_view(r@).len() && strs_view(r@)[a] == k;
                    lemma_registry_at(regs, idx[a]);
                }
                if self@.registrations.contains_key(k) && !self@.registrations[k].supports_concurrent {
                    let j = choose|j: int| 0 <= j < regs.len() && (#[trigger] regs[j]).0 == k;
                    lemma_registry_at(regs, j);
                    let a = choose|a: int| 0 <= a < idx.len() && idx[a] == j;
                    assert(strs_view(r@)[a] == k);
                }
            }
        }
        assert(strs_view(r@).to_set() =~= non_concurrent_ids(self@.registrations));
        r
    }

    /// Get information about external request ports: none are implemented.
    pub fn reflect_ports(&self) -> (r: Vec<(String, RequestPortInfo)>)
        ensures
            r@.len() == 0,
    {
        Vec::new()
    }

    /// Take ownership of the workflow for execution
    pub fn take_ownership(&mut self, token: OwnershipToken) -> (r: Result<(), WorkflowError>)
        ensures
            ownership_step_matches(r, old(self)@, final(self)@, take_outcome(old(self)@, token@)),
            !old(self)@.needs_reset,
            !final(self)@.needs_reset,
    {
        proof { use_type_invariant(&*self); }
        if let Some(existing) = &self.ownership_token {
            if !str_eq(existing.owner_id.as_str(), token.owner_id.as_str()) {
                return Err(ownership_error(text3("Workflow is already owned by '", existing.owner_id.as_str(), "'")));
            }
        }
        if self.needs_reset {
            return Err(ownership_error("Workflow needs reset before reuse".to_owned()));
        }
        self.ownership_token = Some(token);
        Ok(())
    }

    /// Release ownership of the workflow; when some executor supports
    /// resetting, the workflow no longer needs a reset.
    pub fn release_ownership(&mut self, token: &OwnershipToken) -> (r: Result<(), WorkflowError>)
        ensures
            ownership_step_matches(r, old(self)@, final(self)@, release_outcome(old(self)@, token@)),
            !final(self)@.needs_reset,
    {
        proof { use_type_invariant(&*self); }
        match &self.ownership_token {
            Some(current) => {
                if str_eq(current.owner_id.as_str(), token.owner_id.as_str()) {
                    self.ownership_token = None;
                    self.try_reset_executors();
                    Ok(())
                } else {
                    Err(ownership_error(text5(
                        "Cannot release ownership: owned by '",
                        current.owner_id.as_str(),
                        "', not '",
                        token.owner_id.as_str(),
                        "'",
                    )))
                }
            },
            None => Err(ownership_error("Workflow is not currently owned".to_owned())),
        }
    }

    /// Check ownership with optional token
    pub fn check_ownership(&self, expected_token: Option<&OwnershipToken>) -> (r: Result<(), WorkflowError>)
        ensures
            match check_outcome(self@.owner, opt_token_ref_view(expected_token)) {
                Ok(()) => r is Ok,
                Err(m) => r matches Err(e) && is_ownership_error(e, m),
            },
    {
        match (&self.ownership_token, expected_token) {
            (Some(current), Some(expected)) => {
                if str_eq(current.owner_id.as_str(), expected.owner_id.as_str()) {
                    Ok(())
                } else {
                    Err(ownership_error(text5(
                        "Ownership mismatch: expected '",
                        expected.owner_id.as_str(),
                        "', actual '",
                        current.owner_id.as_str(),
                        "'",
                    )))
                }
            },
            (Some(current), None) => Err(ownership_error(text3(
                "Workflow is owned by '",
                current.owner_id.as_str(),
                "' but no ownership expected",
            ))),
            (None, Some(expected)) => Err(ownership_error(text3(
                "Expected ownership by '",
                expected.owner_id.as_str(),
                "' but workflow is unowned",
            ))),
            (None, None) => Ok(()),
        }
    }

    /// Clears the need for a reset when some executor supports resetting.
    fn try_reset_executors(&mut self)
        ensures
            final(self)@ == (WorkflowView {
                needs_reset: if any_resettable(old(self)@.registrations) { false } else { old(self)@.needs_reset },
                ..old(self)@
            }),
    {
        proof { use_type_invariant(&*self); }
        let ghost regs = registry_view(self.registrations@);
        let mut i: usize = 0;
        let mut has_resettable = false;
        while i < self.registrations.len()
            invariant
                i <= self.registrations@.len(),
                regs == registry_view(self.registrations@),
                has_resettable == (exists|j: int| 0 <= j < i && (#[trigger] regs[j]).1.supports_resetting),
            decreases self.registrations@.len() - i,
        {
            if self.registrations[i].1.supports_resetting {
                has_resettable = true;
                assert(regs[i as int].1.supports_resetting);
            }
            i = i + 1;
        }
        proof {
            if has_resettable {
                let j = choose|j: int| 0 <= j < regs.len() && (#[trigger] regs[j]).1.supports_resetting;
                lemma_registry_at(regs, j);
            }
            if exists|k: Seq<char>| #[trigger] self@.registrations.contains_key(k) && self@.registrations[k].supports_resetting {
                let k = choose|k: Seq<char>| #[trigger] self@.registrations.contains_key(k) && self@.registrations[k].supports_resetting;
                lemma_registry_dom(regs, k);
                let j = choose|j: int| 0 <= j < regs.len() && (#[trigger] regs[j]).0 == k;
                lemma_registry_at(regs, j);
            }
        }
        if has_resettable {
            self.needs_reset = false;
        }
    }

    /// The registration of the executor `id`, if it is registered.
    pub fn registration(&self, id: &str) -> (r: Option<&ExecutorRegistration<E>>)
        ensures
            match r {
                Some(reg) => self@.registrations.contains_key(id@) && reg@ == self@.registrations[id@],
                None => !self@.registrations.contains_key(id@),
            },
    {
        proof { use_type_invariant(self); }
        match find_registration(&self.registrations, id) {
            Some(i) => {
                proof { lemma_registry_at(registry_view(self.registrations@), i as int); }
                Some(&self.registrations[i].1)
            },
            None => None,
        }
    }

    /// The router that carries messages along the workflow's edges.
    pub fn message_router(&self) -> (r: &MessageRouter)
        ensures
            r@ == self@.routes,
    {
        &self.message_router
    }

    /// The registration of the start executor.
    pub fn start_registration(&self) -> (r: Result<&ExecutorRegistration<E>, WorkflowError>)
        ensures
            match r {
                Ok(reg) => self@.registrations.contains_key(self@.start) && reg@ == self@.registrations[self@.start],
                Err(e) => !self@.registrations.contains_key(self@.start) && (e matches WorkflowError::ExecutorNotFound(x)
                    && x@ == self@.start),
            },
    {
        proof { use_type_invariant(self); }
        match find_registration(&self.registrations, self.start_executor_id.as_str()) {
            Some(i) => {
                proof { lemma_registry_at(registry_view(self.registrations@), i as int); }
                Ok(&self.registrations[i].1)
            },
            None => Err(WorkflowError::ExecutorNotFound(self.start_executor_id.clone())),
        }
    }

    /// The ids of the registered executors, each once.
    pub fn executor_ids(&self) -> (r: Vec<String>)
        ensures
            strings_view(r@).no_duplicates(),
            strings_view(r@).to_set() == self@.registrations.dom(),
    {
        proof { use_type_invariant(self); }
        let ghost regs = registry_view(self.registrations@);
        let mut r: Vec<String> = Vec::new();
        let mut i: usize = 0;
        while i < self.registrations.len()
            invariant
                i <= self.registrations@.len(),
                regs == registry_view(self.registrations@),
                registry_wf(regs),
                r@.len() == i,
                forall|j: int| 0 <= j < i ==> #[trigger] r@[j]@ == regs[j].0,
            decreases self.registrations@.len() - i,
        {
            r.push(self.registrations[i].0.clone());
            i = i + 1;
        }
        proof {
            assert(strings_view(r@) =~= regs.map_values(|p: (Seq<char>, RegistrationView)| p.0));
            assert forall|a: int, b: int| 0 <= a < strings_view(r@).len() && 0 <= b < strings_view(r@).len() && a != b
                implies strings_view(r@)[a] != strings_view(r@)[b] by {
                assert(regs[a].0 != regs[b].0);
            }
            assert forall|k: Seq<char>| strings_view(r@).to_set().contains(k) == self@.registrations.dom().contains(k) by {
                lemma_registry_dom(regs, k);
                if strings_view(r@).contains(k) {
                    let a = choose|a: int| 0 <= a < strings_view(r@).len() && strings_view(r@)[a] == k;
                    assert(regs[a].0 == k);
                }
                if self@.registrations.contains_key(k) {
                    let a = choose|a: int| 0 <= a < regs.len() && (#[trigger] regs[a]).0 == k;
                    assert(strings_view(r@)[a] == k);
                }
            }
            assert(strings_view(r@).to_set() =~= self@.registrations.dom());
        }
        r
    }

    /// Get reflection information about edges, by source executor
    pub fn reflect_edges(&self) -> (r: Vec<(String, Vec<EdgeInfo>)>)
        ensures
            reflects_edges(r@, self@.registrations, self@.routes),
    {
        proof { use_type_invariant(self); }
        let ghost regs = registry_view(self.registrations@);
        let ghost routes = self.message_router@;
        let mut r: Vec<(String, Vec<EdgeInfo>)> = Vec::new();
        let ghost mut idx: Seq<int> = Seq::empty();
        let mut i: usize = 0;
        while i < self.registrations.len()
            invariant
                i <= self.registrations@.len(),
                regs == registry_view(self.registrations@),
                routes == self.message_router@,
                registry_wf(regs),
                idx.len() == r@.len(),
                forall|a: int| 0 <= a < idx.len() ==> 0 <= #[trigger] idx[a] < i && regs[idx[a]].0 == r@[a].0@
                    && edges_from(routes, r@[a].0@).len() > 0 && infos_describe(r@[a].1@, edges_from(routes, r@[a].0@)),
                forall|a: int, b: int| 0 <= a < b < idx.len() ==> #[trigger] idx[a] < #[trigger] idx[b],
                forall|j: int| 0 <= j < i && edges_from(routes, (#[trigger] regs[j]).0).len() > 0 ==> exists|a: int|
                    0 <= a < idx.len() && idx[a] == j,
            decreases self.registrations@.len() - i,
        {
            let key = &self.registrations[i].0;
            let edges = self.message_router.get_edges_from(key.as_str());
            if edges.len() > 0 {
                let mut infos: Vec<EdgeInfo> = Vec::new();
                let mut k: usize = 0;
                while k < edges.len()
                    invariant
                        k <= edges@.len(),
                        edges@.map_values(|e: &Edge| e@) == edges_from(routes, key@),
                        infos@.len() == k,
                        forall|c: int| 0 <= c < k ==> (#[trigger] infos@[c]).describes(edges_from(routes, key@)[c]),
                    decreases edges@.len() - k,
                {
                    infos.push(EdgeInfo::from(edges[k]));
                    k = k + 1;
                }
                r.push((key.clone(), infos));
                proof {
                    let old_idx = idx;
                    idx = idx.push(i as int);
                    assert forall|j: int| 0 <= j < i + 1 && edges_from(routes, (#[trigger] regs[j]).0).len() > 0
                        implies exists|a: int| 0 <= a < idx.len() && idx[a] == j by {
                        if j < i {
                            let a = choose|a: int| 0 <= a < old_idx.len() && old_idx[a] == j;
                            assert(idx[a] == j);
                        } else {
                            assert(idx[old_idx.len() as int] == j);
                        }
                    }
                }
            }
            i = i + 1;
        }
        proof {
            assert forall|a: int, b: int| 0 <= a < r@.len() && 0 <= b < r@.len() && a != b
                implies (#[trigger] r@[a]).0@ != (#[trigger] r@[b]).0@ by {
                if a < b {
                    assert(idx[a] < idx[b]);
                } else {
                    assert(idx[b] < idx[a]);
                }
                assert(regs[idx[a]].0 != regs[idx[b]].0);
            }
            assert forall|a: int| 0 <= a < r@.len() implies self@.registrations.contains_key((#[trigger] r@[a]).0@)
                && edges_from(self@.routes, r@[a].0@).len() > 0 && infos_describe(r@[a].1@, edges_from(self@.routes, r@[a].0@)) by {
                assert(0 <= idx[a]);
                lemma_registry_at(regs, idx[a]);
            }
            assert forall|k: Seq<char>| #[trigger] self@.registrations.contains_key(k) && edges_from(routes, k).len() > 0
                implies exists|a: int| 0 <= a < r@.len() && (#[trigger] r@[a]).0@ == k by {
                lemma_registry_dom(regs, k);
                let j = choose|j: int| 0 <= j < regs.len() && (#[trigger] regs[j]).0 == k;
                let a = choose|a: int| 0 <= a < idx.len() && idx[a] == j;
                assert(r@[a].0@ == k);
            }
        }
        r
    }

    /// Get workflow information for serialization/inspection
    pub fn to_workflow_info(&self) -> (r: WorkflowInfo)
        ensures
            r.start_executor_id@ == self@.start,
            opt_string_view(r.name) == self@.name,
            opt_string_view(r.description) == self@.description,
            strings_view(r.executor_ids@).no_duplicates(),
            strings_view(r.executor_ids@).to_set() == self@.registrations.dom(),
            reflects_edges(r.edges@, self@.registrations, self@.routes),
            strings_view(r.output_executor_ids@).no_duplicates(),
            strings_view(r.output_executor_ids@).to_set() == self@.outputs,
            r.allows_concurrent == (forall|k: Seq<char>| #[trigger] self@.registrations.contains_key(k)
                ==> self@.registrations[k].supports_concurrent),
    {
        proof { use_type_invariant(self); }
        WorkflowInfo {
            start_executor_id: self.start_executor_id.clone(),
            name: clone_opt(&self.name),
            description: clone_opt(&self.description),
            executor_ids: self.executor_ids(),
            edges: self.reflect_edges(),
            output_executor_ids: clone_strings(&self.output_executors),
            allows_concurrent: self.allow_concurrent(),
        }
    }

}

} // verus!
