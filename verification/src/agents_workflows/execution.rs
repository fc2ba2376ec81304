//! The decisions of the workflow execution loop: which messages a super step
//! delivers next, how super steps are named, what one delivery counts for,
//! and when and how the loop stops. The loop itself, which awaits executors
//! and channels, runs outside the library.
use vstd::prelude::*;
use crate::agents_workflows::context::OutgoingMessage;
use crate::agents_workflows::edge::{EdgeOutcome, EdgeView, route_targets_view};
use crate::external::copy_value;
use crate::agents_workflows::message_router::{MessageRouter, calls_recorded, routed};
use crate::agents_workflows::run::RunStatus;
use crate::agents_workflows::events::WorkflowEventKind;

verus! {

/// The view of an optional string.
pub open spec fn opt_string_view(s: Option<String>) -> Option<Seq<char>> {
    match s {
        Some(x) => Some(x@),
        None => None,
    }
}

/// An outgoing message as the contracts see it: target, source, payload.
pub open spec fn outgoing_view(m: OutgoingMessage) -> (Option<Seq<char>>, Seq<char>, serde_json::Value) {
    (opt_string_view(m.target_id), m.source_id@, m.message)
}

/// The messages sent on after `message` was handled: one for each target the
/// router gives, addressed to that target and still from the message's
/// source.
pub open spec fn forwarded(routes: Seq<(Seq<char>, serde_json::Value)>, source: Seq<char>) -> Seq<
    (Option<Seq<char>>, Seq<char>, serde_json::Value),
> {
    routes.map_values(|t: (Seq<char>, serde_json::Value)| (Some(t.0), source, t.1))
}

/// Routes a message that an executor sent on to the executors its sender is
/// connected to (only to its target, when it names one): one delivery for
/// each target the router gives.
pub fn forward_message(router: &MessageRouter, message: &OutgoingMessage) -> (r: Vec<OutgoingMessage>)
    ensures
        exists|outcomes: Seq<EdgeOutcome>| calls_recorded(
            router@,
            message.source_id@,
            message.message,
            opt_string_view(message.target_id),
            outcomes,
        ) && r@.map_values(
            |m: OutgoingMessage| outgoing_view(m),
        ) == forwarded(
            #[trigger] routed(router@, message.source_id@, message.message, opt_string_view(message.target_id), outcomes),
            message.source_id@,
        ),
{
    let target: Option<&str> = match &message.target_id {
        Some(t) => Some(t.as_str()),
        None => None,
    };
    let routed_targets = router.route_message(message.source_id.as_str(), &message.message, target);
    let targets = match routed_targets {
        Ok(t) => t,
        Err(_) => Vec::new(),
    };
    let ghost tv = route_targets_view(targets@);
    let mut out: Vec<OutgoingMessage> = Vec::new();
    let mut i: usize = 0;
    while i < targets.len()
        invariant
            i <= targets@.len(),
            tv == route_targets_view(targets@),
            out@.len() == i,
            forall|j: int| 0 <= j < i ==> #[trigger] outgoing_view(out@[j]) == forwarded(tv, message.source_id@)[j],
        decreases targets@.len() - i,
    {
        out.push(OutgoingMessage {
            message: copy_value(&targets[i].message),
            target_id: Some(targets[i].executor_id.clone()),
            source_id: message.source_id.clone(),
        });
        i = i + 1;
    }
    assert(out@.map_values(|m: OutgoingMessage| outgoing_view(m)) =~= forwarded(tv, message.source_id@));
    out
}

/// The decimal digits of `n`.
pub open spec fn decimal(n: nat) -> Seq<char>
    decreases n,
{
    if n < 10 {
        seq![digit_char(n)]
    } else {
        decimal(n / 10) + seq![digit_char(n % 10)]
    }
}

/// The character of a decimal digit.
pub open spec fn digit_char(d: nat) -> char {
    if d == 0 { '0' } else if d == 1 { '1' } else if d == 2 { '2' } else if d == 3 { '3' } else if d == 4 { '4' }
    else if d == 5 { '5' } else if d == 6 { '6' } else if d == 7 { '7' } else if d == 8 { '8' } else { '9' }
}

/// The decimal digits of a number are those of its tens followed by its last
/// digit, and a number below ten is its own single digit; distinct digits
/// are written with distinct characters.
pub proof fn law_decimal_ends_with_last_digit(q: nat, d: nat, e: nat)
    requires
        d < 10,
        e < 10,
    ensures
        decimal(d) == seq![digit_char(d)],
        q > 0 ==> decimal(q * 10 + d) == decimal(q) + seq![digit_char(d)],
        d != e ==> digit_char(d) != digit_char(e),
{
    if q > 0 {
        assert((q * 10 + d) / 10 == q && (q * 10 + d) % 10 == d) by (nonlinear_arith)
            requires
                d < 10,
        ;
    }
}

fn digit(d: u64) -> (c: char)
    requires
        d < 10,
    ensures
        c == digit_char(d as nat),
{
    if d == 0 { '0' } else if d == 1 { '1' } else if d == 2 { '2' } else if d == 3 { '3' } else if d == 4 { '4' }
    else if d == 5 { '5' } else if d == 6 { '6' } else if d == 7 { '7' } else if d == 8 { '8' } else { '9' }
}

/// The name of super step `n`: "step_" followed by its number.
pub fn step_id(n: u64) -> (r: String)
    ensures
        r@ == "step_"@ + decimal(n as nat),
{
    let mut digits: Vec<char> = Vec::new();
    let mut m: u64 = n;
    while m >= 10
        invariant
            decimal(n as nat) == decimal(m as nat) + digits@.reverse(),
        decreases m,
    {
        let ghost before = digits@;
        digits.push(digit(m % 10));
        assert(decimal(m as nat) == decimal((m / 10) as nat) + seq![digit_char((m % 10) as nat)]);
        assert(digits@.reverse() =~= seq![digit_char((m % 10) as nat)] + before.reverse());
        m = m / 10;
    }
    digits.push(digit(m));
    assert(decimal(m as nat) == seq![digit_char(m as nat)]);
    let mut r = "step_".to_owned();
    let ghost prefix = r@;
    let mut i: usize = digits.len();
    while i > 0
        invariant
            i <= digits@.len(),
            r@ == prefix + digits@.subrange(i as int, digits@.len() as int).reverse(),
        decreases i,
    {
        i = i - 1;
        let ghost before = r@;
        r.push(digits[i]);
        assert(digits@.subrange(i as int, digits@.len() as int).reverse() =~= digits@.subrange(
            i + 1,
            digits@.len() as int,
        ).reverse().push(digits@[i as int]));
    }
    assert(digits@.subrange(0, digits@.len() as int) =~= digits@);
    r
}

/// The deliveries that routing the sent messages `sent` makes, message after
/// message, given what the edges' closures answered for each message.
pub open spec fn deliveries_of(
    entries: Seq<(Seq<char>, EdgeView)>,
    sent: Seq<OutgoingMessage>,
    outcomes: Seq<Seq<EdgeOutcome>>,
) -> Seq<(Option<Seq<char>>, Seq<char>, serde_json::Value)>
    decreases sent.len(),
{
    if sent.len() == 0 || outcomes.len() == 0 {
        Seq::empty()
    } else {
        deliveries_of(entries, sent.drop_last(), outcomes.drop_last()) + forwarded(
            routed(
                entries,
                sent.last().source_id@,
                sent.last().message,
                opt_string_view(sent.last().target_id),
                outcomes.last(),
            ),
            sent.last().source_id@,
        )
    }
}

/// Every message sent during a step is routed: the deliveries of one more
/// sent message are the deliveries of those before it followed by the
/// message forwarded along each route of its sender, and no sent message
/// means no delivery.
pub proof fn law_every_sent_message_is_routed(
    entries: Seq<(Seq<char>, EdgeView)>,
    sent: Seq<OutgoingMessage>,
    outcomes: Seq<Seq<EdgeOutcome>>,
    m: OutgoingMessage,
    o: Seq<EdgeOutcome>,
)
    requires
        sent.len() == outcomes.len(),
    ensures
        deliveries_of(entries, sent.push(m), outcomes.push(o)) == deliveries_of(entries, sent, outcomes) + forwarded(
            routed(entries, m.source_id@, m.message, opt_string_view(m.target_id), o),
            m.source_id@,
        ),
        deliveries_of(entries, sent.push(m), outcomes.push(o)).len() == deliveries_of(entries, sent, outcomes).len()
            + routed(entries, m.source_id@, m.message, opt_string_view(m.target_id), o).len(),
        deliveries_of(entries, Seq::empty(), Seq::empty()).len() == 0,
{
    assert(sent.push(m).drop_last() =~= sent);
    assert(outcomes.push(o).drop_last() =~= outcomes);
}

/// Forwarding a message delivers it once along each route, in the order of
/// the routes: to the route's executor, with the route's message, and still
/// from the original sender.
pub proof fn law_forwarded_follows_each_route(routes: Seq<(Seq<char>, serde_json::Value)>, source: Seq<char>)
    ensures
        forwarded(routes, source).len() == routes.len(),
        forall|i: int|
            0 <= i < routes.len() ==> #[trigger] forwarded(routes, source)[i] == (
                Some(routes[i].0),
                source,
                routes[i].1,
            ),
{
}

/// The delivery of an external response: to the start executor.
pub open spec fn response_delivery(response: Option<serde_json::Value>, start: Seq<char>) -> Seq<
    (Option<Seq<char>>, Seq<char>, serde_json::Value),
> {
    match response {
        Some(v) => seq![(Some(start), "external"@, v)],
        None => Seq::empty(),
    }
}

/// The messages the next super step delivers: each message that executors
/// sent during this step, routed once along the edges of its sender, in the
/// order they were sent, then an external response, if one came, delivered
/// to the start executor. Deliveries are handed to their executors and are
/// not routed again.
pub fn next_deliveries(
    router: &MessageRouter,
    sent: &Vec<OutgoingMessage>,
    response: Option<serde_json::Value>,
    start_id: &str,
) -> (r: Vec<OutgoingMessage>)
    ensures
        exists|outcomes: Seq<Seq<EdgeOutcome>>| {
            &&& outcomes.len() == sent@.len()
            &&& forall|i: int| 0 <= i < sent@.len() ==> calls_recorded(
                router@,
                sent@[i].source_id@,
                sent@[i].message,
                opt_string_view(sent@[i].target_id),
                #[trigger] outcomes[i],
            )
            &&& r@.map_values(|m: OutgoingMessage| outgoing_view(m)) == #[trigger] deliveries_of(router@, sent@, outcomes)
                + response_delivery(response, start_id@)
        },
{
    let mut out: Vec<OutgoingMessage> = Vec::new();
    let ghost mut outs: Seq<Seq<EdgeOutcome>> = Seq::empty();
    let mut i: usize = 0;
    while i < sent.len()
        invariant
            i <= sent@.len(),
            outs.len() == i,
            forall|k: int| 0 <= k < i ==> calls_recorded(
                router@,
                sent@[k].source_id@,
                sent@[k].message,
                opt_string_view(sent@[k].target_id),
                #[trigger] outs[k],
            ),
            out@.map_values(|m: OutgoingMessage| outgoing_view(m)) == deliveries_of(router@, sent@.take(i as int), outs),
        decreases sent@.len() - i,
    {
        let mut fwd = forward_message(router, &sent[i]);
        let ghost m = sent@[i as int];
        let ghost o = choose|o: Seq<EdgeOutcome>| calls_recorded(
            router@,
            m.source_id@,
            m.message,
            opt_string_view(m.target_id),
            o,
        ) && fwd@.map_values(|x: OutgoingMessage| outgoing_view(x)) == forwarded(
            #[trigger] routed(router@, m.source_id@, m.message, opt_string_view(m.target_id), o),
            m.source_id@,
        );
        let ghost before = out@;
        let ghost fv = fwd@;
        out.append(&mut fwd);
        proof {
            let prev = outs;
            outs = outs.push(o);
            assert(sent@.take(i + 1).drop_last() =~= sent@.take(i as int));
            assert(sent@.take(i + 1).last() == m);
            assert(outs.drop_last() =~= prev);
            assert(out@ =~= before + fv);
            assert(out@.map_values(|x: OutgoingMessage| outgoing_view(x)) =~= before.map_values(
                |x: OutgoingMessage| outgoing_view(x),
            ) + fv.map_values(|x: OutgoingMessage| outgoing_view(x)));
            assert forall|k: int| 0 <= k < i + 1 implies calls_recorded(
                router@,
                sent@[k].source_id@,
                sent@[k].message,
                opt_string_view(sent@[k].target_id),
                #[trigger] outs[k],
            ) by {
                if k < i {
                    assert(outs[k] == prev[k]);
                }
            }
        }
        i = i + 1;
    }
    proof {
        assert(sent@.take(sent@.len() as int) =~= sent@);
    }
    let ghost before = out@;
    match response {
        Some(v) => {
            out.push(OutgoingMessage { message: v, target_id: Some(start_id.to_owned()), source_id: "external".to_owned() });
            assert(out@.map_values(|x: OutgoingMessage| outgoing_view(x)) =~= before.map_values(
                |x: OutgoingMessage| outgoing_view(x),
            ) + response_delivery(response, start_id@));
        },
        None => {
            assert(out@.map_values(|x: OutgoingMessage| outgoing_view(x)) =~= before.map_values(
                |x: OutgoingMessage| outgoing_view(x),
            ) + response_delivery(response, start_id@));
        },
    }
    out
}

/// What the loop does after a super step.
#[derive(Debug, Clone, Copy, PartialEq, Eq, Structural)]
pub enum LoopDecision {
    /// An executor asked to halt.
    Halt,
    /// The run was cancelled.
    Cancel,
    /// The next step would deliver nothing: the run is done.
    Complete,
    /// Run another super step.
    Continue,
}

/// The decision after a super step: a halt request wins over a
/// cancellation, which wins over completion; the run is complete when the
/// next step has nothing to deliver.
pub open spec fn loop_decision(halt_requested: bool, cancel_requested: bool, next_deliveries: nat) -> LoopDecision {
    if halt_requested {
        LoopDecision::Halt
    } else if cancel_requested {
        LoopDecision::Cancel
    } else if next_deliveries == 0 {
        LoopDecision::Complete
    } else {
        LoopDecision::Continue
    }
}

/// A step after which executors sent nothing and no response came ends the
/// run, unless a halt or a cancellation ended it first; a step that leaves
/// something to deliver is followed by another.
pub proof fn law_quiet_step_ends_run(
    entries: Seq<(Seq<char>, EdgeView)>,
    outcomes: Seq<Seq<EdgeOutcome>>,
    start: Seq<char>,
    halt: bool,
    cancel: bool,
    n: nat,
)
    ensures
        deliveries_of(entries, Seq::empty(), outcomes) + response_delivery(None, start) == Seq::<
            (Option<Seq<char>>, Seq<char>, serde_json::Value),
        >::empty(),
        loop_decision(halt, cancel, 0) != LoopDecision::Continue,
        !halt && !cancel && n > 0 ==> loop_decision(halt, cancel, n) == LoopDecision::Continue,
{
    assert(deliveries_of(entries, Seq::empty(), outcomes) + response_delivery(None, start) =~= Seq::<
        (Option<Seq<char>>, Seq<char>, serde_json::Value),
    >::empty());
}

/// A halt request always stops the loop, whatever is still to deliver and
/// whether or not the run was cancelled too; a cancellation without a halt
/// stops it likewise; only a step that leaves something to deliver, with
/// neither request, is followed by another.
pub proof fn law_halt_always_stops(cancel: bool, n: nat)
    ensures
        loop_decision(true, cancel, n) == LoopDecision::Halt,
        loop_decision(false, true, n) == LoopDecision::Cancel,
        (loop_decision(false, false, n) == LoopDecision::Continue) == (n > 0),
        (loop_decision(false, false, n) == LoopDecision::Complete) == (n == 0),
{
}

/// Decides after a super step, as `loop_decision` says.
pub fn after_super_step(halt_requested: bool, cancel_requested: bool, next_deliveries: usize) -> (r: LoopDecision)
    ensures
        r == loop_decision(halt_requested, cancel_requested, next_deliveries as nat),
{
    if halt_requested {
        LoopDecision::Halt
    } else if cancel_requested {
        LoopDecision::Cancel
    } else if next_deliveries == 0 {
        LoopDecision::Complete
    } else {
        LoopDecision::Continue
    }
}

/// The status a run ends with: failed when the loop ended with an error,
/// cancelled when it stopped on a cancellation, and completed otherwise,
/// also when an executor asked to halt.
pub open spec fn end_status(loop_succeeded: bool, last: LoopDecision) -> RunStatus {
    if !loop_succeeded {
        RunStatus::Failed
    } else if last == LoopDecision::Cancel {
        RunStatus::Cancelled
    } else {
        RunStatus::Completed
    }
}

/// Every run ends in a terminal status: a run whose loop failed ends
/// failed; a run whose loop stopped after a step in which an executor asked
/// to halt ends completed, whatever was still to deliver and whether or not
/// it was also cancelled; a run cancelled without a halt ends cancelled; a
/// run that ran out of deliveries ends completed.
pub proof fn law_runs_end_in_a_terminal_status(loop_succeeded: bool, last: LoopDecision, cancel: bool, n: nat)
    ensures
        end_status(loop_succeeded, last) == RunStatus::Completed || end_status(loop_succeeded, last) == RunStatus::Failed
            || end_status(loop_succeeded, last) == RunStatus::Cancelled,
        !loop_succeeded ==> end_status(loop_succeeded, last) == RunStatus::Failed,
        end_status(true, loop_decision(true, cancel, n)) == RunStatus::Completed,
        end_status(true, loop_decision(false, true, n)) == RunStatus::Cancelled,
        end_status(true, loop_decision(false, false, 0)) == RunStatus::Completed,
{
}

/// Computes `end_status`.
pub fn final_status(loop_succeeded: bool, last: LoopDecision) -> (r: RunStatus)
    ensures
        r == end_status(loop_succeeded, last),
        r == if !loop_succeeded {
            RunStatus::Failed
        } else if last == LoopDecision::Cancel {
            RunStatus::Cancelled
        } else {
            RunStatus::Completed
        },
        r == RunStatus::Completed || r == RunStatus::Failed || r == RunStatus::Cancelled,
{
    if !loop_succeeded {
        RunStatus::Failed
    } else {
        match last {
            LoopDecision::Cancel => RunStatus::Cancelled,
            _ => RunStatus::Completed,
        }
    }
}

/// The event that reports the end of a run with status `status`: failed
/// when the run failed, completed otherwise.
pub fn completion_event(status: RunStatus, workflow_id: String, run_id: String) -> (r: WorkflowEventKind)
    ensures
        if status == RunStatus::Failed {
            r matches WorkflowEventKind::WorkflowFailed { workflow_id: w, run_id: i, error: e } && w == workflow_id
                && i == run_id && e@ == "Execution failed"@
        } else {
            r == (WorkflowEventKind::WorkflowCompleted { workflow_id, run_id })
        },
{
    match status {
        RunStatus::Failed => WorkflowEventKind::WorkflowFailed { workflow_id, run_id, error: "Execution failed".to_owned() },
        _ => WorkflowEventKind::WorkflowCompleted { workflow_id, run_id },
    }
}

/// What delivering one message to an executor contributes to a super step:
/// the event that reports how the executor fared, and how many messages it
/// counts as processed: one when the executor succeeded, none when it failed
/// with the error text `error`.
pub fn delivery_outcome(executor_id: String, error: Option<String>) -> (r: (WorkflowEventKind, usize))
    ensures
        match error {
            None => r.0 == (WorkflowEventKind::ExecutorCompleted { executor_id, success: true }) && r.1 == 1,
            Some(e) => r.0 == (WorkflowEventKind::ExecutorFailed { executor_id, error: e }) && r.1 == 0,
        },
{
    match error {
        None => (WorkflowEventKind::ExecutorCompleted { executor_id, success: true }, 1),
        Some(e) => (WorkflowEventKind::ExecutorFailed { executor_id, error: e }, 0),
    }
}

} // verus!
