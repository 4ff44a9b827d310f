//! Laws of fair, bounded dispatch.

use vstd::prelude::*;

use crate::dispatch::{
    outcome_views, result_text, DispatchCycle, DispatchStep, TenantCommandOutcome,
};
use crate::dispatch_model::{DispatchCycleView, DispatchStepView, NodeWork};
use crate::host::{dispatch_refusal_text, TenantHost};
use crate::host_invariant::{
    destroying_keeps_the_invariant, lemma_without, replacing_a_context_keeps_the_invariant,
    taking_a_command_keeps_the_invariant,
};
use crate::host_model::{without, TenantHandleView, TenantHostView};
use crate::lifecycle::{NodeAction, TenantCommand, TenantState};

verus! {

/// Dispatching a command keeps the invariant of the host.
pub proof fn dispatching_keeps_the_invariant<N>(host: TenantHostView<N>)
    requires
        host.well_formed(),
        host.ready.len() > 0,
    ensures
        host.turn().host.well_formed(),
{
    taking_a_command_keeps_the_invariant(host);
    let popped = host.popped();
    let tenant_id = host.next_tenant();
    let context = popped.tenants[tenant_id].context;
    assert forall|state: TenantState| #[trigger] popped.in_state(tenant_id, state).well_formed() by {
        replacing_a_context_keeps_the_invariant(popped, tenant_id, context.in_state(state));
    }
    if host.next_command().payload == TenantCommand::Destroy {
        destroying_keeps_the_invariant(popped, popped.tenants[tenant_id].handle);
    }
}

/// A queued command always belongs to a registered tenant and always passes the scope check of its
/// context, so no dispatch refuses one.
pub proof fn queued_commands_are_never_refused<N>(host: TenantHostView<N>)
    requires
        host.well_formed(),
        host.ready.len() > 0,
    ensures
        host.tenants.contains_key(host.next_tenant()),
        dispatch_refusal_text(
            Some(host.tenants[host.next_tenant()].context),
            host.next_command(),
        ) is None,
{
    taking_a_command_keeps_the_invariant(host);
}

proof fn lemma_turn_ready<N>(host: TenantHostView<N>)
    requires
        host.well_formed(),
        host.ready.len() > 0,
    ensures
        host.turn().host.ready.len() + 1 >= host.ready.len(),
        host.turn().host.ready.take(host.ready.len() - 1) == host.ready.drop_first(),
{
    let tenant_id = host.next_tenant();
    let rest = host.ready.drop_first();
    let popped = host.popped();
    taking_a_command_keeps_the_invariant(host);
    assert(rest.no_duplicates());
    assert(!rest.contains(tenant_id)) by {
        if rest.contains(tenant_id) {
            let i = choose|i: int| 0 <= i < rest.len() && rest[i] == tenant_id;
            assert(host.ready[i + 1] == tenant_id);
        }
    }
    assert(popped.ready.take(rest.len() as int) =~= rest);
    if host.turn().host.ready != popped.ready {
        assert(host.turn().host.ready == without(popped.ready, tenant_id));
        lemma_without(rest, tenant_id);
        if popped.ready.len() > rest.len() {
            reveal(Seq::filter);
            assert(popped.ready.drop_last() =~= rest);
            assert(popped.ready.last() == tenant_id);
        }
        assert(host.turn().host.ready =~= rest);
        assert(rest.take(rest.len() as int) =~= rest);
    }
}

/// Hosts that follow one another by dispatching one command after the other. Between two
/// dispatches anything may happen that leaves the tenants to be served as they are or adds more of
/// them at the end.
pub open spec fn dispatches_in_turn<N>(hosts: Seq<TenantHostView<N>>) -> bool {
    forall|k: int|
        0 <= k < hosts.len() - 1 ==> {
            &&& (#[trigger] hosts[k]).well_formed()
            &&& hosts[k].ready.len() > 0
            &&& hosts[k].turn().host.ready.is_prefix_of(hosts[k + 1].ready)
        }
}

/// Dispatch is a fair round robin: in any run of dispatches, the tenants that were to be served at
/// the start are served once each, in their order, before any tenant is served a second time.
pub proof fn dispatch_is_a_fair_round_robin<N>(hosts: Seq<TenantHostView<N>>, k: int)
    requires
        dispatches_in_turn(hosts),
        0 <= k < hosts.len(),
        k < hosts[0].ready.len(),
    ensures
        hosts[k].ready.len() >= hosts[0].ready.len() - k,
        hosts[k].ready.take(hosts[0].ready.len() - k) == hosts[0].ready.skip(k),
        hosts[k].next_tenant() == hosts[0].ready[k],
    decreases k,
{
    let first = hosts[0].ready;
    if k == 0 {
        assert(first.take(first.len() as int) =~= first.skip(0));
    } else {
        dispatch_is_a_fair_round_robin(hosts, k - 1);
        let before = hosts[k - 1].ready;
        let after = hosts[k].ready;
        let served = hosts[k - 1].turn().host.ready;
        assert(served.is_prefix_of(hosts[(k - 1) + 1].ready));
        lemma_turn_ready(hosts[k - 1]);
        assert forall|j: int| 0 <= j < first.len() - k implies after[j] == first[k + j] by {
            assert(after[j] == served[j]);
            assert(served[j] == served.take(before.len() - 1)[j]);
            assert(before.drop_first()[j] == before[j + 1]);
            assert(before[j + 1] == before.take(first.len() - (k - 1))[j + 1]);
            assert(first.skip(k - 1)[j + 1] == first[k + j]);
        }
        assert(after.take(first.len() - k) =~= first.skip(k));
        assert(after[0] == after.take(first.len() - k)[0]);
        assert(first.skip(k)[0] == first[k]);
    }
}

/// Reports on the node of a registered tenant change only the state of that tenant: the tenants to
/// be served and all queued commands stay as they are. Admitting a command adds a tenant to be
/// served at the end at most.
pub proof fn reports_and_admissions_keep_the_schedule<N>(
    host: TenantHostView<N>,
    handle: TenantHandleView,
    state: TenantState,
    command: TenantCommand,
    correlation_id: Seq<char>,
)
    ensures
        host.in_state(handle.tenant_id, state).ready == host.ready,
        host.in_state(handle.tenant_id, state).queues == host.queues,
        host.ready.is_prefix_of(host.enqueued(handle, command, correlation_id).ready),
{
}

/// The hosts that a cycle passes through while it advances, from the one it starts with to the one
/// it leaves.
pub open spec fn hosts_passed<N>(host: TenantHostView<N>, cycle: DispatchCycleView) -> Seq<
    TenantHostView<N>,
>
    decreases cycle.remaining,
{
    if cycle.remaining == 0 || host.ready.len() == 0 {
        seq![host]
    } else {
        match host.turn().step {
            Some(_) => seq![host, host.turn().host],
            None => seq![host] + hosts_passed(host.turn().host, host.cycle_after_turn(cycle)),
        }
    }
}

/// The outcomes that a cycle adds, and the command that then waits for its node, are those of the
/// commands that the given hosts dispatched, in that order: they carry the tenant and the
/// correlation identifier of the command.
pub open spec fn answers_the_served<N>(
    hosts: Seq<TenantHostView<N>>,
    before: DispatchCycleView,
    after: DispatchCycleView,
) -> bool {
    &&& before.outcomes.len() <= after.outcomes.len() < before.outcomes.len() + hosts.len()
    &&& forall|k: int|
        #![trigger hosts[k]]
        0 <= k < after.outcomes.len() - before.outcomes.len()
            ==> {
            let outcome = after.outcomes[before.outcomes.len() + k];
            &&& outcome.tenant_id == hosts[k].next_tenant()
            &&& outcome.correlation_id == hosts[k].next_command().correlation_id
        }
    &&& after.pending matches Some(pending) ==> {
        &&& hosts.len() == after.outcomes.len() - before.outcomes.len() + 2
        &&& pending.handle.tenant_id == hosts[hosts.len() - 2].next_tenant()
        &&& pending.correlation_id == hosts[hosts.len() - 2].next_command().correlation_id
    }
}

proof fn lemma_one_turn<N>(host: TenantHostView<N>, cycle: DispatchCycleView)
    requires
        host.well_formed(),
        host.ready.len() > 0,
        cycle.pending is None,
        cycle.remaining > 0,
    ensures
        ({
            let next = host.cycle_after_turn(cycle);
            &&& host.turn().host.well_formed()
            &&& next.remaining == cycle.remaining - 1
            &&& answers_the_served(seq![host, host.turn().host], cycle, next)
            &&& host.turn().step is None ==> {
                &&& next.pending is None
                &&& next.outcomes.len() == cycle.outcomes.len() + 1
            }
        }),
{
    dispatching_keeps_the_invariant(host);
    taking_a_command_keeps_the_invariant(host);
}

proof fn lemma_dispatches_prepend<N>(host: TenantHostView<N>, rest: Seq<TenantHostView<N>>)
    requires
        dispatches_in_turn(rest),
        rest.len() > 0,
        host.well_formed(),
        host.ready.len() > 0,
        rest[0] == host.turn().host,
    ensures
        dispatches_in_turn(seq![host] + rest),
{
    let hosts = seq![host] + rest;
    assert forall|k: int| 0 <= k < hosts.len() - 1 implies ({
        &&& (#[trigger] hosts[k]).well_formed()
        &&& hosts[k].ready.len() > 0
        &&& hosts[k].turn().host.ready.is_prefix_of(hosts[k + 1].ready)
    }) by {
        assert(hosts[k + 1] == rest[k]);
        if k > 0 {
            assert(hosts[k] == rest[k - 1]);
            assert(rest[(k - 1) + 1] == rest[k]);
        }
    }
}

proof fn lemma_answers_prepend<N>(
    host: TenantHostView<N>,
    rest: Seq<TenantHostView<N>>,
    before: DispatchCycleView,
    next: DispatchCycleView,
    after: DispatchCycleView,
)
    requires
        rest.len() > 0,
        next.pending is None,
        next.outcomes.len() == before.outcomes.len() + 1,
        next.outcomes.last().tenant_id == host.next_tenant(),
        next.outcomes.last().correlation_id == host.next_command().correlation_id,
        next.outcomes.is_prefix_of(after.outcomes),
        answers_the_served(rest, next, after),
    ensures
        answers_the_served(seq![host] + rest, before, after),
{
    let hosts = seq![host] + rest;
    assert forall|k: int|
        #![trigger hosts[k]]
        0 <= k < after.outcomes.len() - before.outcomes.len() implies ({
        let outcome = after.outcomes[before.outcomes.len() + k];
        &&& outcome.tenant_id == hosts[k].next_tenant()
        &&& outcome.correlation_id == hosts[k].next_command().correlation_id
    }) by {
        if k > 0 {
            assert(hosts[k] == rest[k - 1]);
        } else {
            assert(after.outcomes[before.outcomes.len() as int] == next.outcomes.last());
        }
    }
}

/// An advancing cycle dispatches in turn, and its outcomes and the command that waits for its node
/// answer the commands that were dispatched, in the order in which they were dispatched.
pub proof fn cycles_dispatch_in_turn<N>(host: TenantHostView<N>, cycle: DispatchCycleView)
    requires
        host.well_formed(),
        cycle.pending is None,
    ensures
        ({
            let hosts = hosts_passed(host, cycle);
            let (last, after, _) = host.advanced(cycle);
            &&& dispatches_in_turn(hosts)
            &&& hosts.len() - 1 == cycle.remaining - after.remaining
            &&& hosts[0] == host
            &&& hosts.last() == last
            &&& answers_the_served(hosts, cycle, after)
        }),
    decreases cycle.remaining,
{
    let hosts = hosts_passed(host, cycle);
    let (last, after, _) = host.advanced(cycle);
    if cycle.remaining > 0 && host.ready.len() > 0 {
        let next = host.cycle_after_turn(cycle);
        lemma_one_turn(host, cycle);
        if host.turn().step is None {
            let rest = hosts_passed(host.turn().host, next);
            cycles_dispatch_in_turn(host.turn().host, next);
            cycles_stay_within_their_budget(host.turn().host, next);
            outcomes_answer_their_commands(host, cycle);
            lemma_dispatches_prepend(host, rest);
            lemma_answers_prepend(host, rest, cycle, next, after);
            assert(hosts == seq![host] + rest);
        } else {
            let rest = seq![host.turn().host];
            assert(dispatches_in_turn(rest));
            lemma_dispatches_prepend(host, rest);
            assert(hosts =~= seq![host] + rest);
        }
    }
}

/// Dispatching a command takes the oldest command of the tenant to be served next and touches no
/// other tenant.
pub proof fn dispatch_touches_one_tenant<N>(host: TenantHostView<N>, other: Seq<char>)
    requires
        host.well_formed(),
        host.ready.len() > 0,
    ensures
        other != host.next_tenant() ==> host.turn().host.agrees_on(host, other),
        host.turn().host.queues.contains_key(host.next_tenant())
            ==> host.turn().host.queues[host.next_tenant()].messages
            == host.queues[host.next_tenant()].messages.drop_first(),
{
    let tenant_id = host.next_tenant();
    let popped = host.popped();
    let rest = host.ready.drop_first();
    taking_a_command_keeps_the_invariant(host);
    if other != tenant_id {
        assert(rest.contains(other) == host.ready.contains(other)) by {
            if rest.contains(other) {
                let i = choose|i: int| 0 <= i < rest.len() && rest[i] == other;
                assert(host.ready[i + 1] == other);
            }
            if host.ready.contains(other) {
                let i = choose|i: int| 0 <= i < host.ready.len() && host.ready[i] == other;
                assert(rest[i - 1] == other);
            }
        }
        let pushed = rest.push(tenant_id);
        assert(pushed.contains(other) == rest.contains(other)) by {
            if rest.contains(other) {
                let i = choose|i: int| 0 <= i < rest.len() && rest[i] == other;
                assert(pushed[i] == other);
            }
        }
        lemma_without(popped.ready, tenant_id);
        assert(popped.agrees_on(host, other));
    }
}

/// A cycle never dispatches more commands than its budget: each dispatch spends one command of the
/// budget and leads to one outcome. Outcomes are only ever added at the end.
pub proof fn cycles_stay_within_their_budget<N>(host: TenantHostView<N>, cycle: DispatchCycleView)
    requires
        cycle.pending is None,
    ensures
        ({
            let (_, after, _) = host.advanced(cycle);
            &&& after.budget() == cycle.budget()
            &&& cycle.outcomes.is_prefix_of(after.outcomes)
        }),
    decreases cycle.remaining,
{
    if cycle.remaining > 0 && host.ready.len() > 0 {
        let next = host.cycle_after_turn(cycle);
        assert(cycle.outcomes.is_prefix_of(next.outcomes));
        if host.turn().step is None {
            cycles_stay_within_their_budget(host.turn().host, next);
        }
    }
}

/// Reports on nodes keep the budget of a cycle, which is that of the host when the cycle begins, and
/// there are never more outcomes than the budget allows.
pub proof fn reports_keep_the_budget(
    budget: nat,
    cycle: DispatchCycleView,
    result: Result<(), Seq<char>>,
    work: NodeWork,
)
    requires
        cycle.pending is Some,
    ensures
        DispatchCycleView::fresh(budget).budget() == budget,
        cycle.settled(result).budget() == cycle.budget(),
        cycle.waiting(
            cycle.pending->0.correlation_id,
            cycle.pending->0.handle,
            work,
        ).budget() == cycle.budget(),
        cycle.outcomes.len() <= cycle.budget(),
{
}

/// Operating on the node of a tenant leaves the host busy with the command that a cycle waits for.
pub proof fn operating_on_a_node_keeps_a_cycle_in_step<N>(
    host: TenantHostView<N>,
    handle: TenantHandleView,
    node: N,
    cycle: DispatchCycleView,
)
    requires
        host.in_step_with(cycle),
        host.access_error(handle) is None,
    ensures
        host.with_context(handle.tenant_id, host.context(handle).with_node(node)).in_step_with(
            cycle,
        ),
{
}

/// A cycle that is complete has spent its budget, or no command is queued for any tenant.
pub proof fn complete_cycles_leave_nothing_to_do<N>(
    host: TenantHostView<N>,
    cycle: DispatchCycleView,
)
    requires
        host.well_formed(),
        cycle.pending is None,
    ensures
        ({
            let (last, after, step) = host.advanced(cycle);
            &&& last.well_formed()
            &&& step is Complete ==> after.pending is None && (after.remaining == 0 || forall|
                tenant_id: Seq<char>,
            | #[trigger]
                last.queues.contains_key(tenant_id) ==> last.queues[tenant_id].messages.len() == 0)
        }),
    decreases cycle.remaining,
{
    let (last, after, step) = host.advanced(cycle);
    if cycle.remaining > 0 && host.ready.len() > 0 {
        dispatching_keeps_the_invariant(host);
        if host.turn().step is None {
            complete_cycles_leave_nothing_to_do(host.turn().host, host.cycle_after_turn(cycle));
        }
    } else if host.ready.len() == 0 {
        assert forall|tenant_id: Seq<char>| #[trigger]
            last.queues.contains_key(tenant_id) implies last.queues[tenant_id].messages.len()
            == 0 by {
            assert(!last.ready.contains(tenant_id));
        }
    }
}

/// The outcome of a command, or the wait for its node, carries the correlation identifier of the
/// command and the tenant it belongs to.
pub proof fn outcomes_answer_their_commands<N>(host: TenantHostView<N>, cycle: DispatchCycleView)
    requires
        host.well_formed(),
        host.ready.len() > 0,
        cycle.pending is None,
        cycle.remaining > 0,
    ensures
        ({
            let after = host.cycle_after_turn(cycle);
            match after.pending {
                Some(pending) => {
                    &&& after.outcomes == cycle.outcomes
                    &&& pending.correlation_id == host.next_command().correlation_id
                    &&& pending.handle == host.tenants[host.next_tenant()].handle
                },
                None => {
                    &&& after.outcomes.len() == cycle.outcomes.len() + 1
                    &&& after.outcomes.last().correlation_id == host.next_command().correlation_id
                    &&& after.outcomes.last().tenant_id == host.next_tenant()
                },
            }
        }),
{
}

/// A dispatched command is carried out: its tenant is left in the state, and the command gets the
/// answer, that its kind and the state of the tenant call for. What needs the node is asked of its
/// owner under the tenant's own handle.
pub proof fn dispatched_commands_are_carried_out<N>(host: TenantHostView<N>)
    requires
        host.well_formed(),
        host.ready.len() > 0,
    ensures
        ({
            let tenant_id = host.ready[0];
            let entry = host.tenants[tenant_id];
            let before = entry.context.state;
            let after = host.turn().host;
            let state = after.tenants[tenant_id].context.state;
            let answer = host.turn().answer;
            let step = host.turn().step;
            let inactive = before == TenantState::Idle || before == TenantState::Stopped;
            match host.queues[tenant_id].messages[0].payload {
                TenantCommand::Start => if inactive {
                    &&& state == TenantState::Starting
                    &&& answer == Err::<Result<(), Seq<char>>, _>(NodeWork::Start)
                    &&& step == Some(DispatchStepView::<N>::StartNode(entry.handle))
                } else if before == TenantState::Running || before == TenantState::Suspended {
                    &&& state == before
                    &&& answer == Ok::<_, NodeWork>(Ok::<(), Seq<char>>(()))
                    &&& step is None
                } else {
                    &&& state == before
                    &&& answer == Ok::<_, NodeWork>(
                        Err::<(), _>("tenant runtime is transitioning"@),
                    )
                    &&& step is None
                },
                TenantCommand::Stop => {
                    &&& state == before
                    &&& answer == Err::<Result<(), Seq<char>>, _>(NodeWork::Report)
                    &&& step == Some(DispatchStepView::<N>::ReportNode(entry.handle))
                },
                TenantCommand::Suspend => {
                    &&& step is None
                    &&& if before == TenantState::Running || before == TenantState::Suspended {
                        &&& state == TenantState::Suspended
                        &&& answer == Ok::<_, NodeWork>(Ok::<(), Seq<char>>(()))
                    } else {
                        &&& state == before
                        &&& answer == Ok::<_, NodeWork>(
                            Err::<(), _>("tenant runtime is not running"@),
                        )
                    }
                },
                TenantCommand::Resume => {
                    &&& step is None
                    &&& if before == TenantState::Suspended {
                        &&& state == TenantState::Running
                        &&& answer == Ok::<_, NodeWork>(Ok::<(), Seq<char>>(()))
                    } else {
                        &&& state == before
                        &&& answer == Ok::<_, NodeWork>(
                            Err::<(), _>("tenant runtime is not suspended"@),
                        )
                    }
                },
                TenantCommand::Destroy => if inactive {
                    &&& !after.tenants.contains_key(tenant_id)
                    &&& answer == Ok::<_, NodeWork>(Ok::<(), Seq<char>>(()))
                    &&& step matches Some(DispatchStepView::DisposeNode(context))
                    &&& context.node == entry.context.node
                    &&& context.tenant_id == entry.context.tenant_id
                    &&& context.broker_accounts == entry.context.broker_accounts
                    &&& context.limits == entry.context.limits
                    &&& context.runtime_instance_id == entry.context.runtime_instance_id
                    &&& context.state == TenantState::Stopped
                } else {
                    &&& state == before
                    &&& answer == Ok::<_, NodeWork>(
                        Err::<(), _>("tenant must be idle or stopped before destruction"@),
                    )
                    &&& step is None
                },
            }
        }),
{
    taking_a_command_keeps_the_invariant(host);
}

/// A dispatched command does what the direct operation on its tenant does: the same next state, the
/// same refusal, and the same demand on the node.
pub proof fn dispatched_commands_agree_with_direct_operations<N>(host: TenantHostView<N>)
    requires
        host.well_formed(),
        host.ready.len() > 0,
    ensures
        ({
            let tenant_id = host.ready[0];
            let handle = host.tenants[tenant_id].handle;
            let before = host.tenants[tenant_id].context.state;
            let after = host.turn().host;
            let state = after.tenants[tenant_id].context.state;
            let answer = host.turn().answer;
            match host.queues[tenant_id].messages[0].payload {
                TenantCommand::Start => match before.start() {
                    Ok((action, next)) => {
                        &&& state == next
                        &&& action == NodeAction::Start ==> answer == Err::<
                            Result<(), Seq<char>>,
                            _,
                        >(NodeWork::Start)
                        &&& action != NodeAction::Start ==> answer == Ok::<_, NodeWork>(
                            Ok::<(), Seq<char>>(()),
                        )
                    },
                    Err(error) => {
                        &&& state == before
                        &&& answer == Ok::<_, NodeWork>(Err::<(), _>(error.message()))
                    },
                },
                TenantCommand::Stop => {
                    &&& state == before
                    &&& answer == Err::<Result<(), Seq<char>>, _>(NodeWork::Report)
                },
                TenantCommand::Suspend => match before.suspend() {
                    Ok(next) => {
                        &&& state == next
                        &&& answer == Ok::<_, NodeWork>(Ok::<(), Seq<char>>(()))
                    },
                    Err(error) => {
                        &&& state == before
                        &&& answer == Ok::<_, NodeWork>(Err::<(), _>(error.message()))
                    },
                },
                TenantCommand::Resume => match before.resume() {
                    Ok(next) => {
                        &&& state == next
                        &&& answer == Ok::<_, NodeWork>(Ok::<(), Seq<char>>(()))
                    },
                    Err(error) => {
                        &&& state == before
                        &&& answer == Ok::<_, NodeWork>(Err::<(), _>(error.message()))
                    },
                },
                TenantCommand::Destroy => match host.destroy_error(handle) {
                    None => {
                        &&& !after.tenants.contains_key(tenant_id)
                        &&& after.was_destroyed(handle)
                        &&& answer == Ok::<_, NodeWork>(Ok::<(), Seq<char>>(()))
                    },
                    Some(error) => {
                        &&& state == before
                        &&& answer == Ok::<_, NodeWork>(Err::<(), _>(error.message()))
                    },
                },
            }
        }),
{
    taking_a_command_keeps_the_invariant(host);
}

/// The dispatch of a command changes nothing but its tenant's state, queue and turn: its tenant keeps
/// its handle and all else of its context, the command leaves the queue, the tenant goes to the end of
/// those to be served if it has more commands, and leaves them otherwise. A destroyed tenant leaves
/// nothing but its capability behind. All other tenants are as before.
pub proof fn dispatch_changes_one_tenant_in_place<N>(host: TenantHostView<N>)
    requires
        host.well_formed(),
        host.ready.len() > 0,
    ensures
        ({
            let tenant_id = host.ready[0];
            let before = host.tenants[tenant_id];
            let messages = host.queues[tenant_id].messages;
            let after = host.turn().host;
            let entry = after.tenants[tenant_id];
            let destroyed = messages[0].payload == TenantCommand::Destroy && (before.context.state
                == TenantState::Idle || before.context.state == TenantState::Stopped);
            &&& after.tenants.remove(tenant_id) == host.tenants.remove(tenant_id)
            &&& after.queues.remove(tenant_id) == host.queues.remove(tenant_id)
            &&& after.max_dispatch_per_cycle == host.max_dispatch_per_cycle
            &&& if destroyed {
                &&& !after.tenants.contains_key(tenant_id)
                &&& !after.queues.contains_key(tenant_id)
                &&& after.destroyed == host.destroyed.insert(tenant_id, before.handle.capability)
                &&& after.ready == host.ready.skip(1)
            } else {
                &&& after.tenants.contains_key(tenant_id)
                &&& entry.handle == before.handle
                &&& entry.context.tenant_id == before.context.tenant_id
                &&& entry.context.broker_accounts == before.context.broker_accounts
                &&& entry.context.limits == before.context.limits
                &&& entry.context.runtime_instance_id == before.context.runtime_instance_id
                &&& entry.context.node == before.context.node
                &&& after.queues.contains_key(tenant_id)
                &&& after.queues[tenant_id].messages == messages.skip(1)
                &&& after.queues[tenant_id].max_depth == host.queues[tenant_id].max_depth
                &&& after.destroyed == host.destroyed
                &&& messages.len() > 1 ==> after.ready == host.ready.skip(1).push(tenant_id)
                &&& messages.len() == 1 ==> after.ready == host.ready.skip(1)
            }
        }),
{
    let tenant_id = host.ready[0];
    let messages = host.queues[tenant_id].messages;
    let after = host.turn().host;
    taking_a_command_keeps_the_invariant(host);
    assert(host.ready.contains(tenant_id));
    assert(after.tenants.remove(tenant_id) =~= host.tenants.remove(tenant_id));
    assert(after.queues.remove(tenant_id) =~= host.queues.remove(tenant_id));
    assert(messages.drop_first() =~= messages.skip(1));
    assert(host.ready.drop_first() =~= host.ready.skip(1));
    if !after.tenants.contains_key(tenant_id) {
        lemma_destroyed_ready(host);
    }
}

proof fn lemma_destroyed_ready<N>(host: TenantHostView<N>)
    requires
        host.well_formed(),
        host.ready.len() > 0,
        !host.turn().host.tenants.contains_key(host.ready[0]),
    ensures
        host.turn().host.ready == host.ready.drop_first(),
{
    let tenant_id = host.ready[0];
    let rest = host.ready.drop_first();
    let popped = host.popped();
    taking_a_command_keeps_the_invariant(host);
    assert(!rest.contains(tenant_id)) by {
        if rest.contains(tenant_id) {
            let i = choose|i: int| 0 <= i < rest.len() && rest[i] == tenant_id;
            assert(host.ready[i + 1] == tenant_id);
        }
    }
    assert(rest.no_duplicates());
    lemma_without(rest, tenant_id);
    if popped.ready.len() > rest.len() {
        reveal(Seq::filter);
        assert(popped.ready.drop_last() =~= rest);
        assert(popped.ready.last() == tenant_id);
    }
}

/// A cycle counts each dispatched command once. The command is answered with its correlation
/// identifier, its tenant and its answer after all outcomes so far, or it waits for its node under
/// the tenant's own handle.
pub proof fn cycles_record_every_dispatch<N>(host: TenantHostView<N>, cycle: DispatchCycleView)
    requires
        cycle.remaining > 0,
        cycle.pending is None,
    ensures
        ({
            let tenant_id = host.ready[0];
            let command = host.queues[tenant_id].messages[0];
            let after = host.cycle_after_turn(cycle);
            &&& after.remaining == cycle.remaining - 1
            &&& match host.turn().answer {
                Ok(result) => {
                    &&& after.pending is None
                    &&& after.outcomes.len() == cycle.outcomes.len() + 1
                    &&& after.outcomes.drop_last() == cycle.outcomes
                    &&& after.outcomes.last().correlation_id == command.correlation_id
                    &&& after.outcomes.last().tenant_id == tenant_id
                    &&& after.outcomes.last().result == result
                },
                Err(work) => {
                    &&& after.outcomes == cycle.outcomes
                    &&& after.pending matches Some(pending)
                    &&& pending.correlation_id == command.correlation_id
                    &&& pending.handle == host.tenants[tenant_id].handle
                    &&& pending.work == work
                },
            }
        }),
{
    let after = host.cycle_after_turn(cycle);
    if host.turn().answer is Ok {
        assert(after.outcomes.drop_last() =~= cycle.outcomes);
    }
}

/// A report on a node answers the command that waits, with its correlation identifier, its tenant and
/// the result of the node, after all outcomes so far; or the command goes on waiting. Reports spend
/// nothing of the budget.
pub proof fn reports_answer_the_waiting_command(
    cycle: DispatchCycleView,
    result: Result<(), Seq<char>>,
    correlation_id: Seq<char>,
    handle: TenantHandleView,
    work: NodeWork,
)
    requires
        cycle.pending is Some,
    ensures
        ({
            let after = cycle.settled(result);
            &&& after.remaining == cycle.remaining
            &&& after.pending is None
            &&& after.outcomes.len() == cycle.outcomes.len() + 1
            &&& after.outcomes.drop_last() == cycle.outcomes
            &&& after.outcomes.last().correlation_id == cycle.pending->0.correlation_id
            &&& after.outcomes.last().tenant_id == cycle.pending->0.handle.tenant_id
            &&& after.outcomes.last().result == result
        }),
        ({
            let after = cycle.waiting(correlation_id, handle, work);
            &&& after.remaining == cycle.remaining
            &&& after.outcomes == cycle.outcomes
            &&& after.pending matches Some(pending)
            &&& pending.correlation_id == correlation_id
            &&& pending.handle == handle
            &&& pending.work == work
        }),
{
    assert(cycle.settled(result).outcomes.drop_last() =~= cycle.outcomes);
}

/// A cycle advances one command at a time. It is complete, and changes nothing, exactly when its
/// budget is spent or no tenant has a command queued. Otherwise it dispatches the next command, and
/// pauses if that asks something of the owner of the nodes, or else advances from there.
pub proof fn cycles_advance_one_command_at_a_time<N>(
    host: TenantHostView<N>,
    cycle: DispatchCycleView,
)
    ensures
        cycle.remaining == 0 || host.ready.len() == 0 ==> {
            let (last, after, step) = host.advanced(cycle);
            last == host && after == cycle && step is Complete
        },
        cycle.remaining > 0 && host.ready.len() > 0 ==> match host.turn().step {
            Some(asked) => {
                let (last, after, step) = host.advanced(cycle);
                &&& last == host.turn().host
                &&& after == host.cycle_after_turn(cycle)
                &&& step == asked
            },
            None => host.advanced(cycle) == host.turn().host.advanced(host.cycle_after_turn(cycle)),
        },
{
}

/// A dispatch begins with no outcomes, no command that waits, and the budget of the host.
pub proof fn dispatches_begin_with_the_budget_of_the_host<N>(
    host: &TenantHost<N>,
    cycle: DispatchCycle,
)
    requires
        call_ensures(TenantHost::<N>::dispatch, (host,), cycle),
    ensures
        cycle@.remaining == host@.max_dispatch_per_cycle,
        cycle@.outcomes.len() == 0,
        cycle@.pending is None,
{
}

/// The outcomes that a cycle hands over are those it has recorded, in order: each carries the
/// correlation identifier, the tenant and the result of its command, a failure with its text.
pub proof fn outcomes_are_handed_over_as_recorded(
    cycle: DispatchCycle,
    outcomes: Vec<TenantCommandOutcome>,
)
    requires
        call_ensures(DispatchCycle::into_outcomes, (cycle,), outcomes),
    ensures
        outcomes@.len() == cycle@.outcomes.len(),
        forall|i: int|
            0 <= i < outcomes@.len() ==> {
                &&& (#[trigger] outcomes@[i]).correlation_id@ == cycle@.outcomes[i].correlation_id
                &&& outcomes@[i].tenant_id@ == cycle@.outcomes[i].tenant_id
                &&& match outcomes@[i].result {
                    Ok(()) => cycle@.outcomes[i].result is Ok,
                    Err(text) => cycle@.outcomes[i].result == Err::<(), _>(text@),
                }
            },
{
    assert forall|i: int| 0 <= i < outcomes@.len() implies (#[trigger] outcomes@[i])@
        == cycle@.outcomes[i] by {
        assert(outcome_views(outcomes@)[i] == outcomes@[i]@);
    }
}

/// A result stands for itself, a failure for its text.
pub proof fn results_keep_their_texts(result: Result<(), String>)
    ensures
        match result {
            Ok(()) => result_text(result) is Ok,
            Err(text) => result_text(result) == Err::<(), _>(text@),
        },
{
}

/// A step stands for what it asks, of the handle or the context it carries.
pub proof fn steps_show_what_they_ask<N>(step: DispatchStep<N>)
    ensures
        match step {
            DispatchStep::Complete => step@ is Complete,
            DispatchStep::StartNode(handle) => step@ == DispatchStepView::<N>::StartNode(handle@),
            DispatchStep::ReportNode(handle) => step@ == DispatchStepView::<N>::ReportNode(handle@),
            DispatchStep::DisposeNode(context) => step@ == DispatchStepView::<N>::DisposeNode(
                context@,
            ),
        },
{
}

} // verus!
