//! Laws of the commands of a host over whole cycles and over all of them.

use vstd::prelude::*;

use crate::dispatch_laws::{dispatch_touches_one_tenant, dispatching_keeps_the_invariant};
use crate::dispatch_model::{DispatchCycleView, TenantCommandOutcomeView};
use crate::history_model::{
    admitted_ids, admitted_ids_differ, ids_of, HostEvent, HostHistoryView,
};
use crate::host_invariant::{
    destroying_keeps_the_invariant, enqueueing_keeps_the_invariant,
    registering_keeps_the_invariant, replacing_a_context_keeps_the_invariant,
    taking_a_command_keeps_the_invariant,
};
use crate::host_model::TenantHostView;
use crate::lifecycle::TenantState;

verus! {

proof fn lemma_ids_of_push(
    outcomes: Seq<TenantCommandOutcomeView>,
    outcome: TenantCommandOutcomeView,
    tenant_id: Seq<char>,
)
    ensures
        ids_of(outcomes.push(outcome), tenant_id) == if outcome.tenant_id == tenant_id {
            ids_of(outcomes, tenant_id).push(outcome.correlation_id)
        } else {
            ids_of(outcomes, tenant_id)
        },
{
    assert(outcomes.push(outcome).drop_last() =~= outcomes);
}

proof fn lemma_ids_of_concat(
    earlier: Seq<TenantCommandOutcomeView>,
    later: Seq<TenantCommandOutcomeView>,
    tenant_id: Seq<char>,
)
    ensures
        ids_of(earlier + later, tenant_id) == ids_of(earlier, tenant_id) + ids_of(later, tenant_id),
    decreases later.len(),
{
    if later.len() == 0 {
        assert(earlier + later =~= earlier);
    } else {
        lemma_ids_of_concat(earlier, later.drop_last(), tenant_id);
        assert((earlier + later).drop_last() =~= earlier + later.drop_last());
    }
    assert(ids_of(earlier + later, tenant_id) =~= ids_of(earlier, tenant_id) + ids_of(
        later,
        tenant_id,
    ));
}

/// What one dispatch does to the commands of a tenant.
proof fn lemma_turn_keeps_the_line<N>(
    host: TenantHostView<N>,
    cycle: DispatchCycleView,
    tenant_id: Seq<char>,
)
    requires
        host.well_formed(),
        host.ready.len() > 0,
        cycle.pending is None,
        cycle.remaining > 0,
    ensures
        ({
            let next = host.turn().host;
            let after = host.cycle_after_turn(cycle);
            &&& next.well_formed()
            &&& cycle.taken_ids(tenant_id).is_prefix_of(after.taken_ids(tenant_id))
            &&& (after.taken_ids(tenant_id) + next.queued_ids(tenant_id)).is_prefix_of(
                cycle.taken_ids(tenant_id) + host.queued_ids(tenant_id),
            )
            &&& next.tenants.contains_key(tenant_id) ==> host.tenants.contains_key(tenant_id)
            &&& next.tenants.contains_key(tenant_id) || !host.tenants.contains_key(tenant_id)
                ==> after.taken_ids(tenant_id) + next.queued_ids(tenant_id) == cycle.taken_ids(
                tenant_id,
            ) + host.queued_ids(tenant_id)
        }),
{
    dispatching_keeps_the_invariant(host);
    taking_a_command_keeps_the_invariant(host);
    dispatch_touches_one_tenant(host, tenant_id);
    let next = host.turn().host;
    let after = host.cycle_after_turn(cycle);
    let taken = cycle.taken_ids(tenant_id);
    let queued = host.queued_ids(tenant_id);
    match host.turn().answer {
        Ok(result) => lemma_ids_of_push(
            cycle.outcomes,
            TenantCommandOutcomeView {
                correlation_id: host.next_command().correlation_id,
                tenant_id: host.next_tenant(),
                result,
            },
            tenant_id,
        ),
        Err(_) => {},
    }
    if tenant_id == host.next_tenant() {
        assert(after.taken_ids(tenant_id) == taken.push(host.next_command().correlation_id));
        assert(queued[0] == host.next_command().correlation_id);
        if next.tenants.contains_key(tenant_id) {
            assert(next.queues.contains_key(tenant_id));
            assert(next.queued_ids(tenant_id) =~= queued.drop_first());
        } else {
            assert(!next.queues.contains_key(tenant_id));
        }
        assert(next.tenants.contains_key(tenant_id) ==> after.taken_ids(tenant_id)
            + next.queued_ids(tenant_id) =~= taken + queued);
    } else {
        assert(after.taken_ids(tenant_id) == taken);
        assert(next.queued_ids(tenant_id) =~= queued);
    }
}

/// An advancing cycle answers the oldest commands of each tenant, in the order in which they were
/// queued, and leaves the others queued in order. Only the commands of a tenant that is destroyed
/// meanwhile are dropped.
pub proof fn advancing_serves_the_oldest_commands<N>(
    host: TenantHostView<N>,
    cycle: DispatchCycleView,
    tenant_id: Seq<char>,
)
    requires
        host.well_formed(),
        cycle.pending is None,
    ensures
        ({
            let (last, after, _) = host.advanced(cycle);
            &&& last.well_formed()
            &&& cycle.taken_ids(tenant_id).is_prefix_of(after.taken_ids(tenant_id))
            &&& (after.taken_ids(tenant_id) + last.queued_ids(tenant_id)).is_prefix_of(
                cycle.taken_ids(tenant_id) + host.queued_ids(tenant_id),
            )
            &&& last.tenants.contains_key(tenant_id) ==> host.tenants.contains_key(tenant_id)
            &&& last.tenants.contains_key(tenant_id) || !host.tenants.contains_key(tenant_id)
                ==> after.taken_ids(tenant_id) + last.queued_ids(tenant_id) == cycle.taken_ids(
                tenant_id,
            ) + host.queued_ids(tenant_id)
        }),
    decreases cycle.remaining,
{
    if cycle.remaining > 0 && host.ready.len() > 0 {
        lemma_turn_keeps_the_line(host, cycle, tenant_id);
        if host.turn().step is None {
            advancing_serves_the_oldest_commands(
                host.turn().host,
                host.cycle_after_turn(cycle),
                tenant_id,
            );
        }
    }
}

proof fn lemma_context_changed<N>(host: TenantHostView<N>, tenant_id: Seq<char>)
    requires
        host.well_formed(),
        host.tenants.contains_key(tenant_id),
    ensures
        forall|state: TenantState| (#[trigger] host.in_state(tenant_id, state)).well_formed(),
        forall|node: N|
            host.with_context(
                tenant_id,
                #[trigger] host.tenants[tenant_id].context.with_node(node),
            ).well_formed(),
{
    let context = host.tenants[tenant_id].context;
    assert forall|state: TenantState| (#[trigger] host.in_state(tenant_id, state)).well_formed() by {
        replacing_a_context_keeps_the_invariant(host, tenant_id, context.in_state(state));
    }
    assert forall|node: N|
        host.with_context(
            tenant_id,
            #[trigger] host.tenants[tenant_id].context.with_node(node),
        ).well_formed() by {
        replacing_a_context_keeps_the_invariant(host, tenant_id, context.with_node(node));
    }
}

/// Every event keeps the invariant of the host.
pub proof fn events_keep_the_invariant<N>(history: HostHistoryView<N>, event: HostEvent<N>)
    requires
        history.host.well_formed(),
        history.possible(event),
    ensures
        history.after(event).host.well_formed(),
{
    let host = history.host;
    match event {
        HostEvent::Registered(handle, context) => registering_keeps_the_invariant(
            host,
            handle,
            context,
        ),
        HostEvent::Enqueued(handle, command, correlation_id) => enqueueing_keeps_the_invariant(
            host,
            handle,
            command,
            correlation_id,
        ),
        HostEvent::StateChanged(tenant_id, _) => lemma_context_changed(host, tenant_id),
        HostEvent::NodeOperated(tenant_id, _) => lemma_context_changed(host, tenant_id),
        HostEvent::Destroyed(handle) => destroying_keeps_the_invariant(host, handle),
        HostEvent::Advanced => advancing_serves_the_oldest_commands(
            host,
            history.cycle,
            host.next_tenant(),
        ),
        HostEvent::Waited(..) | HostEvent::Answered(..) => lemma_context_changed(
            host,
            history.cycle.pending->0.handle.tenant_id,
        ),
        HostEvent::Collected => {},
    }
}

/// Putting a registered tenant in the state it is in changes nothing.
pub proof fn keeping_the_state_changes_nothing<N>(host: TenantHostView<N>, tenant_id: Seq<char>)
    requires
        host.tenants.contains_key(tenant_id),
    ensures
        host.in_state(tenant_id, host.tenants[tenant_id].context.state) == host,
{
    assert(host.in_state(tenant_id, host.tenants[tenant_id].context.state).tenants
        =~= host.tenants);
}

/// The commands of a tenant stand in one line: an admitted command joins it at the end, a served
/// one moves from its queued part to its taken part without changing its place, and only destroying
/// the tenant drops commands, all of them queued. Nothing else changes the line.
pub proof fn commands_stand_in_line<N>(
    history: HostHistoryView<N>,
    event: HostEvent<N>,
    tenant_id: Seq<char>,
)
    requires
        history.host.well_formed(),
        history.possible(event),
    ensures
        ({
            let after = history.after(event);
            let joined = match event {
                HostEvent::Enqueued(handle, _, correlation_id) if handle.tenant_id == tenant_id =>
                    history.line(tenant_id).push(correlation_id),
                _ => history.line(tenant_id),
            };
            &&& history.taken_ids(tenant_id).is_prefix_of(after.taken_ids(tenant_id))
            &&& after.line(tenant_id).is_prefix_of(joined)
            &&& after.host.tenants.contains_key(tenant_id) || !history.host.tenants.contains_key(
                tenant_id,
            ) ==> after.line(tenant_id) == joined
            &&& !after.host.tenants.contains_key(tenant_id) ==> after.line(tenant_id)
                == after.taken_ids(tenant_id)
        }),
{
    events_keep_the_invariant(history, event);
    let host = history.host;
    let after = history.after(event);
    let reported = ids_of(history.reported, tenant_id);
    match event {
        HostEvent::Enqueued(handle, _, correlation_id) => {
            if handle.tenant_id == tenant_id {
                assert(after.host.queued_ids(tenant_id) =~= host.queued_ids(tenant_id).push(
                    correlation_id,
                ));
                assert(after.line(tenant_id) =~= history.line(tenant_id).push(correlation_id));
            } else {
                assert(after.host.queued_ids(tenant_id) =~= host.queued_ids(tenant_id));
            }
        },
        HostEvent::Advanced => {
            advancing_serves_the_oldest_commands(host, history.cycle, tenant_id);
            assert(history.line(tenant_id) =~= reported + (history.cycle.taken_ids(tenant_id)
                + host.queued_ids(tenant_id)));
            assert(after.line(tenant_id) =~= reported + (after.cycle.taken_ids(tenant_id)
                + after.host.queued_ids(tenant_id)));
        },
        HostEvent::Answered(_, result) => {
            let pending = history.cycle.pending->0;
            lemma_ids_of_push(
                history.cycle.outcomes,
                TenantCommandOutcomeView {
                    correlation_id: pending.correlation_id,
                    tenant_id: pending.handle.tenant_id,
                    result,
                },
                tenant_id,
            );
            assert(after.host.queued_ids(tenant_id) =~= host.queued_ids(tenant_id));
        },
        HostEvent::Collected => {
            lemma_ids_of_concat(history.reported, history.cycle.outcomes, tenant_id);
            assert(after.taken_ids(tenant_id) =~= history.taken_ids(tenant_id));
        },
        _ => {
            assert(after.taken_ids(tenant_id) =~= history.taken_ids(tenant_id));
            if after.host.queues.contains_key(tenant_id) || !host.queues.contains_key(tenant_id) {
                assert(after.host.queued_ids(tenant_id) =~= host.queued_ids(tenant_id));
            }
        },
    }
    if !after.host.tenants.contains_key(tenant_id) {
        assert(!after.host.queues.contains_key(tenant_id));
        assert(after.line(tenant_id) =~= after.taken_ids(tenant_id));
    }
}

proof fn lemma_last_event<N>(history: HostHistoryView<N>, events: Seq<HostEvent<N>>)
    requires
        history.all_possible(events),
        events.len() > 0,
    ensures
        history.all_possible(events.drop_last()),
        history.after_all(events.drop_last()).possible(events.last()),
{
    let earlier = events.drop_last();
    assert(events.take(events.len() - 1) =~= earlier);
    assert(history.after_all(events.take(events.len() - 1)).possible(events[events.len() - 1]));
    assert forall|k: int| 0 <= k < earlier.len() implies history.after_all(
        earlier.take(k),
    ).possible(#[trigger] earlier[k]) by {
        assert(earlier.take(k) =~= events.take(k));
        assert(history.after_all(events.take(k)).possible(events[k]));
    }
}

/// Whatever happens, the invariant of the host holds.
pub proof fn the_invariant_always_holds<N>(
    history: HostHistoryView<N>,
    events: Seq<HostEvent<N>>,
)
    requires
        history.host.well_formed(),
        history.all_possible(events),
    ensures
        history.after_all(events).host.well_formed(),
    decreases events.len(),
{
    if events.len() > 0 {
        lemma_last_event(history, events);
        the_invariant_always_holds(history, events.drop_last());
        events_keep_the_invariant(history.after_all(events.drop_last()), events.last());
    }
}

proof fn lemma_dispatch_keeps_the_line<N>(
    history: HostHistoryView<N>,
    events: Seq<HostEvent<N>>,
    tenant_id: Seq<char>,
)
    requires
        history.host.well_formed(),
        history.all_possible(events),
        forall|k: int| 0 <= k < events.len() ==> (#[trigger] events[k]).in_dispatch(),
    ensures
        ({
            let after = history.after_all(events);
            &&& after.host.well_formed()
            &&& after.reported == history.reported
            &&& after.line(tenant_id).is_prefix_of(history.line(tenant_id))
            &&& after.host.tenants.contains_key(tenant_id) ==> history.host.tenants.contains_key(
                tenant_id,
            )
            &&& after.host.tenants.contains_key(tenant_id) ==> after.line(tenant_id)
                == history.line(tenant_id)
        }),
    decreases events.len(),
{
    if events.len() > 0 {
        let before = history.after_all(events.drop_last());
        lemma_last_event(history, events);
        lemma_dispatch_keeps_the_line(history, events.drop_last(), tenant_id);
        assert(events[events.len() - 1].in_dispatch());
        events_keep_the_invariant(before, events.last());
        commands_stand_in_line(before, events.last(), tenant_id);
        if events.last() is Advanced {
            advancing_serves_the_oldest_commands(before.host, before.cycle, tenant_id);
        }
    }
}

/// Over a whole dispatch, with all its waits for nodes, the outcomes of a tenant, and the command
/// that still waits, are those of its oldest queued commands, in order. The other commands stay
/// queued in order, unless the tenant was destroyed, which drops them.
pub proof fn dispatches_serve_the_oldest_commands<N>(
    host: TenantHostView<N>,
    reported: Seq<TenantCommandOutcomeView>,
    events: Seq<HostEvent<N>>,
    tenant_id: Seq<char>,
)
    requires
        host.well_formed(),
        HostHistoryView::dispatching(host, reported).all_possible(events),
        forall|k: int| 0 <= k < events.len() ==> (#[trigger] events[k]).in_dispatch(),
    ensures
        ({
            let after = HostHistoryView::dispatching(host, reported).after_all(events);
            let queued = host.queued_ids(tenant_id);
            let taken = after.cycle.taken_ids(tenant_id);
            &&& after.cycle.pending is None ==> taken == ids_of(after.cycle.outcomes, tenant_id)
            &&& taken.len() <= queued.len()
            &&& taken == queued.take(taken.len() as int)
            &&& after.host.queued_ids(tenant_id) == if after.host.tenants.contains_key(tenant_id) {
                queued.skip(taken.len() as int)
            } else {
                Seq::empty()
            }
        }),
{
    let history = HostHistoryView::dispatching(host, reported);
    let after = history.after_all(events);
    let before = ids_of(reported, tenant_id);
    let queued = host.queued_ids(tenant_id);
    let taken = after.cycle.taken_ids(tenant_id);
    lemma_dispatch_keeps_the_line(history, events, tenant_id);
    assert(history.line(tenant_id) =~= before + queued);
    assert(after.line(tenant_id) =~= before + (taken + after.host.queued_ids(tenant_id)));
    assert((before + (taken + after.host.queued_ids(tenant_id))).is_prefix_of(before + queued));
    assert forall|i: int| 0 <= i < taken.len() implies taken[i] == queued[i] by {
        assert(after.line(tenant_id)[before.len() + i] == taken[i]);
        assert(history.line(tenant_id)[before.len() + i] == queued[i]);
    }
    assert(taken =~= queued.take(taken.len() as int));
    if after.host.tenants.contains_key(tenant_id) {
        let rest = after.host.queued_ids(tenant_id);
        assert forall|i: int| 0 <= i < rest.len() implies rest[i] == queued[taken.len() + i] by {
            assert(after.line(tenant_id)[before.len() + taken.len() + i] == rest[i]);
        }
        assert(rest =~= queued.skip(taken.len() as int));
    } else {
        assert(!after.host.queues.contains_key(tenant_id));
    }
}

/// As long as a tenant stays registered, its commands are answered in the order of their admission:
/// those taken from its queue and then those still queued are what stood in line at first and then
/// what was admitted since.
pub proof fn commands_are_served_in_the_order_of_admission<N>(
    history: HostHistoryView<N>,
    events: Seq<HostEvent<N>>,
    tenant_id: Seq<char>,
)
    requires
        history.host.well_formed(),
        history.all_possible(events),
        forall|k: int|
            0 <= k <= events.len() ==> (#[trigger] history.after_all(
                events.take(k),
            )).host.tenants.contains_key(tenant_id),
    ensures
        history.after_all(events).line(tenant_id) == history.line(tenant_id) + admitted_ids(
            events,
            tenant_id,
        ),
    decreases events.len(),
{
    if events.len() > 0 {
        let earlier = events.drop_last();
        lemma_last_event(history, events);
        the_invariant_always_holds(history, earlier);
        assert forall|k: int| 0 <= k <= earlier.len() implies (#[trigger] history.after_all(
            earlier.take(k),
        )).host.tenants.contains_key(tenant_id) by {
            assert(earlier.take(k) =~= events.take(k));
        }
        commands_are_served_in_the_order_of_admission(history, earlier, tenant_id);
        commands_stand_in_line(history.after_all(earlier), events.last(), tenant_id);
        assert(events.take(events.len() as int) =~= events);
        assert(history.after_all(events.take(events.len() as int)).host.tenants.contains_key(
            tenant_id,
        ));
    }
    assert(history.after_all(events).line(tenant_id) =~= history.line(tenant_id) + admitted_ids(
        events,
        tenant_id,
    ));
}

proof fn lemma_admitted_by_an_event<N>(
    events: Seq<HostEvent<N>>,
    tenant_id: Seq<char>,
    correlation_id: Seq<char>,
) -> (k: int)
    requires
        admitted_ids(events, tenant_id).contains(correlation_id),
    ensures
        0 <= k < events.len(),
        events[k] matches HostEvent::Enqueued(handle, _, id) && handle.tenant_id == tenant_id && id
            == correlation_id,
    decreases events.len(),
{
    let earlier = admitted_ids(events.drop_last(), tenant_id);
    let all = admitted_ids(events, tenant_id);
    let i = choose|i: int| 0 <= i < all.len() && all[i] == correlation_id;
    if i < earlier.len() {
        assert(earlier[i] == correlation_id);
        lemma_admitted_by_an_event(events.drop_last(), tenant_id, correlation_id)
    } else {
        events.len() - 1
    }
}

proof fn lemma_line_is_distinct<N>(
    max_dispatch_per_cycle: nat,
    events: Seq<HostEvent<N>>,
    tenant_id: Seq<char>,
)
    requires
        max_dispatch_per_cycle > 0,
        HostHistoryView::<N>::new(max_dispatch_per_cycle).all_possible(events),
        admitted_ids_differ(events),
    ensures
        ({
            let line = HostHistoryView::<N>::new(max_dispatch_per_cycle).after_all(events).line(
                tenant_id,
            );
            &&& line.no_duplicates()
            &&& forall|i: int|
                0 <= i < line.len() ==> admitted_ids(events, tenant_id).contains(#[trigger] line[i])
        }),
    decreases events.len(),
{
    let history = HostHistoryView::<N>::new(max_dispatch_per_cycle);
    let line = history.after_all(events).line(tenant_id);
    if events.len() == 0 {
        assert(line =~= Seq::empty());
    } else {
        let earlier = events.drop_last();
        let before = history.after_all(earlier);
        let line_before = before.line(tenant_id);
        let admitted = admitted_ids(events, tenant_id);
        let admitted_before = admitted_ids(earlier, tenant_id);
        lemma_last_event(history, events);
        assert(admitted_ids_differ(earlier)) by {
            assert forall|i: int, j: int| 0 <= i < j < earlier.len() implies match (
                #[trigger] earlier[i],
                #[trigger] earlier[j],
            ) {
                (HostEvent::Enqueued(_, _, a), HostEvent::Enqueued(_, _, b)) => a != b,
                _ => true,
            } by {
                assert(earlier[i] == events[i] && earlier[j] == events[j]);
            }
        }
        lemma_line_is_distinct(max_dispatch_per_cycle, earlier, tenant_id);
        the_invariant_always_holds(history, earlier);
        commands_stand_in_line(before, events.last(), tenant_id);
        assert(admitted_before.is_prefix_of(admitted));
        assert forall|i: int| 0 <= i < line.len() implies admitted.contains(#[trigger] line[i]) by {
            if i < line_before.len() {
                assert(line[i] == line_before[i]);
                let k = choose|k: int|
                    0 <= k < admitted_before.len() && admitted_before[k] == line_before[i];
                assert(admitted[k] == line[i]);
            } else {
                assert(admitted.last() == line[i]);
            }
        }
        if line.len() > line_before.len() {
            assert forall|i: int| 0 <= i < line_before.len() implies line[i] != line.last() by {
                assert(line[i] == line_before[i]);
                let k = lemma_admitted_by_an_event(earlier, tenant_id, line_before[i]);
                assert(events[k] == earlier[k]);
                assert(events[events.len() - 1] == events.last());
            }
        }
        assert forall|i: int, j: int| 0 <= i < j < line.len() implies line[i] != line[j] by {
            if j < line_before.len() {
                assert(line[i] == line_before[i] && line[j] == line_before[j]);
            }
        }
    }
}

proof fn lemma_position_of_outcome(
    outcomes: Seq<TenantCommandOutcomeView>,
    i: int,
    j: int,
) -> (positions: (int, int))
    requires
        0 <= i < j < outcomes.len(),
        outcomes[i].tenant_id == outcomes[j].tenant_id,
    ensures
        0 <= positions.0 < positions.1 < ids_of(outcomes, outcomes[j].tenant_id).len(),
        ids_of(outcomes, outcomes[j].tenant_id)[positions.0] == outcomes[i].correlation_id,
        ids_of(outcomes, outcomes[j].tenant_id)[positions.1] == outcomes[j].correlation_id,
{
    let tenant_id = outcomes[j].tenant_id;
    let first = outcomes.take(i);
    let second = outcomes.take(j);
    lemma_ids_of_prefix(outcomes, i, tenant_id);
    lemma_ids_of_prefix(outcomes, j, tenant_id);
    lemma_ids_of_prefix(outcomes.take(j), i, tenant_id);
    assert(outcomes.take(j).take(i) =~= first);
    (ids_of(first, tenant_id).len() as int, ids_of(second, tenant_id).len() as int)
}

proof fn lemma_ids_of_prefix(
    outcomes: Seq<TenantCommandOutcomeView>,
    i: int,
    tenant_id: Seq<char>,
)
    requires
        0 <= i < outcomes.len(),
    ensures
        ids_of(outcomes.take(i), tenant_id).is_prefix_of(ids_of(outcomes, tenant_id)),
        outcomes[i].tenant_id == tenant_id ==> {
            let position = ids_of(outcomes.take(i), tenant_id).len() as int;
            &&& position < ids_of(outcomes, tenant_id).len()
            &&& ids_of(outcomes, tenant_id)[position] == outcomes[i].correlation_id
        },
{
    let first = outcomes.take(i);
    let rest = outcomes.skip(i + 1);
    lemma_ids_of_push(first, outcomes[i], tenant_id);
    lemma_ids_of_concat(first.push(outcomes[i]), rest, tenant_id);
    assert(outcomes =~= first.push(outcomes[i]) + rest);
}

/// No command is answered twice: over all that happens to a host, as long as no correlation
/// identifier is drawn twice, no two outcomes carry the same one, and each outcome answers a command
/// that was admitted for its tenant.
pub proof fn no_command_is_answered_twice<N>(
    max_dispatch_per_cycle: nat,
    events: Seq<HostEvent<N>>,
)
    requires
        max_dispatch_per_cycle > 0,
        HostHistoryView::<N>::new(max_dispatch_per_cycle).all_possible(events),
        admitted_ids_differ(events),
    ensures
        ({
            let outcomes = HostHistoryView::<N>::new(max_dispatch_per_cycle).after_all(
                events,
            ).outcomes();
            &&& forall|i: int|
                0 <= i < outcomes.len() ==> admitted_ids(
                    events,
                    (#[trigger] outcomes[i]).tenant_id,
                ).contains(outcomes[i].correlation_id)
            &&& forall|i: int, j: int|
                0 <= i < j < outcomes.len() ==> (#[trigger] outcomes[i]).correlation_id != (
                #[trigger] outcomes[j]).correlation_id
        }),
{
    let after = HostHistoryView::<N>::new(max_dispatch_per_cycle).after_all(events);
    let outcomes = after.outcomes();
    assert forall|i: int| 0 <= i < outcomes.len() implies admitted_ids(
        events,
        (#[trigger] outcomes[i]).tenant_id,
    ).contains(outcomes[i].correlation_id) by {
        let tenant_id = outcomes[i].tenant_id;
        let position = ids_of(outcomes.take(i), tenant_id).len() as int;
        lemma_line_is_distinct(max_dispatch_per_cycle, events, tenant_id);
        lemma_outcomes_in_line(after, tenant_id);
        lemma_ids_of_prefix(outcomes, i, tenant_id);
        assert(after.line(tenant_id)[position] == outcomes[i].correlation_id);
    }
    assert forall|i: int, j: int| 0 <= i < j < outcomes.len() implies (
    #[trigger] outcomes[i]).correlation_id != (#[trigger] outcomes[j]).correlation_id by {
        let earlier = outcomes[i];
        let later = outcomes[j];
        if earlier.tenant_id == later.tenant_id {
            let (k, l) = lemma_position_of_outcome(outcomes, i, j);
            lemma_line_is_distinct(max_dispatch_per_cycle, events, later.tenant_id);
            lemma_outcomes_in_line(after, later.tenant_id);
            assert(after.line(later.tenant_id)[k] != after.line(later.tenant_id)[l]);
        } else {
            let k = lemma_admitted_by_an_event(
                events,
                earlier.tenant_id,
                earlier.correlation_id,
            );
            let l = lemma_admitted_by_an_event(events, later.tenant_id, later.correlation_id);
            assert(events[k] != events[l]);
        }
    }
}

proof fn lemma_outcomes_in_line<N>(history: HostHistoryView<N>, tenant_id: Seq<char>)
    ensures
        ids_of(history.outcomes(), tenant_id).is_prefix_of(history.line(tenant_id)),
{
    lemma_ids_of_concat(history.reported, history.cycle.outcomes, tenant_id);
}

} // verus!
