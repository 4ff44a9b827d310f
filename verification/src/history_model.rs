//! The mathematical model of what happens to a host over time.
//!
//! A [`HostHistoryView`] is a host with its current scheduling cycle and the outcomes of the cycles
//! before. What the operations of a host do to it are [`HostEvent`]s.

use vstd::prelude::*;

use crate::context::TenantContextView;
use crate::dispatch_model::{DispatchCycleView, NodeWork, TenantCommandOutcomeView};
use crate::host_model::{TenantHandleView, TenantHostView};
use crate::lifecycle::{TenantCommand, TenantState};

verus! {

/// The correlation identifiers of the outcomes that belong to a tenant, in order.
pub open spec fn ids_of(outcomes: Seq<TenantCommandOutcomeView>, tenant_id: Seq<char>) -> Seq<
    Seq<char>,
>
    decreases outcomes.len(),
{
    if outcomes.len() == 0 {
        Seq::empty()
    } else {
        let before = ids_of(outcomes.drop_last(), tenant_id);
        if outcomes.last().tenant_id == tenant_id {
            before.push(outcomes.last().correlation_id)
        } else {
            before
        }
    }
}

impl DispatchCycleView {
    /// The correlation identifiers of the commands of a tenant that the cycle has taken from their
    /// queue, in order: those that are answered and then the one that waits for its node.
    pub open spec fn taken_ids(self, tenant_id: Seq<char>) -> Seq<Seq<char>> {
        let answered = ids_of(self.outcomes, tenant_id);
        match self.pending {
            Some(pending) => if pending.handle.tenant_id == tenant_id {
                answered.push(pending.correlation_id)
            } else {
                answered
            },
            None => answered,
        }
    }
}

impl<N> TenantHostView<N> {
    /// The correlation identifiers of the queued commands of a tenant, oldest first.
    pub open spec fn queued_ids(self, tenant_id: Seq<char>) -> Seq<Seq<char>> {
        if self.queues.contains_key(tenant_id) {
            let messages = self.queues[tenant_id].messages;
            Seq::new(messages.len(), |i: int| messages[i].correlation_id)
        } else {
            Seq::empty()
        }
    }
}

/// Something that happens to a host or to its scheduling cycle.
pub ghost enum HostEvent<N> {
    /// A tenant is registered.
    Registered(TenantHandleView, TenantContextView<N>),
    /// A command is admitted under the given correlation identifier.
    Enqueued(TenantHandleView, TenantCommand, Seq<char>),
    /// A lifecycle operation puts a tenant in a state.
    StateChanged(Seq<char>, TenantState),
    /// The owner of the nodes operates on the node of a tenant.
    NodeOperated(Seq<char>, N),
    /// A tenant is destroyed.
    Destroyed(TenantHandleView),
    /// The cycle advances.
    Advanced,
    /// A report on the node of the waiting command puts its tenant in a state, and the command goes
    /// on waiting for the given work.
    Waited(TenantState, NodeWork),
    /// A report on the node of the waiting command puts its tenant in a state, and the command is
    /// answered.
    Answered(TenantState, Result<(), Seq<char>>),
    /// The cycle hands over its outcomes and a new one begins. A cycle that is given up instead
    /// counts as if it had handed them over, with some answer to the command that waited.
    Collected,
}

/// A host with its current cycle and the outcomes of the cycles before.
pub ghost struct HostHistoryView<N> {
    pub host: TenantHostView<N>,
    pub cycle: DispatchCycleView,
    pub reported: Seq<TenantCommandOutcomeView>,
}

impl<N> HostEvent<N> {
    /// The event is part of a dispatch: the cycle advances, or the owner of the nodes operates on a
    /// node or reports on one.
    pub open spec fn in_dispatch(self) -> bool {
        match self {
            HostEvent::Advanced => true,
            HostEvent::NodeOperated(..) => true,
            HostEvent::Waited(..) => true,
            HostEvent::Answered(..) => true,
            _ => false,
        }
    }
}

impl<N> HostHistoryView<N> {
    /// The history of a host without tenants.
    pub open spec fn new(max_dispatch_per_cycle: nat) -> Self {
        Self::dispatching(TenantHostView::empty(max_dispatch_per_cycle), Seq::empty())
    }

    /// A host that begins a cycle after the given outcomes.
    pub open spec fn dispatching(
        host: TenantHostView<N>,
        reported: Seq<TenantCommandOutcomeView>,
    ) -> Self {
        HostHistoryView {
            host,
            cycle: DispatchCycleView::fresh(host.max_dispatch_per_cycle),
            reported,
        }
    }

    /// Whether an event may happen now.
    pub open spec fn possible(self, event: HostEvent<N>) -> bool {
        match event {
            HostEvent::Registered(handle, context) => {
                &&& !self.host.tenants.contains_key(context.tenant_id)
                &&& handle.tenant_id == context.tenant_id
                &&& context.limits.error() is None
            },
            HostEvent::Enqueued(handle, command, _) => self.host.enqueue_error(
                handle,
                command,
            ) is None,
            HostEvent::StateChanged(tenant_id, _) => self.host.tenants.contains_key(tenant_id),
            HostEvent::NodeOperated(tenant_id, _) => self.host.tenants.contains_key(tenant_id),
            HostEvent::Destroyed(handle) => {
                &&& self.host.tenants.contains_key(handle.tenant_id)
                &&& self.host.destroy_error(handle) is None
            },
            HostEvent::Advanced => self.cycle.pending is None,
            HostEvent::Waited(..) | HostEvent::Answered(..) => {
                &&& self.cycle.pending matches Some(pending)
                &&& self.host.tenants.contains_key(pending.handle.tenant_id)
            },
            HostEvent::Collected => self.cycle.pending is None,
        }
    }

    /// The history after an event.
    pub open spec fn after(self, event: HostEvent<N>) -> Self {
        match event {
            HostEvent::Registered(handle, context) => HostHistoryView {
                host: self.host.registered(handle, context),
                ..self
            },
            HostEvent::Enqueued(handle, command, correlation_id) => HostHistoryView {
                host: self.host.enqueued(handle, command, correlation_id),
                ..self
            },
            HostEvent::StateChanged(tenant_id, state) => HostHistoryView {
                host: self.host.in_state(tenant_id, state),
                ..self
            },
            HostEvent::NodeOperated(tenant_id, node) => HostHistoryView {
                host: self.host.with_context(
                    tenant_id,
                    self.host.tenants[tenant_id].context.with_node(node),
                ),
                ..self
            },
            HostEvent::Destroyed(handle) => HostHistoryView {
                host: self.host.destroyed_by(handle),
                ..self
            },
            HostEvent::Advanced => HostHistoryView {
                host: self.host.advanced(self.cycle).0,
                cycle: self.host.advanced(self.cycle).1,
                ..self
            },
            HostEvent::Waited(state, work) => HostHistoryView {
                host: self.host.in_state(self.cycle.pending->0.handle.tenant_id, state),
                cycle: self.cycle.waiting(
                    self.cycle.pending->0.correlation_id,
                    self.cycle.pending->0.handle,
                    work,
                ),
                ..self
            },
            HostEvent::Answered(state, result) => HostHistoryView {
                host: self.host.in_state(self.cycle.pending->0.handle.tenant_id, state),
                cycle: self.cycle.settled(result),
                ..self
            },
            HostEvent::Collected => Self::dispatching(
                self.host,
                self.reported + self.cycle.outcomes,
            ),
        }
    }

    /// The history after a number of events.
    pub open spec fn after_all(self, events: Seq<HostEvent<N>>) -> Self
        decreases events.len(),
    {
        if events.len() == 0 {
            self
        } else {
            self.after_all(events.drop_last()).after(events.last())
        }
    }

    /// Whether the events may happen one after the other.
    pub open spec fn all_possible(self, events: Seq<HostEvent<N>>) -> bool {
        forall|k: int|
            0 <= k < events.len() ==> self.after_all(events.take(k)).possible(#[trigger] events[k])
    }

    /// The outcomes of all cycles, in order.
    pub open spec fn outcomes(self) -> Seq<TenantCommandOutcomeView> {
        self.reported + self.cycle.outcomes
    }

    /// The correlation identifiers of the commands of a tenant that were taken from its queue, in
    /// order, over all cycles.
    pub open spec fn taken_ids(self, tenant_id: Seq<char>) -> Seq<Seq<char>> {
        ids_of(self.reported, tenant_id) + self.cycle.taken_ids(tenant_id)
    }

    /// The correlation identifiers of the commands of a tenant in order: those taken from its queue
    /// and then those that are queued.
    pub open spec fn line(self, tenant_id: Seq<char>) -> Seq<Seq<char>> {
        self.taken_ids(tenant_id) + self.host.queued_ids(tenant_id)
    }
}

/// The correlation identifiers under which commands of a tenant were admitted, in order.
pub open spec fn admitted_ids<N>(events: Seq<HostEvent<N>>, tenant_id: Seq<char>) -> Seq<Seq<char>>
    decreases events.len(),
{
    if events.len() == 0 {
        Seq::empty()
    } else {
        let before = admitted_ids(events.drop_last(), tenant_id);
        match events.last() {
            HostEvent::Enqueued(handle, _, correlation_id) => if handle.tenant_id == tenant_id {
                before.push(correlation_id)
            } else {
                before
            },
            _ => before,
        }
    }
}

/// No two commands were admitted under the same correlation identifier.
pub open spec fn admitted_ids_differ<N>(events: Seq<HostEvent<N>>) -> bool {
    forall|i: int, j: int|
        0 <= i < j < events.len() ==> match (#[trigger] events[i], #[trigger] events[j]) {
            (HostEvent::Enqueued(_, _, earlier), HostEvent::Enqueued(_, _, later)) => earlier
                != later,
            _ => true,
        }
}

} // verus!
