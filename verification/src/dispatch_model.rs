//! The mathematical model of dispatch cycles.

use vstd::prelude::*;

use crate::context::TenantContextView;
use crate::host_model::{TenantHandleView, TenantHostView};
use crate::lifecycle::{NodeAction, TenantCommand, TenantState};

verus! {

/// What a dispatched command waits for.
#[derive(Clone, Copy, Debug, Eq, PartialEq, Structural)]
pub enum NodeWork {
    /// The node is being started.
    Start,
    /// The owner of the node is asked whether the node is running, before it is stopped.
    Report,
    /// The node is being stopped.
    Stop,
}

/// The outcome of a dispatched command.
pub ghost struct TenantCommandOutcomeView {
    pub correlation_id: Seq<char>,
    pub tenant_id: Seq<char>,
    pub result: Result<(), Seq<char>>,
}

/// A dispatched command that waits for its node.
pub ghost struct PendingCommandView {
    pub correlation_id: Seq<char>,
    pub handle: TenantHandleView,
    pub work: NodeWork,
}

/// A scheduling cycle.
pub ghost struct DispatchCycleView {
    /// The number of commands that the cycle may still dispatch.
    pub remaining: nat,
    /// The outcomes so far, in the order in which the commands were dispatched.
    pub outcomes: Seq<TenantCommandOutcomeView>,
    /// The command that waits for its node.
    pub pending: Option<PendingCommandView>,
}

/// What a scheduling cycle asks of the owner of the nodes.
pub ghost enum DispatchStepView<N> {
    /// Nothing: the cycle is complete.
    Complete,
    /// To start the node of a tenant.
    StartNode(TenantHandleView),
    /// To report whether the node of a tenant is running.
    ReportNode(TenantHandleView),
    /// To dispose of the node of a destroyed tenant.
    DisposeNode(TenantContextView<N>),
}

/// What the dispatch of one command does.
pub ghost struct DispatchTurnView<N> {
    /// The host afterwards.
    pub host: TenantHostView<N>,
    /// The result of the command, or what it waits for.
    pub answer: Result<Result<(), Seq<char>>, NodeWork>,
    /// What is asked of the owner of the nodes.
    pub step: Option<DispatchStepView<N>>,
}

impl DispatchCycleView {
    /// A cycle that may dispatch the given number of commands.
    pub open spec fn fresh(budget: nat) -> Self {
        DispatchCycleView { remaining: budget, outcomes: Seq::empty(), pending: None }
    }

    /// The number of commands that the cycle has dispatched and may still dispatch.
    pub open spec fn budget(self) -> nat {
        self.remaining + self.outcomes.len() + if self.pending is Some {
            1nat
        } else {
            0nat
        }
    }

    /// The cycle after the outcome of a command became known.
    pub open spec fn answered(
        self,
        correlation_id: Seq<char>,
        tenant_id: Seq<char>,
        result: Result<(), Seq<char>>,
    ) -> Self {
        DispatchCycleView {
            outcomes: self.outcomes.push(
                TenantCommandOutcomeView { correlation_id, tenant_id, result },
            ),
            pending: None,
            ..self
        }
    }

    /// The cycle while a command waits for its node.
    pub open spec fn waiting(
        self,
        correlation_id: Seq<char>,
        handle: TenantHandleView,
        work: NodeWork,
    ) -> Self {
        DispatchCycleView {
            pending: Some(PendingCommandView { correlation_id, handle, work }),
            ..self
        }
    }

    /// The cycle after the outcome of the waiting command became known.
    pub open spec fn settled(self, result: Result<(), Seq<char>>) -> Self {
        self.answered(self.pending->0.correlation_id, self.pending->0.handle.tenant_id, result)
    }
}

impl<N> TenantHostView<N> {
    /// The dispatch of the next command.
    pub open spec fn turn(self) -> DispatchTurnView<N> {
        let tenant_id = self.next_tenant();
        let host = self.popped();
        let handle = host.tenants[tenant_id].handle;
        let context = host.tenants[tenant_id].context;
        match self.next_command().payload {
            TenantCommand::Start => match context.state.start() {
                Ok((NodeAction::Start, state)) => DispatchTurnView {
                    host: host.in_state(tenant_id, state),
                    answer: Err(NodeWork::Start),
                    step: Some(DispatchStepView::StartNode(handle)),
                },
                Ok((_, state)) => DispatchTurnView {
                    host: host.in_state(tenant_id, state),
                    answer: Ok(Ok(())),
                    step: None,
                },
                Err(error) => DispatchTurnView {
                    host,
                    answer: Ok(Err(error.message())),
                    step: None,
                },
            },
            TenantCommand::Stop => DispatchTurnView {
                host,
                answer: Err(NodeWork::Report),
                step: Some(DispatchStepView::ReportNode(handle)),
            },
            TenantCommand::Suspend => match context.state.suspend() {
                Ok(state) => DispatchTurnView {
                    host: host.in_state(tenant_id, state),
                    answer: Ok(Ok(())),
                    step: None,
                },
                Err(error) => DispatchTurnView {
                    host,
                    answer: Ok(Err(error.message())),
                    step: None,
                },
            },
            TenantCommand::Resume => match context.state.resume() {
                Ok(state) => DispatchTurnView {
                    host: host.in_state(tenant_id, state),
                    answer: Ok(Ok(())),
                    step: None,
                },
                Err(error) => DispatchTurnView {
                    host,
                    answer: Ok(Err(error.message())),
                    step: None,
                },
            },
            TenantCommand::Destroy => match host.destroy_error(handle) {
                None => DispatchTurnView {
                    host: host.destroyed_by(handle),
                    answer: Ok(Ok(())),
                    step: Some(
                        DispatchStepView::DisposeNode(context.in_state(TenantState::Stopped)),
                    ),
                },
                Some(error) => DispatchTurnView {
                    host,
                    answer: Ok(Err(error.message())),
                    step: None,
                },
            },
        }
    }

    /// The cycle after the dispatch of the next command.
    pub open spec fn cycle_after_turn(self, cycle: DispatchCycleView) -> DispatchCycleView {
        let counted = DispatchCycleView { remaining: (cycle.remaining - 1) as nat, ..cycle };
        let correlation_id = self.next_command().correlation_id;
        match self.turn().answer {
            Ok(result) => counted.answered(correlation_id, self.next_tenant(), result),
            Err(work) => counted.waiting(
                correlation_id,
                self.tenants[self.next_tenant()].handle,
                work,
            ),
        }
    }

    /// The host, the cycle and what is asked of the owner of the nodes when a cycle dispatches
    /// commands until something is asked, its budget is spent or no command is queued.
    pub open spec fn advanced(self, cycle: DispatchCycleView) -> (
        TenantHostView<N>,
        DispatchCycleView,
        DispatchStepView<N>,
    )
        decreases cycle.remaining,
    {
        if cycle.remaining == 0 || self.ready.len() == 0 {
            (self, cycle, DispatchStepView::Complete)
        } else {
            match self.turn().step {
                Some(step) => (self.turn().host, self.cycle_after_turn(cycle), step),
                None => self.turn().host.advanced(self.cycle_after_turn(cycle)),
            }
        }
    }

    /// The command that a cycle waits for is the one that the host is busy with.
    pub open spec fn in_step_with(self, cycle: DispatchCycleView) -> bool {
        match cycle.pending {
            None => true,
            Some(pending) => {
                &&& self.access_error(pending.handle) is None
                &&& pending.work == NodeWork::Start ==> self.context(pending.handle).state
                    == TenantState::Starting
                &&& pending.work == NodeWork::Stop ==> self.context(pending.handle).state
                    == TenantState::Stopping
            },
        }
    }
}

} // verus!
