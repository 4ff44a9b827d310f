//! Fair, bounded dispatch of queued lifecycle commands.
//!
//! A [`DispatchCycle`] serves the tenants with queued commands in turn, one command each, until
//! its budget is spent. Whatever needs a node is handed to the owner of the nodes as a
//! [`DispatchStep`], and the cycle goes on when the owner has reported back.

use vstd::prelude::*;

use crate::context::TenantContext;
use crate::dispatch_model::{
    DispatchCycleView, DispatchStepView, NodeWork, PendingCommandView, TenantCommandOutcomeView,
};
use crate::host::{TenantHandle, TenantHost};
use crate::host_invariant::taking_a_command_keeps_the_invariant;
use crate::identifiers::UUID4;
use crate::lifecycle::{NodeAction, TenantCommand, TenantState};
use crate::tenant::TenantId;

verus! {

/// The text of a result.
pub open spec fn result_text(result: Result<(), String>) -> Result<(), Seq<char>> {
    match result {
        Ok(()) => Ok(()),
        Err(text) => Err(text@),
    }
}

/// Outcome of one dispatched tenant lifecycle command.
#[derive(Debug, Eq, PartialEq)]
pub struct TenantCommandOutcome {
    /// The request correlation identifier.
    pub correlation_id: UUID4,
    /// The authenticated tenant scope.
    pub tenant_id: TenantId,
    /// The command result.
    pub result: Result<(), String>,
}

impl View for TenantCommandOutcome {
    type V = TenantCommandOutcomeView;

    open spec fn view(&self) -> TenantCommandOutcomeView {
        TenantCommandOutcomeView {
            correlation_id: self.correlation_id@,
            tenant_id: self.tenant_id@,
            result: result_text(self.result),
        }
    }
}

/// The outcomes that a sequence of outcomes stands for.
pub open spec fn outcome_views(outcomes: Seq<TenantCommandOutcome>) -> Seq<
    TenantCommandOutcomeView,
> {
    outcomes.map_values(|outcome: TenantCommandOutcome| outcome@)
}

#[derive(Debug)]
struct PendingCommand {
    correlation_id: UUID4,
    handle: TenantHandle,
    work: NodeWork,
}

/// A scheduling cycle.
#[derive(Debug)]
pub struct DispatchCycle {
    remaining: usize,
    outcomes: Vec<TenantCommandOutcome>,
    pending: Option<PendingCommand>,
}

impl View for DispatchCycle {
    type V = DispatchCycleView;

    closed spec fn view(&self) -> DispatchCycleView {
        DispatchCycleView {
            remaining: self.remaining as nat,
            outcomes: outcome_views(self.outcomes@),
            pending: match self.pending {
                Some(pending) => Some(
                    PendingCommandView {
                        correlation_id: pending.correlation_id@,
                        handle: pending.handle@,
                        work: pending.work,
                    },
                ),
                None => None,
            },
        }
    }
}

/// What a scheduling cycle asks of the owner of the nodes.
#[derive(Debug)]
pub enum DispatchStep<N> {
    /// Nothing: the cycle is complete.
    Complete,
    /// To start the node of a tenant and to answer with [`TenantHost::node_started`].
    StartNode(TenantHandle),
    /// To tell whether the node of a tenant is running with [`TenantHost::node_reported`].
    ReportNode(TenantHandle),
    /// To dispose of the node of a destroyed tenant.
    DisposeNode(TenantContext<N>),
}

impl<N> View for DispatchStep<N> {
    type V = DispatchStepView<N>;

    open spec fn view(&self) -> DispatchStepView<N> {
        match *self {
            DispatchStep::Complete => DispatchStepView::Complete,
            DispatchStep::StartNode(handle) => DispatchStepView::StartNode(handle@),
            DispatchStep::ReportNode(handle) => DispatchStepView::ReportNode(handle@),
            DispatchStep::DisposeNode(context) => DispatchStepView::DisposeNode(context@),
        }
    }
}

impl DispatchCycle {
    /// Returns the outcomes of the commands that the cycle has dispatched, in order.
    pub fn into_outcomes(self) -> (outcomes: Vec<TenantCommandOutcome>)
        ensures
            outcome_views(outcomes@) == self@.outcomes,
    {
        self.outcomes
    }

    fn answer(&mut self, correlation_id: UUID4, tenant_id: TenantId, result: Result<(), String>)
        ensures
            final(self)@ == old(self)@.answered(
                correlation_id@,
                tenant_id@,
                result_text(result),
            ),
    {
        let outcome = TenantCommandOutcome { correlation_id, tenant_id, result };
        self.pending = None;
        self.outcomes.push(outcome);
        assert(self@.outcomes =~= old(self)@.outcomes.push(outcome@));
    }

    fn wait(&mut self, correlation_id: UUID4, handle: TenantHandle, work: NodeWork)
        ensures
            final(self)@ == old(self)@.waiting(correlation_id@, handle@, work),
    {
        self.pending = Some(PendingCommand { correlation_id, handle, work });
    }

    fn take_pending(&mut self) -> (pending: Option<PendingCommand>)
        ensures
            match pending {
                Some(pending) => old(self)@.pending == Some(
                    PendingCommandView {
                        correlation_id: pending.correlation_id@,
                        handle: pending.handle@,
                        work: pending.work,
                    },
                ),
                None => old(self)@.pending is None,
            },
            final(self)@ == (DispatchCycleView { pending: None, ..old(self)@ }),
    {
        self.pending.take()
    }
}

impl<N> TenantHost<N> {
    /// Begins a fair round-robin batch of queued lifecycle commands.
    pub fn dispatch(&self) -> (cycle: DispatchCycle)
        ensures
            cycle@ == DispatchCycleView::fresh(self@.max_dispatch_per_cycle),
    {
        let cycle = DispatchCycle {
            remaining: self.max_dispatch_per_cycle(),
            outcomes: Vec::new(),
            pending: None,
        };
        assert(cycle@.outcomes =~= Seq::empty());
        cycle
    }

    /// Dispatches queued commands until one of them needs its node, the cycle has spent its
    /// budget or no command is queued.
    pub fn advance(&mut self, cycle: &mut DispatchCycle) -> (step: DispatchStep<N>)
        requires
            old(self).well_formed(),
            old(cycle)@.pending is None,
        ensures
            final(self).well_formed(),
            (final(self)@, final(cycle)@, step@) == old(self)@.advanced(old(cycle)@),
            final(self)@.in_step_with(final(cycle)@),
            match step {
                DispatchStep::StartNode(handle) => {
                    &&& final(cycle)@.pending matches Some(pending)
                    &&& pending.handle == handle@
                    &&& pending.work == NodeWork::Start
                },
                DispatchStep::ReportNode(handle) => {
                    &&& final(cycle)@.pending matches Some(pending)
                    &&& pending.handle == handle@
                    &&& pending.work == NodeWork::Report
                },
                _ => final(cycle)@.pending is None,
            },
    {
        while cycle.remaining > 0
            invariant
                self.well_formed(),
                cycle@.pending is None,
                self@.advanced(cycle@) == old(self)@.advanced(old(cycle)@),
            decreases cycle.remaining,
        {
            let ghost host = self@;
            let ghost before = cycle@;
            let (tenant_id, envelope) = match self.take_next() {
                Some(next) => next,
                None => return DispatchStep::Complete,
            };
            cycle.remaining -= 1;
            let correlation_id = envelope.correlation_id;
            proof {
                taking_a_command_keeps_the_invariant(host);
            }
            let handle = match self.dispatch_handle(&tenant_id, &envelope) {
                Ok(handle) => handle,
                Err(text) => {
                    cycle.answer(correlation_id, tenant_id, Err(text));
                    continue;
                },
            };
            match envelope.payload {
                TenantCommand::Start => match self.start_tenant(&handle) {
                    Ok(NodeAction::Start) => {
                        cycle.wait(correlation_id, handle.clone(), NodeWork::Start);
                        return DispatchStep::StartNode(handle);
                    },
                    Ok(_) => cycle.answer(correlation_id, tenant_id, Ok(())),
                    Err(error) => cycle.answer(correlation_id, tenant_id, Err(error.to_string())),
                },
                TenantCommand::Stop => {
                    cycle.wait(correlation_id, handle.clone(), NodeWork::Report);
                    return DispatchStep::ReportNode(handle);
                },
                TenantCommand::Suspend => match self.suspend_tenant(&handle) {
                    Ok(()) => cycle.answer(correlation_id, tenant_id, Ok(())),
                    Err(error) => cycle.answer(correlation_id, tenant_id, Err(error.to_string())),
                },
                TenantCommand::Resume => match self.resume_tenant(&handle) {
                    Ok(()) => cycle.answer(correlation_id, tenant_id, Ok(())),
                    Err(error) => cycle.answer(correlation_id, tenant_id, Err(error.to_string())),
                },
                TenantCommand::Destroy => match self.destroy_tenant(&handle) {
                    Ok(Some(context)) => {
                        cycle.answer(correlation_id, tenant_id, Ok(()));
                        return DispatchStep::DisposeNode(context);
                    },
                    Ok(None) => cycle.answer(correlation_id, tenant_id, Ok(())),
                    Err(error) => cycle.answer(correlation_id, tenant_id, Err(error.to_string())),
                },
            }
        }
        DispatchStep::Complete
    }

    /// Tells a cycle how the start of a node went, and whether the node is now running.
    pub fn node_started(
        &mut self,
        cycle: &mut DispatchCycle,
        result: Result<(), String>,
        node_running: bool,
    )
        requires
            old(self).well_formed(),
            old(self)@.in_step_with(old(cycle)@),
            old(cycle)@.pending matches Some(pending) && pending.work == NodeWork::Start,
        ensures
            final(self).well_formed(),
            final(self)@ == old(self)@.in_state(
                old(cycle)@.pending->0.handle.tenant_id,
                TenantState::after_start(result is Ok, node_running),
            ),
            final(cycle)@ == old(cycle)@.settled(result_text(result)),
    {
        if let Some(pending) = cycle.take_pending() {
            let answer = self.finish_start_tenant(&pending.handle, result, node_running);
            let tenant_id = pending.handle.tenant_id().clone();
            cycle.answer(pending.correlation_id, tenant_id, answer);
        }
    }

    /// Tells a cycle whether the node that is to be stopped is running. The node has to be stopped
    /// if the answer is [`NodeAction::Stop`], and the cycle then waits for
    /// [`TenantHost::node_stopped`].
    pub fn node_reported(&mut self, cycle: &mut DispatchCycle, node_running: bool) -> (action:
        NodeAction)
        requires
            old(self).well_formed(),
            old(self)@.in_step_with(old(cycle)@),
            old(cycle)@.pending matches Some(pending) && pending.work == NodeWork::Report,
        ensures
            final(self).well_formed(),
            final(self)@.in_step_with(final(cycle)@),
            ({
                let pending = old(cycle)@.pending->0;
                match old(self)@.context(pending.handle).state.stop(node_running) {
                    Ok((expected, state)) => {
                        &&& action == expected
                        &&& final(self)@ == old(self)@.in_state(pending.handle.tenant_id, state)
                        &&& final(cycle)@ == if action == NodeAction::Stop {
                            old(cycle)@.waiting(
                                pending.correlation_id,
                                pending.handle,
                                NodeWork::Stop,
                            )
                        } else {
                            old(cycle)@.settled(Ok(()))
                        }
                    },
                    Err(error) => {
                        &&& action == NodeAction::Nothing
                        &&& final(self)@ == old(self)@
                        &&& final(cycle)@ == old(cycle)@.settled(Err(error.message()))
                    },
                }
            }),
    {
        let pending = match cycle.take_pending() {
            Some(pending) => pending,
            None => return NodeAction::Nothing,
        };
        let tenant_id = pending.handle.tenant_id().clone();
        match self.stop_tenant(&pending.handle, node_running) {
            Ok(NodeAction::Stop) => {
                cycle.wait(pending.correlation_id, pending.handle, NodeWork::Stop);
                NodeAction::Stop
            },
            Ok(action) => {
                cycle.answer(pending.correlation_id, tenant_id, Ok(()));
                action
            },
            Err(error) => {
                cycle.answer(pending.correlation_id, tenant_id, Err(error.to_string()));
                NodeAction::Nothing
            },
        }
    }

    /// Tells a cycle how the stop of a node went.
    pub fn node_stopped(&mut self, cycle: &mut DispatchCycle, result: Result<(), String>)
        requires
            old(self).well_formed(),
            old(self)@.in_step_with(old(cycle)@),
            old(cycle)@.pending matches Some(pending) && pending.work == NodeWork::Stop,
        ensures
            final(self).well_formed(),
            final(self)@ == old(self)@.in_state(
                old(cycle)@.pending->0.handle.tenant_id,
                TenantState::Stopped,
            ),
            final(cycle)@ == old(cycle)@.settled(result_text(result)),
    {
        if let Some(pending) = cycle.take_pending() {
            let answer = self.finish_stop_tenant(&pending.handle, result);
            let tenant_id = pending.handle.tenant_id().clone();
            cycle.answer(pending.correlation_id, tenant_id, answer);
        }
    }
}

} // verus!
