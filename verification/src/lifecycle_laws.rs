//! Laws of the runtime lifecycle.

use vstd::prelude::*;

use crate::errors::TenantError;
use crate::lifecycle::{NodeAction, TenantState};

verus! {

/// Starting a started runtime changes nothing and asks nothing of the node.
pub proof fn repeated_starts_are_idempotent(state: TenantState)
    requires
        state == TenantState::Running || state == TenantState::Suspended,
    ensures
        state.start() == Ok::<(NodeAction, TenantState), TenantError>((NodeAction::Nothing, state)),
{
}

/// Stopping a runtime that is idle or stopped changes nothing and asks nothing of the node, and
/// every stop that is granted ends in such a state.
pub proof fn repeated_stops_are_idempotent(state: TenantState, node_running: bool, again: bool)
    requires
        state.stop(node_running) is Ok,
    ensures
        ({
            let (action, next) = state.stop(node_running)->Ok_0;
            let last = if action == NodeAction::Stop {
                TenantState::Stopped
            } else {
                next
            };
            &&& last.destroyable()
            &&& last.stop(again) == Ok::<(NodeAction, TenantState), TenantError>(
                (NodeAction::Nothing, last),
            )
        }),
{
}

/// Suspending a suspended runtime changes nothing.
pub proof fn repeated_suspensions_are_idempotent(state: TenantState)
    ensures
        state.suspend() matches Ok(next) ==> next.suspend() == Ok::<TenantState, TenantError>(next),
{
}

/// Resuming undoes the suspension of a running runtime, and a runtime is resumed exactly when it is
/// suspended.
pub proof fn resuming_undoes_suspending(state: TenantState)
    ensures
        state == TenantState::Running ==> state.suspend() == Ok::<TenantState, TenantError>(
            TenantState::Suspended,
        ) && TenantState::Suspended.resume() == Ok::<TenantState, TenantError>(state),
        state.resume() is Ok <==> state == TenantState::Suspended,
{
}

/// A runtime that is starting or stopping is started by nobody else, and the node is asked to
/// start only by a runtime that waits for the answer.
pub proof fn transitions_are_exclusive(state: TenantState, node_running: bool)
    ensures
        state.start() is Err <==> state == TenantState::Starting || state == TenantState::Stopping,
        state.stop(node_running) is Err <==> state == TenantState::Stopping,
        state.start() matches Ok((action, next)) ==> (action == NodeAction::Start <==> next
            == TenantState::Starting),
        state.stop(node_running) matches Ok((action, next)) ==> (action == NodeAction::Stop <==> next
            == TenantState::Stopping),
{
}

/// A completed start leaves the runtime running exactly when the node started and runs, and
/// stopped otherwise, so that it may then be started again or destroyed.
pub proof fn failed_starts_end_stopped(succeeded: bool, node_running: bool)
    ensures
        TenantState::after_start(succeeded, node_running) == TenantState::Running <==> succeeded
            && node_running,
        !(succeeded && node_running) ==> TenantState::after_start(
            succeeded,
            node_running,
        ).destroyable() && TenantState::after_start(succeeded, node_running).start() == Ok::<
            (NodeAction, TenantState),
            TenantError,
        >((NodeAction::Start, TenantState::Starting)),
{
}

/// A start is refused while the runtime is starting or stopping. It asks the node to start exactly
/// when the runtime is idle or stopped, and the runtime is then starting; otherwise it changes
/// nothing.
pub proof fn starts_reach_the_node_of_an_inactive_runtime(state: TenantState)
    ensures
        match state.start() {
            Ok((action, next)) => {
                &&& state != TenantState::Starting && state != TenantState::Stopping
                &&& action == NodeAction::Start || action == NodeAction::Nothing
                &&& action == NodeAction::Start <==> state == TenantState::Idle || state
                    == TenantState::Stopped
                &&& action == NodeAction::Start ==> next == TenantState::Starting
                &&& action == NodeAction::Nothing ==> next == state
            },
            Err(error) => {
                &&& state == TenantState::Starting || state == TenantState::Stopping
                &&& error is Transitioning
            },
        },
{
}

/// A stop is refused only while the runtime is stopping. It asks the node to stop exactly when the
/// node is running under a runtime that is starting, running or suspended, and the runtime is then
/// stopping; without a running node such a runtime is stopped at once, and an idle or stopped one
/// stays as it is.
pub proof fn stops_reach_every_running_node(state: TenantState, node_running: bool)
    ensures
        match state.stop(node_running) {
            Ok((action, next)) => {
                let active = state == TenantState::Starting || state == TenantState::Running
                    || state == TenantState::Suspended;
                &&& state != TenantState::Stopping
                &&& action == NodeAction::Stop || action == NodeAction::Nothing
                &&& action == NodeAction::Stop <==> active && node_running
                &&& action == NodeAction::Stop ==> next == TenantState::Stopping
                &&& active && !node_running ==> next == TenantState::Stopped
                &&& !active ==> next == state
            },
            Err(error) => state == TenantState::Stopping && error is AlreadyStopping,
        },
{
}

/// A suspension is granted exactly to a runtime that is running or already suspended, which is then
/// suspended. Any other runtime is reported as not running.
pub proof fn only_running_runtimes_are_suspended(state: TenantState)
    ensures
        match state.suspend() {
            Ok(next) => {
                &&& state == TenantState::Running || state == TenantState::Suspended
                &&& next == TenantState::Suspended
            },
            Err(error) => {
                &&& state != TenantState::Running && state != TenantState::Suspended
                &&& error is NotRunning
            },
        },
{
}

/// A resumption is granted exactly to a suspended runtime, which is then running. Any other runtime is
/// reported as not suspended.
pub proof fn only_suspended_runtimes_are_resumed(state: TenantState)
    ensures
        match state.resume() {
            Ok(next) => state == TenantState::Suspended && next == TenantState::Running,
            Err(error) => state != TenantState::Suspended && error is NotSuspended,
        },
{
}

/// A completed start leaves the runtime running when the node started and runs, and stopped in every
/// other case. A runtime may be destroyed exactly when it is idle or stopped.
pub proof fn runtimes_end_running_or_stopped(
    succeeded: bool,
    node_running: bool,
    state: TenantState,
)
    ensures
        succeeded && node_running ==> TenantState::after_start(succeeded, node_running)
            == TenantState::Running,
        !succeeded || !node_running ==> TenantState::after_start(succeeded, node_running)
            == TenantState::Stopped,
        state.destroyable() <==> state == TenantState::Idle || state == TenantState::Stopped,
{
}

} // verus!
