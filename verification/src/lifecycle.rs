//! The lifecycle of a tenant runtime.

use vstd::prelude::*;

use crate::errors::TenantError;

verus! {

/// Lifecycle state for a tenant runtime.
#[derive(Clone, Copy, Debug, Eq, PartialEq, Structural)]
pub enum TenantState {
    /// The tenant has not started its runtime.
    Idle,
    /// The tenant runtime is starting.
    Starting,
    /// The tenant runtime is processing work.
    Running,
    /// The tenant runtime is running but control-plane work is suspended.
    Suspended,
    /// The tenant is stopping.
    Stopping,
    /// The tenant runtime has stopped.
    Stopped,
}

impl Default for TenantState {
    fn default() -> (state: Self)
        ensures
            state == TenantState::Idle,
    {
        TenantState::Idle
    }
}

/// Lifecycle commands admitted by the tenant host.
#[derive(Clone, Copy, Debug, Eq, PartialEq, Structural)]
pub enum TenantCommand {
    /// Starts the tenant runtime.
    Start,
    /// Stops the tenant runtime.
    Stop,
    /// Suspends tenant control-plane work.
    Suspend,
    /// Resumes tenant control-plane work.
    Resume,
    /// Destroys a stopped tenant runtime.
    Destroy,
}

/// What the owner of a node has to do before a lifecycle operation is complete.
#[derive(Clone, Copy, Debug, Eq, PartialEq, Structural)]
pub enum NodeAction {
    /// The operation is complete.
    Nothing,
    /// The node has to be started.
    Start,
    /// The node has to be stopped.
    Stop,
}

impl TenantState {
    /// The effect of a request to start: the node action and the next state, or the refusal.
    pub open spec fn start(self) -> Result<(NodeAction, TenantState), TenantError> {
        match self {
            TenantState::Running | TenantState::Suspended => Ok((NodeAction::Nothing, self)),
            TenantState::Starting | TenantState::Stopping => Err(TenantError::Transitioning),
            TenantState::Idle | TenantState::Stopped => Ok(
                (NodeAction::Start, TenantState::Starting),
            ),
        }
    }

    /// The state after the node was asked to start.
    pub open spec fn after_start(succeeded: bool, node_running: bool) -> TenantState {
        if succeeded && node_running {
            TenantState::Running
        } else {
            TenantState::Stopped
        }
    }

    /// The effect of a request to stop, given whether the node is running: the node action and
    /// the next state, or the refusal.
    pub open spec fn stop(self, node_running: bool) -> Result<
        (NodeAction, TenantState),
        TenantError,
    > {
        match self {
            TenantState::Idle | TenantState::Stopped => Ok((NodeAction::Nothing, self)),
            TenantState::Stopping => Err(TenantError::AlreadyStopping),
            TenantState::Starting | TenantState::Running | TenantState::Suspended => if node_running {
                Ok((NodeAction::Stop, TenantState::Stopping))
            } else {
                Ok((NodeAction::Nothing, TenantState::Stopped))
            },
        }
    }

    /// The effect of a request to suspend: the next state or the refusal.
    pub open spec fn suspend(self) -> Result<TenantState, TenantError> {
        match self {
            TenantState::Running | TenantState::Suspended => Ok(TenantState::Suspended),
            _ => Err(TenantError::NotRunning),
        }
    }

    /// The effect of a request to resume: the next state or the refusal.
    pub open spec fn resume(self) -> Result<TenantState, TenantError> {
        match self {
            TenantState::Suspended => Ok(TenantState::Running),
            _ => Err(TenantError::NotSuspended),
        }
    }

    /// Whether a runtime in this state may be destroyed.
    pub open spec fn destroyable(self) -> bool {
        self == TenantState::Idle || self == TenantState::Stopped
    }
}

} // verus!
