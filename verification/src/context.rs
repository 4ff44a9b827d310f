//! Tenant-owned runtime contexts.

use vstd::prelude::*;

use crate::errors::TenantError;
use crate::identifiers::{is_uuid4_text, AccountId, UUID4};
use crate::lifecycle::{NodeAction, TenantState};
use crate::limits::TenantLimits;
use crate::tenant::{TenantEnvelope, TenantId, TenantNamespace, TenantNamespaceView};

verus! {

/// What a [`TenantContext`] stands for.
pub ghost struct TenantContextView<N> {
    pub tenant_id: Seq<char>,
    pub broker_accounts: Seq<Seq<char>>,
    pub limits: TenantLimits,
    pub state: TenantState,
    pub runtime_instance_id: Seq<char>,
    pub node: N,
}

impl<N> TenantContextView<N> {
    /// The durable namespace of the broker account with the given position.
    pub open spec fn namespace(self, position: int) -> TenantNamespaceView {
        TenantNamespaceView {
            tenant_id: self.tenant_id,
            account_id: self.broker_accounts[position],
            runtime_instance_id: self.runtime_instance_id,
        }
    }

    /// The same context with another node.
    pub open spec fn with_node(self, node: N) -> Self {
        TenantContextView { node, ..self }
    }

    /// The same context in another lifecycle state.
    pub open spec fn in_state(self, state: TenantState) -> Self {
        TenantContextView { state, ..self }
    }
}

/// The texts of a sequence of account identifiers.
pub open spec fn account_texts(accounts: Seq<AccountId>) -> Seq<Seq<char>> {
    accounts.map_values(|account: AccountId| account@)
}

/// What stays the same over the life of a context.
#[derive(Debug)]
struct TenantProfile {
    tenant_id: TenantId,
    namespaces: Vec<TenantNamespace>,
    broker_accounts: Vec<AccountId>,
    limits: TenantLimits,
    runtime_instance_id: UUID4,
}

impl TenantProfile {
    #[verifier::type_invariant]
    spec fn well_formed(self) -> bool {
        &&& self.broker_accounts@.len() > 0
        &&& self.limits.error() is None
        &&& self.namespaces@.len() == self.broker_accounts@.len()
        &&& forall|i: int|
            0 <= i < self.namespaces@.len() ==> (#[trigger] self.namespaces@[i])@ == (
            TenantNamespaceView {
                tenant_id: self.tenant_id@,
                account_id: self.broker_accounts@[i]@,
                runtime_instance_id: self.runtime_instance_id@,
            })
    }
}

/// A tenant-owned runtime context.
///
/// The context keeps the tenant's node together with its identity, so that they cannot be
/// selected independently by a caller. The node itself is opaque: operations that start, stop or
/// dispose of it say so, and its owner reports back how that went.
#[derive(Debug)]
pub struct TenantContext<N> {
    profile: TenantProfile,
    state: TenantState,
    node: N,
}

impl<N> View for TenantContext<N> {
    type V = TenantContextView<N>;

    closed spec fn view(&self) -> TenantContextView<N> {
        TenantContextView {
            tenant_id: self.profile.tenant_id@,
            broker_accounts: account_texts(self.profile.broker_accounts@),
            limits: self.profile.limits,
            state: self.state,
            runtime_instance_id: self.profile.runtime_instance_id@,
            node: self.node,
        }
    }
}

impl<N> TenantContext<N> {
    /// Creates a context around a node.
    ///
    /// The node must already be configured for the tenant's broker accounts, and
    /// `runtime_instance_id` is the identifier of its runtime instance.
    pub fn from_live_node(
        tenant_id: TenantId,
        node: N,
        runtime_instance_id: UUID4,
        broker_accounts: Vec<AccountId>,
        limits: TenantLimits,
    ) -> (result: Result<Self, TenantError>)
        ensures
            match result {
                Ok(context) => {
                    &&& broker_accounts@.len() > 0
                    &&& limits.error() is None
                    &&& context@ == (TenantContextView {
                        tenant_id: tenant_id@,
                        broker_accounts: account_texts(broker_accounts@),
                        limits,
                        state: TenantState::Idle,
                        runtime_instance_id: runtime_instance_id@,
                        node,
                    })
                },
                Err(error) => if broker_accounts@.len() == 0 {
                    error == TenantError::NoBrokerAccount
                } else {
                    limits.error() == Some(error)
                },
            },
    {
        if broker_accounts.len() == 0 {
            return Err(TenantError::NoBrokerAccount);
        }
        match limits.validate() {
            Err(error) => return Err(error),
            Ok(()) => {},
        }
        let mut namespaces: Vec<TenantNamespace> = Vec::new();
        let mut i: usize = 0;
        while i < broker_accounts.len()
            invariant
                i <= broker_accounts@.len(),
                namespaces@.len() == i,
                forall|j: int|
                    0 <= j < i ==> (#[trigger] namespaces@[j])@ == (TenantNamespaceView {
                        tenant_id: tenant_id@,
                        account_id: broker_accounts@[j]@,
                        runtime_instance_id: runtime_instance_id@,
                    }),
            decreases broker_accounts@.len() - i,
        {
            namespaces.push(
                TenantNamespace::new(
                    tenant_id.clone(),
                    broker_accounts[i].clone(),
                    runtime_instance_id,
                ),
            );
            i += 1;
        }
        let profile = TenantProfile {
            tenant_id,
            namespaces,
            broker_accounts,
            limits,
            runtime_instance_id,
        };
        Ok(TenantContext { profile, state: TenantState::Idle, node })
    }

    /// Returns the tenant identity.
    #[must_use]
    pub fn tenant_id(&self) -> (tenant_id: &TenantId)
        ensures
            tenant_id@ == self@.tenant_id,
    {
        &self.profile.tenant_id
    }

    /// Returns the durable namespace for the first configured broker account.
    #[must_use]
    pub fn namespace(&self) -> (namespace: &TenantNamespace)
        ensures
            namespace@ == self@.namespace(0),
            self@.broker_accounts.len() > 0,
    {
        proof {
            use_type_invariant(&self.profile);
        }
        &self.profile.namespaces[0]
    }

    /// Returns the durable namespace for every configured broker account.
    #[must_use]
    pub fn namespaces(&self) -> (namespaces: &[TenantNamespace])
        ensures
            namespaces@.len() == self@.broker_accounts.len(),
            forall|i: int|
                0 <= i < namespaces@.len() ==> (#[trigger] namespaces@[i])@ == self@.namespace(i),
    {
        proof {
            use_type_invariant(&self.profile);
        }
        self.profile.namespaces.as_slice()
    }

    /// Returns all broker accounts owned by this tenant.
    #[must_use]
    pub fn broker_accounts(&self) -> (accounts: &[AccountId])
        ensures
            account_texts(accounts@) == self@.broker_accounts,
    {
        self.profile.broker_accounts.as_slice()
    }

    /// Returns the configured tenant limits.
    #[must_use]
    pub fn limits(&self) -> (limits: &TenantLimits)
        ensures
            *limits == self@.limits,
            limits.error() is None,
    {
        proof {
            use_type_invariant(&self.profile);
        }
        &self.profile.limits
    }

    /// Returns the current lifecycle state.
    #[must_use]
    pub fn state(&self) -> (state: TenantState)
        ensures
            state == self@.state,
    {
        self.state
    }

    /// Returns the runtime instance identifier.
    #[must_use]
    pub fn runtime_instance_id(&self) -> (id: UUID4)
        ensures
            id@ == self@.runtime_instance_id,
    {
        self.profile.runtime_instance_id
    }

    /// Returns the node.
    pub fn node(&self) -> (node: &N)
        ensures
            *node == self@.node,
    {
        &self.node
    }

    /// Returns the node for its owner to operate on.
    pub fn node_mut(&mut self) -> (node: &mut N)
        ensures
            *node == old(self)@.node,
            final(self)@ == old(self)@.with_node(*final(node)),
    {
        &mut self.node
    }

    /// Wraps an application payload in this context's authenticated tenant scope.
    #[must_use]
    pub fn envelope<T>(&self, payload: T) -> (envelope: TenantEnvelope<T>)
        ensures
            envelope@.tenant_id == self@.tenant_id,
            envelope@.runtime_instance_id == self@.runtime_instance_id,
            is_uuid4_text(envelope@.correlation_id),
            call_ensures(UUID4::new, (), envelope.correlation_id),
            envelope@.payload == payload,
    {
        TenantEnvelope::new(self.profile.tenant_id.clone(), self.profile.runtime_instance_id, payload)
    }

    /// Begins to start this tenant runtime. Repeated starts are idempotent.
    pub fn start(&mut self) -> (result: Result<NodeAction, TenantError>)
        ensures
            match result {
                Ok(action) => {
                    &&& old(self)@.state.start() matches Ok((expected, state))
                    &&& action == expected
                    &&& final(self)@ == old(self)@.in_state(state)
                },
                Err(error) => {
                    &&& old(self)@.state.start() == Err::<(NodeAction, TenantState), _>(error)
                    &&& final(self)@ == old(self)@
                },
            },
    {
        match self.state {
            TenantState::Running | TenantState::Suspended => Ok(NodeAction::Nothing),
            TenantState::Starting | TenantState::Stopping => Err(TenantError::Transitioning),
            TenantState::Idle | TenantState::Stopped => {
                self.state = TenantState::Starting;
                Ok(NodeAction::Start)
            },
        }
    }

    /// Completes a start with the node's answer, which is also the answer to the start.
    pub fn finish_start(&mut self, result: Result<(), String>, node_running: bool) -> (answer: Result<
        (),
        String,
    >)
        requires
            old(self)@.state == TenantState::Starting,
        ensures
            final(self)@ == old(self)@.in_state(TenantState::after_start(result is Ok, node_running)),
            answer == result,
    {
        if result.is_ok() && node_running {
            self.state = TenantState::Running;
        } else {
            self.state = TenantState::Stopped;
        }
        result
    }

    /// Begins to stop this tenant runtime, given whether its node is running. Repeated stops are
    /// idempotent.
    pub fn stop(&mut self, node_running: bool) -> (result: Result<NodeAction, TenantError>)
        ensures
            match result {
                Ok(action) => {
                    &&& old(self)@.state.stop(node_running) matches Ok((expected, state))
                    &&& action == expected
                    &&& final(self)@ == old(self)@.in_state(state)
                },
                Err(error) => {
                    &&& old(self)@.state.stop(node_running) == Err::<(NodeAction, TenantState), _>(
                        error,
                    )
                    &&& final(self)@ == old(self)@
                },
            },
    {
        match self.state {
            TenantState::Idle | TenantState::Stopped => Ok(NodeAction::Nothing),
            TenantState::Stopping => Err(TenantError::AlreadyStopping),
            TenantState::Starting | TenantState::Running | TenantState::Suspended => {
                if node_running {
                    self.state = TenantState::Stopping;
                    Ok(NodeAction::Stop)
                } else {
                    self.state = TenantState::Stopped;
                    Ok(NodeAction::Nothing)
                }
            },
        }
    }

    /// Completes a stop with the node's answer, which is also the answer to the stop.
    pub fn finish_stop(&mut self, result: Result<(), String>) -> (answer: Result<(), String>)
        requires
            old(self)@.state == TenantState::Stopping,
        ensures
            final(self)@ == old(self)@.in_state(TenantState::Stopped),
            answer == result,
    {
        self.state = TenantState::Stopped;
        result
    }

    /// Suspends control-plane work while retaining the tenant runtime and state.
    pub fn suspend(&mut self) -> (result: Result<(), TenantError>)
        ensures
            match result {
                Ok(()) => {
                    &&& old(self)@.state.suspend() matches Ok(state)
                    &&& final(self)@ == old(self)@.in_state(state)
                },
                Err(error) => {
                    &&& old(self)@.state.suspend() == Err::<TenantState, _>(error)
                    &&& final(self)@ == old(self)@
                },
            },
    {
        if self.state == TenantState::Suspended {
            return Ok(());
        }
        if self.state != TenantState::Running {
            return Err(TenantError::NotRunning);
        }
        self.state = TenantState::Suspended;
        Ok(())
    }

    /// Resumes control-plane work for a suspended tenant.
    pub fn resume(&mut self) -> (result: Result<(), TenantError>)
        ensures
            match result {
                Ok(()) => {
                    &&& old(self)@.state.resume() matches Ok(state)
                    &&& final(self)@ == old(self)@.in_state(state)
                },
                Err(error) => {
                    &&& old(self)@.state.resume() == Err::<TenantState, _>(error)
                    &&& final(self)@ == old(self)@
                },
            },
    {
        if self.state != TenantState::Suspended {
            return Err(TenantError::NotSuspended);
        }
        self.state = TenantState::Running;
        Ok(())
    }

    /// Marks the runtime as stopped, for the owner of its node to dispose of the node.
    pub fn dispose(&mut self)
        ensures
            final(self)@ == old(self)@.in_state(TenantState::Stopped),
    {
        self.state = TenantState::Stopped;
    }
}

} // verus!
