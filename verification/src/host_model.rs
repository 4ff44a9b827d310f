//! The mathematical model of a tenant host.

use vstd::prelude::*;

use crate::context::TenantContextView;
use crate::errors::{TenantError, TenantQueueError};
use crate::lifecycle::{TenantCommand, TenantState};
use crate::tenant::TenantEnvelopeView;

verus! {

/// What a tenant handle stands for: a tenant and the capability to operate on it.
pub ghost struct TenantHandleView {
    pub tenant_id: Seq<char>,
    pub capability: Seq<char>,
}

/// A registered tenant.
pub ghost struct TenantEntryView<N> {
    pub handle: TenantHandleView,
    pub context: TenantContextView<N>,
}

/// The bounded command queue of a tenant, oldest command first.
pub ghost struct TenantQueueView {
    pub max_depth: nat,
    pub messages: Seq<TenantEnvelopeView<TenantCommand>>,
}

/// A tenant host.
pub ghost struct TenantHostView<N> {
    /// The registered tenants.
    pub tenants: Map<Seq<char>, TenantEntryView<N>>,
    /// The last capability of each destroyed tenant that was not registered again.
    pub destroyed: Map<Seq<char>, Seq<char>>,
    /// The command queue of each registered tenant.
    pub queues: Map<Seq<char>, TenantQueueView>,
    /// The tenants with queued commands, in the order in which they are served.
    pub ready: Seq<Seq<char>>,
    /// The number of commands dispatched per scheduling cycle.
    pub max_dispatch_per_cycle: nat,
}

/// A sequence of tenants without the given one.
pub open spec fn without(tenants: Seq<Seq<char>>, tenant_id: Seq<char>) -> Seq<Seq<char>> {
    tenants.filter(|other: Seq<char>| other != tenant_id)
}

impl<N> TenantHostView<N> {
    /// The queue of a tenant belongs to its context: it is bounded by the tenant's quota and every
    /// command in it carries the tenant's own scope.
    pub open spec fn queue_fits(self, tenant_id: Seq<char>) -> bool {
        let queue = self.queues[tenant_id];
        let context = self.tenants[tenant_id].context;
        &&& queue.max_depth == context.limits.max_queue_depth
        &&& queue.messages.len() <= queue.max_depth
        &&& forall|i: int|
            0 <= i < queue.messages.len() ==> (#[trigger] queue.messages[i]).tenant_id == tenant_id
                && queue.messages[i].runtime_instance_id == context.runtime_instance_id
    }

    /// What holds of every host, whatever was asked of it.
    pub open spec fn well_formed(self) -> bool {
        &&& self.max_dispatch_per_cycle > 0
        &&& self.tenants.dom() =~= self.queues.dom()
        &&& forall|tenant_id: Seq<char>| #[trigger]
            self.tenants.contains_key(tenant_id) ==> {
                &&& self.tenants[tenant_id].handle.tenant_id == tenant_id
                &&& self.tenants[tenant_id].context.tenant_id == tenant_id
                &&& self.tenants[tenant_id].context.limits.error() is None
                &&& self.queue_fits(tenant_id)
                &&& !self.destroyed.contains_key(tenant_id)
            }
        &&& self.ready.no_duplicates()
        &&& forall|tenant_id: Seq<char>| #[trigger]
            self.ready.contains(tenant_id) <==> self.queues.contains_key(tenant_id)
                && self.queues[tenant_id].messages.len() > 0
    }

    /// A host without tenants.
    pub open spec fn empty(max_dispatch_per_cycle: nat) -> Self {
        TenantHostView {
            tenants: Map::empty(),
            destroyed: Map::empty(),
            queues: Map::empty(),
            ready: Seq::empty(),
            max_dispatch_per_cycle,
        }
    }

    /// The host after a tenant was registered under the given handle.
    pub open spec fn registered(
        self,
        handle: TenantHandleView,
        context: TenantContextView<N>,
    ) -> Self {
        TenantHostView {
            tenants: self.tenants.insert(handle.tenant_id, TenantEntryView { handle, context }),
            destroyed: self.destroyed.remove(handle.tenant_id),
            queues: self.queues.insert(
                handle.tenant_id,
                TenantQueueView {
                    max_depth: context.limits.max_queue_depth as nat,
                    messages: Seq::empty(),
                },
            ),
            ..self
        }
    }

    /// Why a handle gives no access to a tenant, if it gives none.
    pub open spec fn access_error(self, handle: TenantHandleView) -> Option<TenantError> {
        if !self.tenants.contains_key(handle.tenant_id) {
            Some(TenantError::NotRegistered)
        } else if self.tenants[handle.tenant_id].handle.capability != handle.capability {
            Some(TenantError::NotAuthorized)
        } else {
            None
        }
    }

    /// The context that a handle gives access to.
    pub open spec fn context(self, handle: TenantHandleView) -> TenantContextView<N> {
        self.tenants[handle.tenant_id].context
    }

    /// The host with another context for a registered tenant.
    pub open spec fn with_context(
        self,
        tenant_id: Seq<char>,
        context: TenantContextView<N>,
    ) -> Self {
        TenantHostView {
            tenants: self.tenants.insert(
                tenant_id,
                TenantEntryView { handle: self.tenants[tenant_id].handle, context },
            ),
            ..self
        }
    }

    /// The host with a registered tenant in another lifecycle state.
    pub open spec fn in_state(self, tenant_id: Seq<char>, state: TenantState) -> Self {
        self.with_context(tenant_id, self.tenants[tenant_id].context.in_state(state))
    }

    /// Why a command is not admitted, if it is not.
    pub open spec fn enqueue_error(
        self,
        handle: TenantHandleView,
        command: TenantCommand,
    ) -> Option<TenantQueueError> {
        if self.access_error(handle) is Some {
            Some(TenantQueueError::UnknownTenant)
        } else if self.context(handle).state == TenantState::Suspended && command
            != TenantCommand::Resume {
            Some(TenantQueueError::Suspended)
        } else if self.queues[handle.tenant_id].messages.len()
            >= self.queues[handle.tenant_id].max_depth {
            Some(TenantQueueError::QueueFull)
        } else {
            None
        }
    }

    /// The envelope of an admitted command.
    pub open spec fn command_envelope(
        self,
        handle: TenantHandleView,
        command: TenantCommand,
        correlation_id: Seq<char>,
    ) -> TenantEnvelopeView<TenantCommand> {
        TenantEnvelopeView {
            tenant_id: self.context(handle).tenant_id,
            runtime_instance_id: self.context(handle).runtime_instance_id,
            correlation_id,
            payload: command,
        }
    }

    /// The host after a command was admitted. A tenant whose queue was empty joins the tenants to
    /// be served at the end.
    pub open spec fn enqueued(
        self,
        handle: TenantHandleView,
        command: TenantCommand,
        correlation_id: Seq<char>,
    ) -> Self {
        let queue = self.queues[handle.tenant_id];
        let envelope = self.command_envelope(handle, command, correlation_id);
        TenantHostView {
            queues: self.queues.insert(
                handle.tenant_id,
                TenantQueueView { messages: queue.messages.push(envelope), ..queue },
            ),
            ready: if queue.messages.len() == 0 {
                self.ready.push(handle.tenant_id)
            } else {
                self.ready
            },
            ..self
        }
    }

    /// The tenant to be served next.
    pub open spec fn next_tenant(self) -> Seq<char> {
        self.ready[0]
    }

    /// The command to be dispatched next: the oldest one of the tenant to be served next.
    pub open spec fn next_command(self) -> TenantEnvelopeView<TenantCommand> {
        self.queues[self.ready[0]].messages[0]
    }

    /// The host after the next command was taken from its queue. Its tenant goes to the end of
    /// the tenants to be served if it has more commands, and leaves them otherwise.
    pub open spec fn popped(self) -> Self {
        let tenant_id = self.ready[0];
        let queue = self.queues[tenant_id];
        let messages = queue.messages.drop_first();
        TenantHostView {
            queues: self.queues.insert(tenant_id, TenantQueueView { messages, ..queue }),
            ready: if messages.len() > 0 {
                self.ready.drop_first().push(tenant_id)
            } else {
                self.ready.drop_first()
            },
            ..self
        }
    }

    /// Why a tenant is not destroyed, if it is not.
    pub open spec fn destroy_error(self, handle: TenantHandleView) -> Option<TenantError> {
        if !self.tenants.contains_key(handle.tenant_id) {
            if self.was_destroyed(handle) {
                None
            } else {
                Some(TenantError::NotRegistered)
            }
        } else if self.tenants[handle.tenant_id].handle.capability != handle.capability {
            Some(TenantError::NotAuthorized)
        } else if !self.context(handle).state.destroyable() {
            Some(TenantError::StillActive)
        } else {
            None
        }
    }

    /// Whether the tenant was destroyed with this handle and not registered since.
    pub open spec fn was_destroyed(self, handle: TenantHandleView) -> bool {
        self.destroyed.contains_key(handle.tenant_id) && self.destroyed[handle.tenant_id]
            == handle.capability
    }

    /// The host after a registered tenant was destroyed.
    pub open spec fn destroyed_by(self, handle: TenantHandleView) -> Self {
        TenantHostView {
            tenants: self.tenants.remove(handle.tenant_id),
            destroyed: self.destroyed.insert(handle.tenant_id, handle.capability),
            queues: self.queues.remove(handle.tenant_id),
            ready: without(self.ready, handle.tenant_id),
            ..self
        }
    }
}

} // verus!
