//! Laws of tenant registration, access and admission.

use vstd::prelude::*;

use crate::context::{TenantContext, TenantContextView};
use crate::errors::{TenantError, TenantQueueError};
use crate::host::{dispatch_refusal, TenantHost};
use crate::host_invariant::lemma_without;
use crate::host_model::{
    without, TenantEntryView, TenantHandleView, TenantHostView, TenantQueueView,
};
use crate::lifecycle::{TenantCommand, TenantState};
use crate::tenant::TenantEnvelope;

verus! {

impl<N> TenantHostView<N> {
    /// A tenant is the same in both hosts: registered alike or not at all, with the same queue.
    pub open spec fn agrees_on(self, other: Self, tenant_id: Seq<char>) -> bool {
        &&& self.tenants.contains_key(tenant_id) == other.tenants.contains_key(tenant_id)
        &&& self.tenants.contains_key(tenant_id) ==> self.tenants[tenant_id]
            == other.tenants[tenant_id]
        &&& self.queues.contains_key(tenant_id) == other.queues.contains_key(tenant_id)
        &&& self.queues.contains_key(tenant_id) ==> self.queues[tenant_id]
            == other.queues[tenant_id]
        &&& self.destroyed.contains_key(tenant_id) == other.destroyed.contains_key(tenant_id)
        &&& self.destroyed.contains_key(tenant_id) ==> self.destroyed[tenant_id]
            == other.destroyed[tenant_id]
        &&& self.ready.contains(tenant_id) == other.ready.contains(tenant_id)
    }
}

/// The handle that a registration returns gives access to the registered context, and its queue
/// admits commands.
pub proof fn registration_gives_access<N>(
    host: TenantHostView<N>,
    handle: TenantHandleView,
    context: TenantContextView<N>,
    command: TenantCommand,
)
    requires
        host.well_formed(),
        context.limits.error() is None,
    ensures
        host.registered(handle, context).access_error(handle) is None,
        host.registered(handle, context).context(handle) == context,
        context.state != TenantState::Suspended ==> host.registered(handle, context).enqueue_error(
            handle,
            command,
        ) is None,
{
}

/// A tenant identifier is not enough: a handle with another capability than that of the
/// registration is refused by every operation.
pub proof fn capability_is_required<N>(
    host: TenantHostView<N>,
    handle: TenantHandleView,
    command: TenantCommand,
)
    requires
        host.tenants.contains_key(handle.tenant_id),
        host.tenants[handle.tenant_id].handle.capability != handle.capability,
    ensures
        host.access_error(handle) == Some(TenantError::NotAuthorized),
        host.destroy_error(handle) == Some(TenantError::NotAuthorized),
        host.enqueue_error(handle, command) == Some(TenantQueueError::UnknownTenant),
{
}

/// A command is admitted exactly when the handle gives access, the tenant is not suspended or the
/// command resumes it, and its queue is not full.
pub proof fn admission_is_decided_by_access_suspension_and_quota<N>(
    host: TenantHostView<N>,
    handle: TenantHandleView,
    command: TenantCommand,
)
    requires
        host.well_formed(),
    ensures
        host.enqueue_error(handle, command) is None <==> {
            &&& host.access_error(handle) is None
            &&& host.context(handle).state == TenantState::Suspended ==> command
                == TenantCommand::Resume
            &&& host.queues[handle.tenant_id].messages.len() < host.context(
                handle,
            ).limits.max_queue_depth
        },
{
    if host.access_error(handle) is None {
        assert(host.tenants.contains_key(handle.tenant_id));
        assert(host.queue_fits(handle.tenant_id));
    }
}

/// Commands queue in the order of their admission: an admitted command comes after all that were
/// queued before, which keep their places.
pub proof fn admitted_commands_queue_in_order<N>(
    host: TenantHostView<N>,
    handle: TenantHandleView,
    command: TenantCommand,
    correlation_id: Seq<char>,
)
    ensures
        ({
            let before = host.queues[handle.tenant_id].messages;
            let after = host.enqueued(
                handle,
                command,
                correlation_id,
            ).queues[handle.tenant_id].messages;
            &&& after.len() == before.len() + 1
            &&& forall|i: int| 0 <= i < before.len() ==> after[i] == before[i]
            &&& after.last().correlation_id == correlation_id
            &&& after.last().payload == command
        }),
{
}

/// Registering, addressing and destroying one tenant leaves every other tenant as it was.
pub proof fn tenants_are_isolated<N>(
    host: TenantHostView<N>,
    handle: TenantHandleView,
    context: TenantContextView<N>,
    command: TenantCommand,
    correlation_id: Seq<char>,
    other: Seq<char>,
)
    requires
        host.well_formed(),
        other != handle.tenant_id,
    ensures
        host.registered(handle, context).agrees_on(host, other),
        host.with_context(handle.tenant_id, context).agrees_on(host, other),
        host.enqueued(handle, command, correlation_id).agrees_on(host, other),
        host.destroyed_by(handle).agrees_on(host, other),
{
    lemma_without(host.ready, handle.tenant_id);
    let pushed = host.ready.push(handle.tenant_id);
    assert(pushed.contains(other) == host.ready.contains(other)) by {
        if host.ready.contains(other) {
            let i = choose|i: int| 0 <= i < host.ready.len() && host.ready[i] == other;
            assert(pushed[i] == other);
        }
    }
}

/// Destroying a tenant is idempotent: the same handle is granted again, with nothing left to
/// destroy. The tenant's queue is gone and the handle gives no access.
pub proof fn destruction_is_idempotent_and_final<N>(
    host: TenantHostView<N>,
    handle: TenantHandleView,
    command: TenantCommand,
)
    requires
        host.well_formed(),
    ensures
        ({
            let after = host.destroyed_by(handle);
            &&& after.destroy_error(handle) is None
            &&& !after.tenants.contains_key(handle.tenant_id)
            &&& !after.queues.contains_key(handle.tenant_id)
            &&& !after.ready.contains(handle.tenant_id)
            &&& after.access_error(handle) == Some(TenantError::NotRegistered)
            &&& after.enqueue_error(handle, command) == Some(TenantQueueError::UnknownTenant)
        }),
{
    lemma_without(host.ready, handle.tenant_id);
}

/// Only an idle or stopped runtime is destroyed, and only by a handle that gives access to it.
pub proof fn active_runtimes_are_not_destroyed<N>(host: TenantHostView<N>, handle: TenantHandleView)
    requires
        host.tenants.contains_key(handle.tenant_id),
    ensures
        host.destroy_error(handle) is None <==> host.access_error(handle) is None && host.context(
            handle,
        ).state.destroyable(),
{
}

/// Registering a tenant again after its destruction revokes the handle of the earlier
/// registration, which then neither gives access nor counts as destroyed.
pub proof fn registering_again_revokes_the_old_handle<N>(
    host: TenantHostView<N>,
    old_handle: TenantHandleView,
    new_handle: TenantHandleView,
    context: TenantContextView<N>,
)
    requires
        old_handle.tenant_id == new_handle.tenant_id,
        old_handle.capability != new_handle.capability,
    ensures
        ({
            let after = host.destroyed_by(old_handle).registered(new_handle, context);
            &&& after.access_error(new_handle) is None
            &&& after.access_error(old_handle) == Some(TenantError::NotAuthorized)
            &&& after.destroy_error(old_handle) == Some(TenantError::NotAuthorized)
            &&& !after.was_destroyed(old_handle)
        }),
{
}

/// A new host is empty, and dispatches as many commands per cycle as it was told, but at least one.
pub proof fn new_hosts_are_empty<N>(max_dispatch_per_cycle: usize, host: TenantHost<N>)
    requires
        call_ensures(TenantHost::<N>::new, (max_dispatch_per_cycle,), host),
    ensures
        host@.tenants == Map::<Seq<char>, TenantEntryView<N>>::empty(),
        host@.destroyed == Map::<Seq<char>, Seq<char>>::empty(),
        host@.queues == Map::<Seq<char>, TenantQueueView>::empty(),
        host@.ready == Seq::<Seq<char>>::empty(),
        max_dispatch_per_cycle > 0 ==> host@.max_dispatch_per_cycle == max_dispatch_per_cycle,
        max_dispatch_per_cycle == 0 ==> host@.max_dispatch_per_cycle == 1,
{
}

/// A handle gives access exactly when its tenant is registered under its capability. Without the
/// tenant the answer is that it is not registered, with another capability that it is not authorized.
pub proof fn access_takes_the_registered_capability<N>(
    host: TenantHostView<N>,
    handle: TenantHandleView,
)
    ensures
        match host.access_error(handle) {
            None => {
                &&& host.tenants.contains_key(handle.tenant_id)
                &&& host.tenants[handle.tenant_id].handle.capability == handle.capability
            },
            Some(error) => {
                &&& error is NotRegistered || error is NotAuthorized
                &&& error is NotRegistered <==> !host.tenants.contains_key(handle.tenant_id)
                &&& error is NotAuthorized ==> host.tenants[handle.tenant_id].handle.capability
                    != handle.capability
            },
        },
        host.context(handle) == host.tenants[handle.tenant_id].context,
{
}

/// A registration adds its tenant with the given handle and context and an empty queue of the depth
/// that the limits allow, forgets its earlier destruction, and changes nothing else.
pub proof fn registration_adds_one_tenant<N>(
    host: TenantHostView<N>,
    handle: TenantHandleView,
    context: TenantContextView<N>,
)
    ensures
        ({
            let after = host.registered(handle, context);
            let tenant_id = handle.tenant_id;
            &&& after.tenants.contains_key(tenant_id)
            &&& after.tenants[tenant_id].handle.tenant_id == handle.tenant_id
            &&& after.tenants[tenant_id].handle.capability == handle.capability
            &&& after.tenants[tenant_id].context == context
            &&& after.queues.contains_key(tenant_id)
            &&& after.queues[tenant_id].messages.len() == 0
            &&& after.queues[tenant_id].max_depth == context.limits.max_queue_depth
            &&& !after.destroyed.contains_key(tenant_id)
            &&& after.tenants.remove(tenant_id) == host.tenants.remove(tenant_id)
            &&& after.queues.remove(tenant_id) == host.queues.remove(tenant_id)
            &&& after.destroyed == host.destroyed.remove(tenant_id)
            &&& after.ready == host.ready
            &&& after.max_dispatch_per_cycle == host.max_dispatch_per_cycle
        }),
{
    let after = host.registered(handle, context);
    let tenant_id = handle.tenant_id;
    assert(after.tenants.remove(tenant_id) =~= host.tenants.remove(tenant_id));
    assert(after.queues.remove(tenant_id) =~= host.queues.remove(tenant_id));
}

/// A change of a tenant's context changes nothing but that context, and a change of its state nothing
/// but that state.
pub proof fn context_changes_stay_in_the_context<N>(
    host: TenantHostView<N>,
    tenant_id: Seq<char>,
    context: TenantContextView<N>,
    state: TenantState,
)
    requires
        host.tenants.contains_key(tenant_id),
    ensures
        ({
            let after = host.with_context(tenant_id, context);
            &&& after.tenants.contains_key(tenant_id)
            &&& after.tenants[tenant_id].context == context
            &&& after.tenants[tenant_id].handle == host.tenants[tenant_id].handle
            &&& after.tenants.remove(tenant_id) == host.tenants.remove(tenant_id)
            &&& after.queues == host.queues
            &&& after.destroyed == host.destroyed
            &&& after.ready == host.ready
            &&& after.max_dispatch_per_cycle == host.max_dispatch_per_cycle
        }),
        ({
            let after = host.in_state(tenant_id, state);
            let before = host.tenants[tenant_id].context;
            let moved = after.tenants[tenant_id].context;
            &&& after.tenants.contains_key(tenant_id)
            &&& moved.state == state
            &&& moved.tenant_id == before.tenant_id
            &&& moved.broker_accounts == before.broker_accounts
            &&& moved.limits == before.limits
            &&& moved.runtime_instance_id == before.runtime_instance_id
            &&& moved.node == before.node
            &&& after.tenants[tenant_id].handle == host.tenants[tenant_id].handle
            &&& after.tenants.remove(tenant_id) == host.tenants.remove(tenant_id)
            &&& after.queues == host.queues
            &&& after.destroyed == host.destroyed
            &&& after.ready == host.ready
            &&& after.max_dispatch_per_cycle == host.max_dispatch_per_cycle
        }),
{
    assert(host.with_context(tenant_id, context).tenants.remove(tenant_id)
        =~= host.tenants.remove(tenant_id));
    assert(host.in_state(tenant_id, state).tenants.remove(tenant_id) =~= host.tenants.remove(
        tenant_id,
    ));
}

/// A command is refused as one for an unknown tenant when its handle does not carry the registered
/// capability, then for a suspension unless it resumes the tenant, then for a full queue, and
/// admitted otherwise.
pub proof fn commands_are_refused_for_capability_suspension_and_depth<N>(
    host: TenantHostView<N>,
    handle: TenantHandleView,
    command: TenantCommand,
)
    ensures
        ({
            let tenant_id = handle.tenant_id;
            let known = host.tenants.contains_key(tenant_id)
                && host.tenants[tenant_id].handle.capability == handle.capability;
            let barred = host.tenants[tenant_id].context.state == TenantState::Suspended && command
                != TenantCommand::Resume;
            let room = host.queues[tenant_id].messages.len() < host.queues[tenant_id].max_depth;
            match host.enqueue_error(handle, command) {
                None => known && !barred && room,
                Some(TenantQueueError::UnknownTenant) => !known,
                Some(TenantQueueError::Suspended) => known && barred,
                Some(TenantQueueError::QueueFull) => known && !barred && !room,
            }
        }),
{
}

/// An admitted command joins the end of its tenant's queue with the scope of the tenant's context,
/// its correlation identifier and its payload. Its tenant joins the end of those to be served exactly
/// when its queue was empty. Nothing else changes.
pub proof fn admission_adds_one_command<N>(
    host: TenantHostView<N>,
    handle: TenantHandleView,
    command: TenantCommand,
    correlation_id: Seq<char>,
)
    requires
        host.queues.contains_key(handle.tenant_id),
    ensures
        ({
            let after = host.enqueued(handle, command, correlation_id);
            let tenant_id = handle.tenant_id;
            let before_messages = host.queues[tenant_id].messages;
            let messages = after.queues[tenant_id].messages;
            let context = host.tenants[tenant_id].context;
            &&& after.queues.contains_key(tenant_id)
            &&& messages.len() == before_messages.len() + 1
            &&& messages.drop_last() == before_messages
            &&& messages.last().tenant_id == context.tenant_id
            &&& messages.last().runtime_instance_id == context.runtime_instance_id
            &&& messages.last().correlation_id == correlation_id
            &&& messages.last().payload == command
            &&& after.queues[tenant_id].max_depth == host.queues[tenant_id].max_depth
            &&& before_messages.len() == 0 ==> after.ready == host.ready.push(tenant_id)
            &&& before_messages.len() > 0 ==> after.ready == host.ready
            &&& after.queues.remove(tenant_id) == host.queues.remove(tenant_id)
            &&& after.tenants == host.tenants
            &&& after.destroyed == host.destroyed
            &&& after.max_dispatch_per_cycle == host.max_dispatch_per_cycle
        }),
{
    let after = host.enqueued(handle, command, correlation_id);
    let tenant_id = handle.tenant_id;
    assert(after.queues.remove(tenant_id) =~= host.queues.remove(tenant_id));
    assert(after.queues[tenant_id].messages.drop_last() =~= host.queues[tenant_id].messages);
}

/// Taking the next command takes the oldest one of the tenant that is first among those to be served.
/// That tenant goes to their end if it has more commands, and leaves them otherwise. Nothing else
/// changes.
pub proof fn taking_a_command_rotates_the_tenants<N>(host: TenantHostView<N>)
    requires
        host.well_formed(),
        host.ready.len() > 0,
    ensures
        ({
            let tenant_id = host.ready[0];
            let after = host.popped();
            let messages = host.queues[tenant_id].messages;
            &&& host.next_tenant() == tenant_id
            &&& host.next_command() == messages[0]
            &&& messages.len() > 0
            &&& after.queues.contains_key(tenant_id)
            &&& after.queues[tenant_id].messages == messages.skip(1)
            &&& after.queues[tenant_id].max_depth == host.queues[tenant_id].max_depth
            &&& messages.len() > 1 ==> after.ready == host.ready.skip(1).push(tenant_id)
            &&& messages.len() == 1 ==> after.ready == host.ready.skip(1)
            &&& after.queues.remove(tenant_id) == host.queues.remove(tenant_id)
            &&& after.tenants == host.tenants
            &&& after.destroyed == host.destroyed
            &&& after.max_dispatch_per_cycle == host.max_dispatch_per_cycle
        }),
{
    let tenant_id = host.ready[0];
    let after = host.popped();
    let messages = host.queues[tenant_id].messages;
    assert(host.ready.contains(tenant_id));
    assert(after.queues.remove(tenant_id) =~= host.queues.remove(tenant_id));
    assert(messages.drop_first() =~= messages.skip(1));
    assert(host.ready.drop_first() =~= host.ready.skip(1));
}

/// A destruction is granted to the registered capability of an idle or stopped tenant, and to the
/// capability with which an unregistered tenant was destroyed. An unknown tenant is reported as not
/// registered, another capability as not authorized, and any other state as still active.
pub proof fn destruction_is_granted_to_inactive_tenants<N>(
    host: TenantHostView<N>,
    handle: TenantHandleView,
)
    ensures
        ({
            let tenant_id = handle.tenant_id;
            let registered = host.tenants.contains_key(tenant_id);
            let authorized = host.tenants[tenant_id].handle.capability == handle.capability;
            let state = host.tenants[tenant_id].context.state;
            let inactive = state == TenantState::Idle || state == TenantState::Stopped;
            let repeated = host.destroyed.contains_key(tenant_id) && host.destroyed[tenant_id]
                == handle.capability;
            match host.destroy_error(handle) {
                None => if registered {
                    authorized && inactive
                } else {
                    repeated
                },
                Some(error) => {
                    &&& error is NotRegistered || error is NotAuthorized || error is StillActive
                    &&& error is NotRegistered <==> !registered
                    &&& error is NotRegistered ==> !repeated
                    &&& error is NotAuthorized <==> registered && !authorized
                    &&& error is StillActive ==> !inactive
                },
            }
        }),
{
}

/// A destruction removes its tenant, the queue and the turn of the tenant, remembers the capability,
/// and changes nothing else. The other tenants to be served keep their order.
pub proof fn destruction_removes_one_tenant<N>(
    host: TenantHostView<N>,
    handle: TenantHandleView,
    turn: int,
)
    requires
        host.ready.no_duplicates(),
    ensures
        ({
            let after = host.destroyed_by(handle);
            let tenant_id = handle.tenant_id;
            &&& after.tenants == host.tenants.remove(tenant_id)
            &&& after.queues == host.queues.remove(tenant_id)
            &&& after.destroyed == host.destroyed.insert(tenant_id, handle.capability)
            &&& !host.ready.contains(tenant_id) ==> after.ready == host.ready
            &&& 0 <= turn < host.ready.len() && host.ready[turn] == tenant_id ==> after.ready
                == host.ready.remove(turn)
            &&& after.max_dispatch_per_cycle == host.max_dispatch_per_cycle
        }),
{
    let tenant_id = handle.tenant_id;
    lemma_without(host.ready, tenant_id);
    if 0 <= turn < host.ready.len() && host.ready[turn] == tenant_id {
        lemma_without_one(host.ready, turn);
    }
}

proof fn lemma_without_one(tenants: Seq<Seq<char>>, turn: int)
    requires
        tenants.no_duplicates(),
        0 <= turn < tenants.len(),
    ensures
        without(tenants, tenants[turn]) == tenants.remove(turn),
    decreases tenants.len(),
{
    reveal(Seq::filter);
    let front = tenants.drop_last();
    let tenant_id = tenants[turn];
    if turn == tenants.len() - 1 {
        assert(!front.contains(tenant_id));
        lemma_without(front, tenant_id);
        assert(tenants.remove(turn) =~= front);
    } else {
        lemma_without_one(front, turn);
        assert(tenants.remove(turn) =~= front.remove(turn).push(tenants.last()));
    }
}

/// A queued command is refused when its tenant is gone, or when it carries another tenant or another
/// runtime than the context, and dispatched otherwise.
pub proof fn refusals_name_the_wrong_scope<N>(
    context: Option<&TenantContext<N>>,
    envelope: &TenantEnvelope<TenantCommand>,
    refusal: Option<String>,
)
    requires
        call_ensures(dispatch_refusal::<N>, (context, envelope), refusal),
    ensures
        refusal is None <==> context is Some && context->0@.tenant_id == envelope.tenant_id@
            && context->0@.runtime_instance_id == envelope.runtime_instance_id@,
        context is None ==> refusal is Some && refusal->0@ == "tenant was removed before dispatch"@,
        context matches Some(context) && context@.tenant_id != envelope.tenant_id@ ==> refusal->0@
            == "tenant envelope does not belong to the target tenant"@,
        context matches Some(context) && context@.tenant_id == envelope.tenant_id@
            && context@.runtime_instance_id != envelope.runtime_instance_id@ ==> refusal->0@
            == "tenant envelope does not belong to the target runtime instance"@,
{
}

} // verus!
