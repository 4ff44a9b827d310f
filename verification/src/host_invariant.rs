//! Every host operation keeps the invariant of the host.

use vstd::prelude::*;

use crate::context::TenantContextView;
use crate::host_model::{without, TenantHandleView, TenantHostView};
use crate::lifecycle::TenantCommand;

verus! {

/// Leaving a tenant out of a sequence removes it and nothing else, and brings in no repetition.
pub proof fn lemma_without(tenants: Seq<Seq<char>>, tenant_id: Seq<char>)
    requires
        tenants.no_duplicates(),
    ensures
        without(tenants, tenant_id).no_duplicates(),
        forall|other: Seq<char>| #[trigger]
            without(tenants, tenant_id).contains(other) <==> tenants.contains(other) && other
                != tenant_id,
        !tenants.contains(tenant_id) ==> without(tenants, tenant_id) == tenants,
    decreases tenants.len(),
{
    reveal(Seq::filter);
    let kept = without(tenants, tenant_id);
    if tenants.len() > 0 {
        let front = tenants.drop_last();
        let last = tenants.last();
        lemma_without(front, tenant_id);
        assert(kept == if last != tenant_id {
            without(front, tenant_id).push(last)
        } else {
            without(front, tenant_id)
        });
        assert(!front.contains(last));
        assert(tenants =~= front.push(last));
        assert forall|other: Seq<char>| #[trigger]
            kept.contains(other) <==> tenants.contains(other) && other != tenant_id by {
            assert(tenants.contains(other) <==> front.contains(other) || other == last) by {
                if front.contains(other) {
                    let i = choose|i: int| 0 <= i < front.len() && front[i] == other;
                    assert(tenants[i] == other);
                }
                if other == last {
                    assert(tenants[tenants.len() - 1] == other);
                }
            }
            if last != tenant_id {
                let rest = without(front, tenant_id);
                assert(kept.contains(other) <==> rest.contains(other) || other == last) by {
                    if rest.contains(other) {
                        let i = choose|i: int| 0 <= i < rest.len() && rest[i] == other;
                        assert(kept[i] == other);
                    }
                    if other == last {
                        assert(kept[rest.len() as int] == other);
                    }
                }
            }
        }
        if last != tenant_id {
            let rest = without(front, tenant_id);
            assert(!rest.contains(last));
            assert forall|i: int, j: int| 0 <= i < kept.len() && 0 <= j < kept.len() && i != j implies kept[i]
                != kept[j] by {
                if i < rest.len() {
                    assert(rest.contains(rest[i]));
                }
                if j < rest.len() {
                    assert(rest.contains(rest[j]));
                }
            }
        }
        if !tenants.contains(tenant_id) {
            assert(tenants[tenants.len() - 1] == last);
            assert(!front.contains(tenant_id)) by {
                if front.contains(tenant_id) {
                    let i = choose|i: int| 0 <= i < front.len() && front[i] == tenant_id;
                    assert(tenants[i] == tenant_id);
                }
            }
            assert(kept =~= tenants);
        }
    } else {
        assert(kept =~= tenants);
    }
}

/// Registering a tenant that is not registered keeps the invariant.
pub proof fn registering_keeps_the_invariant<N>(
    host: TenantHostView<N>,
    handle: TenantHandleView,
    context: TenantContextView<N>,
)
    requires
        host.well_formed(),
        !host.tenants.contains_key(handle.tenant_id),
        handle.tenant_id == context.tenant_id,
        context.limits.error() is None,
    ensures
        host.registered(handle, context).well_formed(),
{
    let after = host.registered(handle, context);
    assert forall|tenant_id: Seq<char>| #[trigger] after.tenants.contains_key(tenant_id) implies ({
        &&& after.tenants[tenant_id].handle.tenant_id == tenant_id
        &&& after.tenants[tenant_id].context.tenant_id == tenant_id
        &&& after.tenants[tenant_id].context.limits.error() is None
        &&& after.queue_fits(tenant_id)
        &&& !after.destroyed.contains_key(tenant_id)
    }) by {
        if tenant_id != handle.tenant_id {
            assert(host.tenants.contains_key(tenant_id));
            assert(host.queue_fits(tenant_id));
        }
    }
    assert(!host.queues.contains_key(handle.tenant_id));
    assert(!host.ready.contains(handle.tenant_id));
}

/// Replacing the context of a registered tenant by one of the same identity keeps the invariant.
pub proof fn replacing_a_context_keeps_the_invariant<N>(
    host: TenantHostView<N>,
    tenant_id: Seq<char>,
    context: TenantContextView<N>,
)
    requires
        host.well_formed(),
        host.tenants.contains_key(tenant_id),
        context.tenant_id == host.tenants[tenant_id].context.tenant_id,
        context.runtime_instance_id == host.tenants[tenant_id].context.runtime_instance_id,
        context.limits == host.tenants[tenant_id].context.limits,
    ensures
        host.with_context(tenant_id, context).well_formed(),
{
    let after = host.with_context(tenant_id, context);
    assert forall|other: Seq<char>| #[trigger] after.tenants.contains_key(other) implies ({
        &&& after.tenants[other].handle.tenant_id == other
        &&& after.tenants[other].context.tenant_id == other
        &&& after.tenants[other].context.limits.error() is None
        &&& after.queue_fits(other)
        &&& !after.destroyed.contains_key(other)
    }) by {
        assert(host.tenants.contains_key(other));
        assert(host.queue_fits(other));
    }
    assert(after.tenants.dom() =~= after.queues.dom());
}

/// Admitting a command keeps the invariant.
pub proof fn enqueueing_keeps_the_invariant<N>(
    host: TenantHostView<N>,
    handle: TenantHandleView,
    command: TenantCommand,
    correlation_id: Seq<char>,
)
    requires
        host.well_formed(),
        host.enqueue_error(handle, command) is None,
    ensures
        host.enqueued(handle, command, correlation_id).well_formed(),
{
    let after = host.enqueued(handle, command, correlation_id);
    let tenant_id = handle.tenant_id;
    assert(host.queue_fits(tenant_id));
    assert forall|other: Seq<char>| #[trigger] after.tenants.contains_key(other) implies ({
        &&& after.tenants[other].handle.tenant_id == other
        &&& after.tenants[other].context.tenant_id == other
        &&& after.tenants[other].context.limits.error() is None
        &&& after.queue_fits(other)
        &&& !after.destroyed.contains_key(other)
    }) by {
        assert(host.tenants.contains_key(other));
        assert(host.queue_fits(other));
    }
    assert(after.tenants.dom() =~= after.queues.dom());
    if host.queues[tenant_id].messages.len() == 0 {
        assert(!host.ready.contains(tenant_id));
        assert forall|other: Seq<char>| #[trigger] after.ready.contains(other) <==>
            host.ready.contains(other) || other == tenant_id by {
            if host.ready.contains(other) {
                let i = choose|i: int| 0 <= i < host.ready.len() && host.ready[i] == other;
                assert(after.ready[i] == other);
            }
            if other == tenant_id {
                assert(after.ready[host.ready.len() as int] == other);
            }
        }
    } else {
        assert(host.ready.contains(tenant_id));
    }
}

/// Taking the next command from its queue keeps the invariant.
pub proof fn taking_a_command_keeps_the_invariant<N>(host: TenantHostView<N>)
    requires
        host.well_formed(),
        host.ready.len() > 0,
    ensures
        host.popped().well_formed(),
        host.tenants.contains_key(host.next_tenant()),
        host.queues[host.next_tenant()].messages.len() > 0,
        host.next_command().tenant_id == host.next_tenant(),
        host.next_command().runtime_instance_id
            == host.tenants[host.next_tenant()].context.runtime_instance_id,
{
    let after = host.popped();
    let tenant_id = host.ready[0];
    let rest = host.ready.drop_first();
    assert(host.ready.contains(tenant_id));
    assert(host.queues.contains_key(tenant_id));
    assert(host.tenants.contains_key(tenant_id));
    assert(host.queue_fits(tenant_id));
    assert forall|other: Seq<char>| #[trigger] after.tenants.contains_key(other) implies ({
        &&& after.tenants[other].handle.tenant_id == other
        &&& after.tenants[other].context.tenant_id == other
        &&& after.tenants[other].context.limits.error() is None
        &&& after.queue_fits(other)
        &&& !after.destroyed.contains_key(other)
    }) by {
        assert(host.tenants.contains_key(other));
        assert(host.queue_fits(other));
    }
    assert(after.tenants.dom() =~= after.queues.dom());
    assert forall|other: Seq<char>| #[trigger] rest.contains(other) <==> host.ready.contains(other)
        && other != tenant_id by {
        if rest.contains(other) {
            let i = choose|i: int| 0 <= i < rest.len() && rest[i] == other;
            assert(host.ready[i + 1] == other);
        }
        if host.ready.contains(other) && other != tenant_id {
            let i = choose|i: int| 0 <= i < host.ready.len() && host.ready[i] == other;
            assert(rest[i - 1] == other);
        }
    }
    assert(rest.no_duplicates());
    if after.queues[tenant_id].messages.len() > 0 {
        assert forall|other: Seq<char>| #[trigger] after.ready.contains(other) <==> rest.contains(
            other,
        ) || other == tenant_id by {
            if rest.contains(other) {
                let i = choose|i: int| 0 <= i < rest.len() && rest[i] == other;
                assert(after.ready[i] == other);
            }
            if other == tenant_id {
                assert(after.ready[rest.len() as int] == other);
            }
        }
        assert(!rest.contains(tenant_id));
        assert(after.ready.no_duplicates());
    }
}

/// Destroying a registered tenant keeps the invariant.
pub proof fn destroying_keeps_the_invariant<N>(host: TenantHostView<N>, handle: TenantHandleView)
    requires
        host.well_formed(),
        host.tenants.contains_key(handle.tenant_id),
    ensures
        host.destroyed_by(handle).well_formed(),
{
    let after = host.destroyed_by(handle);
    assert forall|other: Seq<char>| #[trigger] after.tenants.contains_key(other) implies ({
        &&& after.tenants[other].handle.tenant_id == other
        &&& after.tenants[other].context.tenant_id == other
        &&& after.tenants[other].context.limits.error() is None
        &&& after.queue_fits(other)
        &&& !after.destroyed.contains_key(other)
    }) by {
        assert(host.tenants.contains_key(other));
        assert(host.queue_fits(other));
    }
    assert(after.tenants.dom() =~= after.queues.dom());
    lemma_without(host.ready, handle.tenant_id);
}

} // verus!
