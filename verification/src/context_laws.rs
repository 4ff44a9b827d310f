//! Laws of runtime contexts and of their limits.

use vstd::prelude::*;

use crate::context::{account_texts, TenantContext, TenantContextView};
use crate::errors::TenantError;
use crate::identifiers::{AccountId, UUID4};
use crate::lifecycle::TenantState;
use crate::limits::TenantLimits;
use crate::tenant::{TenantId, TenantNamespace};

verus! {

/// Limits are valid exactly when every quota admits work. Otherwise the first quota that admits none
/// is reported, in the order of queue depth, open orders, strategies and event rate.
pub proof fn limits_need_every_quota(limits: &TenantLimits, result: Result<(), TenantError>)
    requires
        call_ensures(TenantLimits::validate, (limits,), result),
    ensures
        result is Ok <==> limits.max_queue_depth > 0 && limits.max_open_orders > 0
            && limits.max_strategies > 0 && limits.max_events_per_second > 0,
        limits.max_queue_depth == 0 ==> result == Err::<(), _>(TenantError::ZeroQueueDepth),
        limits.max_queue_depth > 0 && limits.max_open_orders == 0 ==> result == Err::<(), _>(
            TenantError::ZeroOpenOrders,
        ),
        limits.max_queue_depth > 0 && limits.max_open_orders > 0 && limits.max_strategies == 0
            ==> result == Err::<(), _>(TenantError::ZeroStrategies),
        limits.max_queue_depth > 0 && limits.max_open_orders > 0 && limits.max_strategies > 0
            && limits.max_events_per_second == 0 ==> result == Err::<(), _>(
            TenantError::ZeroEventRate,
        ),
{
}

/// The texts of account identifiers are theirs, in order.
pub proof fn account_texts_keep_their_order(accounts: Seq<AccountId>)
    ensures
        account_texts(accounts).len() == accounts.len(),
        forall|i: int|
            0 <= i < accounts.len() ==> #[trigger] account_texts(accounts)[i] == accounts[i]@,
{
}

/// A context is created exactly when there is a broker account and every quota admits work. It is
/// idle, and holds what it was given.
pub proof fn new_contexts_are_idle_and_hold_what_they_are_given<N>(
    tenant_id: TenantId,
    node: N,
    runtime_instance_id: UUID4,
    broker_accounts: Vec<AccountId>,
    limits: TenantLimits,
    result: Result<TenantContext<N>, TenantError>,
)
    requires
        call_ensures(
            TenantContext::<N>::from_live_node,
            (tenant_id, node, runtime_instance_id, broker_accounts, limits),
            result,
        ),
    ensures
        result is Ok <==> broker_accounts@.len() > 0 && limits.max_queue_depth > 0
            && limits.max_open_orders > 0 && limits.max_strategies > 0
            && limits.max_events_per_second > 0,
        broker_accounts@.len() == 0 ==> result is Err && result->Err_0 is NoBrokerAccount,
        broker_accounts@.len() > 0 && limits.max_queue_depth == 0 ==> result is Err
            && result->Err_0 is ZeroQueueDepth,
        result matches Ok(context) ==> {
            &&& context@.tenant_id == tenant_id@
            &&& context@.broker_accounts.len() == broker_accounts@.len()
            &&& forall|i: int|
                0 <= i < broker_accounts@.len() ==> #[trigger] context@.broker_accounts[i]
                    == broker_accounts@[i]@
            &&& context@.limits == limits
            &&& context@.state == TenantState::Idle
            &&& context@.runtime_instance_id == runtime_instance_id@
            &&& context@.node == node
        },
{
}

/// A context owns one namespace for each of its broker accounts, in their order, under its tenant and
/// its runtime.
pub proof fn contexts_own_a_namespace_per_account<N>(
    context: &TenantContext<N>,
    first: &TenantNamespace,
    all: &[TenantNamespace],
)
    requires
        call_ensures(TenantContext::<N>::namespace, (context,), first),
        call_ensures(TenantContext::<N>::namespaces, (context,), all),
    ensures
        all@.len() == context@.broker_accounts.len(),
        all@.len() > 0,
        forall|i: int|
            0 <= i < all@.len() ==> {
                &&& (#[trigger] all@[i]).tenant_id@ == context@.tenant_id
                &&& all@[i].account_id@ == context@.broker_accounts[i]
                &&& all@[i].runtime_instance_id@ == context@.runtime_instance_id
            },
        first.tenant_id@ == all@[0].tenant_id@,
        first.account_id@ == all@[0].account_id@,
        first.runtime_instance_id@ == all@[0].runtime_instance_id@,
{
}

/// A change of state changes nothing else, and neither does a change of the node.
pub proof fn contexts_change_in_one_thing<N>(
    context: TenantContextView<N>,
    state: TenantState,
    node: N,
)
    ensures
        ({
            let moved = context.in_state(state);
            &&& moved.state == state
            &&& moved.tenant_id == context.tenant_id
            &&& moved.broker_accounts == context.broker_accounts
            &&& moved.limits == context.limits
            &&& moved.runtime_instance_id == context.runtime_instance_id
            &&& moved.node == context.node
        }),
        ({
            let operated = context.with_node(node);
            &&& operated.node == node
            &&& operated.tenant_id == context.tenant_id
            &&& operated.broker_accounts == context.broker_accounts
            &&& operated.limits == context.limits
            &&& operated.runtime_instance_id == context.runtime_instance_id
            &&& operated.state == context.state
        }),
{
}

} // verus!
