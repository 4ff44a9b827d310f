//! Laws of error messages.

use vstd::prelude::*;

use crate::errors::{TenantError, TenantQueueError};
use crate::tenant::{TenantIdError, TenantScopeError};
use crate::text::decimal;

verus! {

/// What the description of a refused operation says.
pub proof fn refusals_are_described(error: &TenantError, text: String)
    requires
        call_ensures(TenantError::to_string, (error,), text),
    ensures
        *error is ZeroQueueDepth ==> text@ == "tenant queue depth must be greater than 0"@,
        *error is ZeroOpenOrders ==> text@ == "tenant open-order limit must be greater than 0"@,
        *error is ZeroStrategies ==> text@ == "tenant strategy limit must be greater than 0"@,
        *error is ZeroEventRate ==> text@ == "tenant event-rate limit must be greater than 0"@,
        *error is NoBrokerAccount ==> text@
            == "tenant context requires at least one broker account"@,
        *error is Transitioning ==> text@ == "tenant runtime is transitioning"@,
        *error is AlreadyStopping ==> text@ == "tenant runtime is already stopping"@,
        *error is NotRunning ==> text@ == "tenant runtime is not running"@,
        *error is NotSuspended ==> text@ == "tenant runtime is not suspended"@,
        *error matches TenantError::AlreadyRegistered(tenant_id) ==> text@ == "tenant "@
            + tenant_id@ + " is already registered"@,
        *error is NotRegistered ==> text@ == "tenant is not registered"@,
        *error is NotAuthorized ==> text@ == "tenant capability is not authorized"@,
        *error is StillActive ==> text@ == "tenant must be idle or stopped before destruction"@,
{
}

/// What the description of a command that is not admitted says.
pub proof fn queue_refusals_are_described(error: &TenantQueueError, text: String)
    requires
        call_ensures(TenantQueueError::to_string, (error,), text),
    ensures
        *error is UnknownTenant ==> text@ == "tenant is not registered"@,
        *error is QueueFull ==> text@ == "tenant command queue is full"@,
        *error is Suspended ==> text@ == "tenant runtime is suspended"@,
{
}

/// What the description of an invalid tenant identifier says.
pub proof fn invalid_tenant_ids_are_described(error: &TenantIdError, text: String)
    requires
        call_ensures(TenantIdError::to_string, (error,), text),
    ensures
        *error is Empty ==> text@ == "tenant ID cannot be empty"@,
        *error matches TenantIdError::TooLong { max } ==> text@
            == "tenant ID exceeds the maximum length of "@ + decimal(max as nat) + " characters"@,
        *error is InvalidCharacter ==> text@ == "tenant ID contains an invalid character"@,
{
}

/// What the description of a misrouted envelope says.
pub proof fn misrouting_is_described(error: &TenantScopeError, text: String)
    requires
        call_ensures(TenantScopeError::to_string, (error,), text),
    ensures
        *error is TenantMismatch ==> text@
            == "tenant envelope does not belong to the target tenant"@,
        *error is RuntimeMismatch ==> text@
            == "tenant envelope does not belong to the target runtime instance"@,
{
}

} // verus!
