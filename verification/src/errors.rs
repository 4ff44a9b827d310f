//! Errors of tenant operations.

use vstd::prelude::*;

use crate::tenant::TenantId;

verus! {

/// Errors returned when a tenant operation is refused.
#[derive(Debug, Eq, PartialEq)]
pub enum TenantError {
    /// The queue depth quota admits no work.
    ZeroQueueDepth,
    /// The open-order quota admits no work.
    ZeroOpenOrders,
    /// The strategy quota admits no work.
    ZeroStrategies,
    /// The event-rate quota admits no work.
    ZeroEventRate,
    /// No broker account was supplied.
    NoBrokerAccount,
    /// The runtime is starting or stopping.
    Transitioning,
    /// The runtime is stopping.
    AlreadyStopping,
    /// The runtime is not running.
    NotRunning,
    /// The runtime is not suspended.
    NotSuspended,
    /// A tenant with this identifier is registered.
    AlreadyRegistered(TenantId),
    /// No tenant with this identifier is registered.
    NotRegistered,
    /// The capability is not that of the registered tenant.
    NotAuthorized,
    /// The runtime is neither idle nor stopped.
    StillActive,
}

impl TenantError {
    /// The message of the error.
    pub open spec fn message(self) -> Seq<char> {
        match self {
            TenantError::ZeroQueueDepth => "tenant queue depth must be greater than 0"@,
            TenantError::ZeroOpenOrders => "tenant open-order limit must be greater than 0"@,
            TenantError::ZeroStrategies => "tenant strategy limit must be greater than 0"@,
            TenantError::ZeroEventRate => "tenant event-rate limit must be greater than 0"@,
            TenantError::NoBrokerAccount => "tenant context requires at least one broker account"@,
            TenantError::Transitioning => "tenant runtime is transitioning"@,
            TenantError::AlreadyStopping => "tenant runtime is already stopping"@,
            TenantError::NotRunning => "tenant runtime is not running"@,
            TenantError::NotSuspended => "tenant runtime is not suspended"@,
            TenantError::AlreadyRegistered(tenant_id) => "tenant "@ + tenant_id@
                + " is already registered"@,
            TenantError::NotRegistered => "tenant is not registered"@,
            TenantError::NotAuthorized => "tenant capability is not authorized"@,
            TenantError::StillActive => "tenant must be idle or stopped before destruction"@,
        }
    }

    /// Describes the error.
    pub fn to_string(&self) -> (text: String)
        ensures
            text@ == self.message(),
    {
        match self {
            TenantError::ZeroQueueDepth => "tenant queue depth must be greater than 0".to_owned(),
            TenantError::ZeroOpenOrders =>
                "tenant open-order limit must be greater than 0".to_owned(),
            TenantError::ZeroStrategies =>
                "tenant strategy limit must be greater than 0".to_owned(),
            TenantError::ZeroEventRate =>
                "tenant event-rate limit must be greater than 0".to_owned(),
            TenantError::NoBrokerAccount =>
                "tenant context requires at least one broker account".to_owned(),
            TenantError::Transitioning => "tenant runtime is transitioning".to_owned(),
            TenantError::AlreadyStopping => "tenant runtime is already stopping".to_owned(),
            TenantError::NotRunning => "tenant runtime is not running".to_owned(),
            TenantError::NotSuspended => "tenant runtime is not suspended".to_owned(),
            TenantError::AlreadyRegistered(tenant_id) => "tenant ".to_owned().concat(
                tenant_id.as_str(),
            ).concat(" is already registered"),
            TenantError::NotRegistered => "tenant is not registered".to_owned(),
            TenantError::NotAuthorized => "tenant capability is not authorized".to_owned(),
            TenantError::StillActive =>
                "tenant must be idle or stopped before destruction".to_owned(),
        }
    }
}

/// Errors returned when a tenant command cannot be admitted.
#[derive(Clone, Debug, Eq, PartialEq, Structural)]
pub enum TenantQueueError {
    /// The tenant is not registered with this host.
    UnknownTenant,
    /// The command was rejected because its queue is full.
    QueueFull,
    /// The tenant is suspended and only a resume command is accepted.
    Suspended,
}

impl TenantQueueError {
    /// The message of the error.
    pub open spec fn message(self) -> Seq<char> {
        match self {
            TenantQueueError::UnknownTenant => "tenant is not registered"@,
            TenantQueueError::QueueFull => "tenant command queue is full"@,
            TenantQueueError::Suspended => "tenant runtime is suspended"@,
        }
    }

    /// Describes the error.
    pub fn to_string(&self) -> (text: String)
        ensures
            text@ == self.message(),
    {
        match self {
            TenantQueueError::UnknownTenant => "tenant is not registered".to_owned(),
            TenantQueueError::QueueFull => "tenant command queue is full".to_owned(),
            TenantQueueError::Suspended => "tenant runtime is suspended".to_owned(),
        }
    }
}

} // verus!
