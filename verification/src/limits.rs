//! Resource limits of a tenant.

use vstd::prelude::*;

use crate::errors::TenantError;

verus! {

/// Default maximum number of queued control commands for one tenant.
pub const DEFAULT_TENANT_QUEUE_DEPTH: usize = 10_000;

/// Resource limits applied at the tenant admission boundary.
#[derive(Clone, Debug, Eq, PartialEq, Structural)]
pub struct TenantLimits {
    /// Maximum number of queued commands for the tenant.
    pub max_queue_depth: usize,
    /// Maximum number of open orders the tenant may maintain.
    pub max_open_orders: usize,
    /// Maximum number of tenant-owned strategies.
    pub max_strategies: usize,
    /// Maximum number of runtime events admitted per second.
    pub max_events_per_second: u64,
}

impl Default for TenantLimits {
    fn default() -> (limits: Self)
        ensures
            limits == (TenantLimits {
                max_queue_depth: DEFAULT_TENANT_QUEUE_DEPTH,
                max_open_orders: 10_000,
                max_strategies: 100,
                max_events_per_second: 100_000,
            }),
            limits.max_queue_depth == 10_000,
            limits.error() is None,
    {
        Self {
            max_queue_depth: DEFAULT_TENANT_QUEUE_DEPTH,
            max_open_orders: 10_000,
            max_strategies: 100,
            max_events_per_second: 100_000,
        }
    }
}

impl TenantLimits {
    /// The first quota that admits no work, if there is one.
    pub open spec fn error(self) -> Option<TenantError> {
        if self.max_queue_depth == 0 {
            Some(TenantError::ZeroQueueDepth)
        } else if self.max_open_orders == 0 {
            Some(TenantError::ZeroOpenOrders)
        } else if self.max_strategies == 0 {
            Some(TenantError::ZeroStrategies)
        } else if self.max_events_per_second == 0 {
            Some(TenantError::ZeroEventRate)
        } else {
            None
        }
    }

    /// Validates that every configured quota can admit work.
    pub fn validate(&self) -> (result: Result<(), TenantError>)
        ensures
            match result {
                Ok(()) => self.error() is None,
                Err(error) => self.error() == Some(error),
            },
            result is Ok <==> self.max_queue_depth > 0 && self.max_open_orders > 0
                && self.max_strategies > 0 && self.max_events_per_second > 0,
    {
        if self.max_queue_depth == 0 {
            return Err(TenantError::ZeroQueueDepth);
        }
        if self.max_open_orders == 0 {
            return Err(TenantError::ZeroOpenOrders);
        }
        if self.max_strategies == 0 {
            return Err(TenantError::ZeroStrategies);
        }
        if self.max_events_per_second == 0 {
            return Err(TenantError::ZeroEventRate);
        }
        Ok(())
    }
}

} // verus!
