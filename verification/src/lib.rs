//! Tenant identity, admission control and fair lifecycle scheduling for multi-tenant runtimes.
//!
//! [`tenant`] holds tenant identifiers, durable namespaces and message envelopes; [`context`] the
//! runtime context that belongs to one tenant; [`host`] the host that registers tenants, checks
//! their capabilities and queues their commands; [`dispatch`] the scheduling cycles that serve
//! those queues. Runtime nodes are opaque here: what has to be done with a node is handed to its
//! owner, who reports back.
//!
//! Contracts are stated over the views in [`host_model`] and [`dispatch_model`], and
//! [`history_model`] says how they follow one another; the modules whose names end in `_laws`, and
//! [`host_invariant`], state what holds across operations.

pub mod context;
pub mod context_laws;
pub mod dispatch;
pub mod dispatch_laws;
pub mod dispatch_model;
pub mod error_laws;
pub mod errors;
pub mod history_laws;
pub mod history_model;
pub mod host;
pub mod host_invariant;
pub mod host_laws;
pub mod host_model;
pub mod identifier_laws;
pub mod identifiers;
pub mod lifecycle;
pub mod lifecycle_laws;
pub mod limits;
pub mod tenant;
pub mod tenant_laws;
mod tenant_map;
pub mod text;

pub use context::TenantContext;
pub use dispatch::{DispatchCycle, DispatchStep, TenantCommandOutcome};
pub use dispatch_model::NodeWork;
pub use errors::{TenantError, TenantQueueError};
pub use host::{dispatch_refusal, TenantHandle, TenantHost};
pub use identifiers::{AccountId, UUID4};
pub use lifecycle::{NodeAction, TenantCommand, TenantState};
pub use limits::{TenantLimits, DEFAULT_TENANT_QUEUE_DEPTH};
pub use tenant::{
    encode_namespace_component, TenantEnvelope, TenantId, TenantIdError, TenantNamespace,
    TenantScopeError,
};
