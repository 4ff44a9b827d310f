use nautilus_tenant::{
    AccountId, NodeAction, TenantContext, TenantError, TenantId, TenantLimits, TenantState,
    DEFAULT_TENANT_QUEUE_DEPTH, UUID4,
};

fn accounts(texts: &[&str]) -> Vec<AccountId> {
    texts
        .iter()
        .map(|text| AccountId::new_checked(text).unwrap())
        .collect()
}

fn context() -> TenantContext<u32> {
    TenantContext::from_live_node(
        TenantId::new("tenant-a").unwrap(),
        5,
        UUID4::new(),
        accounts(&["IB-1"]),
        TenantLimits::default(),
    )
    .unwrap()
}

fn started() -> TenantContext<u32> {
    let mut context = context();
    assert_eq!(context.start(), Ok(NodeAction::Start));
    assert_eq!(context.finish_start(Ok(()), true), Ok(()));
    context
}

#[test]
fn test_limits_reject_zero_values() {
    let limits = TenantLimits {
        max_queue_depth: 0,
        ..TenantLimits::default()
    };
    assert!(limits.validate().is_err());
}

#[test]
fn default_limits_are_valid() {
    let limits = TenantLimits::default();
    assert_eq!(limits.max_queue_depth, DEFAULT_TENANT_QUEUE_DEPTH);
    assert_eq!(limits.max_queue_depth, 10_000);
    assert_eq!(limits.max_open_orders, 10_000);
    assert_eq!(limits.max_strategies, 100);
    assert_eq!(limits.max_events_per_second, 100_000);
    assert_eq!(limits.validate(), Ok(()));
}

#[test]
fn the_first_zero_limit_is_reported() {
    let mut limits = TenantLimits {
        max_queue_depth: 0,
        max_open_orders: 0,
        max_strategies: 0,
        max_events_per_second: 0,
    };
    assert_eq!(limits.validate(), Err(TenantError::ZeroQueueDepth));
    limits.max_queue_depth = 1;
    assert_eq!(limits.validate(), Err(TenantError::ZeroOpenOrders));
    limits.max_open_orders = 1;
    assert_eq!(limits.validate(), Err(TenantError::ZeroStrategies));
    limits.max_strategies = 1;
    assert_eq!(limits.validate(), Err(TenantError::ZeroEventRate));
    limits.max_events_per_second = 1;
    assert_eq!(limits.validate(), Ok(()));
}

#[test]
fn error_messages() {
    let cases = [
        (TenantError::ZeroQueueDepth, "tenant queue depth must be greater than 0"),
        (TenantError::ZeroOpenOrders, "tenant open-order limit must be greater than 0"),
        (TenantError::ZeroStrategies, "tenant strategy limit must be greater than 0"),
        (TenantError::ZeroEventRate, "tenant event-rate limit must be greater than 0"),
        (TenantError::NoBrokerAccount, "tenant context requires at least one broker account"),
        (TenantError::Transitioning, "tenant runtime is transitioning"),
        (TenantError::AlreadyStopping, "tenant runtime is already stopping"),
        (TenantError::NotRunning, "tenant runtime is not running"),
        (TenantError::NotSuspended, "tenant runtime is not suspended"),
        (
            TenantError::AlreadyRegistered(TenantId::new("tenant-a").unwrap()),
            "tenant tenant-a is already registered",
        ),
        (TenantError::NotRegistered, "tenant is not registered"),
        (TenantError::NotAuthorized, "tenant capability is not authorized"),
        (TenantError::StillActive, "tenant must be idle or stopped before destruction"),
    ];
    for (error, message) in cases {
        assert_eq!(error.to_string(), message);
    }
}

#[test]
fn context_owns_a_namespace_per_account() {
    let runtime = UUID4::new();
    let limits = TenantLimits {
        max_queue_depth: 3,
        ..TenantLimits::default()
    };
    let context = TenantContext::from_live_node(
        TenantId::new("tenant-a").unwrap(),
        "node",
        runtime,
        accounts(&["IB-1", "BINANCE-2"]),
        limits.clone(),
    )
    .unwrap();

    assert_eq!(context.tenant_id().as_str(), "tenant-a");
    assert_eq!(context.state(), TenantState::Idle);
    assert_eq!(context.runtime_instance_id(), runtime);
    assert_eq!(context.limits(), &limits);
    assert_eq!(context.broker_accounts(), accounts(&["IB-1", "BINANCE-2"]).as_slice());
    assert_eq!(context.namespaces().len(), 2);
    assert_eq!(context.namespace(), &context.namespaces()[0]);
    assert_eq!(context.namespace().account_id.as_str(), "IB-1");
    assert_eq!(context.namespaces()[1].account_id.as_str(), "BINANCE-2");
    for namespace in context.namespaces() {
        assert_eq!(namespace.tenant_id.as_str(), "tenant-a");
        assert_eq!(namespace.runtime_instance_id, runtime);
    }
    assert_eq!(*context.node(), "node");
}

#[test]
fn context_needs_an_account_and_valid_limits() {
    let no_account = TenantContext::from_live_node(
        TenantId::new("tenant-a").unwrap(),
        (),
        UUID4::new(),
        Vec::new(),
        TenantLimits {
            max_strategies: 0,
            ..TenantLimits::default()
        },
    );
    assert_eq!(no_account.unwrap_err(), TenantError::NoBrokerAccount);
    let bad_limits = TenantContext::from_live_node(
        TenantId::new("tenant-a").unwrap(),
        (),
        UUID4::new(),
        accounts(&["IB-1"]),
        TenantLimits {
            max_strategies: 0,
            ..TenantLimits::default()
        },
    );
    assert_eq!(bad_limits.unwrap_err(), TenantError::ZeroStrategies);
}

#[test]
fn envelopes_carry_the_scope_of_their_context() {
    let context = context();
    let envelope = context.envelope("payload");
    assert!(envelope
        .validate_scope(context.tenant_id(), context.runtime_instance_id())
        .is_ok());
    assert_eq!(envelope.payload, "payload");
}

#[test]
fn the_node_is_modified_in_place() {
    let mut context = context();
    *context.node_mut() += 1;
    assert_eq!(*context.node(), 6);
}

#[test]
fn the_default_state_is_idle() {
    assert_eq!(TenantState::default(), TenantState::Idle);
}

#[test]
fn starting_runs_the_node_once() {
    let mut context = context();
    assert_eq!(context.start(), Ok(NodeAction::Start));
    assert_eq!(context.state(), TenantState::Starting);
    assert_eq!(context.start(), Err(TenantError::Transitioning));
    assert_eq!(context.finish_start(Ok(()), true), Ok(()));
    assert_eq!(context.state(), TenantState::Running);
    assert_eq!(context.start(), Ok(NodeAction::Nothing));
    assert_eq!(context.state(), TenantState::Running);
}

#[test]
fn failed_starts_leave_the_runtime_stopped() {
    let mut failed = context();
    assert_eq!(failed.start(), Ok(NodeAction::Start));
    assert_eq!(
        failed.finish_start(Err("boom".to_string()), true),
        Err("boom".to_string())
    );
    assert_eq!(failed.state(), TenantState::Stopped);

    let mut idle_node = context();
    assert_eq!(idle_node.start(), Ok(NodeAction::Start));
    assert_eq!(idle_node.finish_start(Ok(()), false), Ok(()));
    assert_eq!(idle_node.state(), TenantState::Stopped);
    assert_eq!(idle_node.start(), Ok(NodeAction::Start));
}

#[test]
fn stopping_is_idempotent() {
    let mut idle = context();
    assert_eq!(idle.stop(true), Ok(NodeAction::Nothing));
    assert_eq!(idle.state(), TenantState::Idle);

    let mut running = started();
    assert_eq!(running.stop(true), Ok(NodeAction::Stop));
    assert_eq!(running.state(), TenantState::Stopping);
    assert_eq!(running.stop(true), Err(TenantError::AlreadyStopping));
    assert_eq!(running.start(), Err(TenantError::Transitioning));
    assert_eq!(
        running.finish_stop(Err("stuck".to_string())),
        Err("stuck".to_string())
    );
    assert_eq!(running.state(), TenantState::Stopped);
    assert_eq!(running.stop(true), Ok(NodeAction::Nothing));

    let mut gone = started();
    assert_eq!(gone.stop(false), Ok(NodeAction::Nothing));
    assert_eq!(gone.state(), TenantState::Stopped);
}

#[test]
fn suspending_and_resuming() {
    let mut context = context();
    assert_eq!(context.suspend(), Err(TenantError::NotRunning));
    assert_eq!(context.resume(), Err(TenantError::NotSuspended));

    let mut context = started();
    assert_eq!(context.suspend(), Ok(()));
    assert_eq!(context.suspend(), Ok(()));
    assert_eq!(context.state(), TenantState::Suspended);
    assert_eq!(context.start(), Ok(NodeAction::Nothing));
    assert_eq!(context.state(), TenantState::Suspended);
    assert_eq!(context.resume(), Ok(()));
    assert_eq!(context.state(), TenantState::Running);
}

#[test]
fn only_a_suspended_runtime_is_resumed() {
    let mut context = started();
    assert_eq!(context.resume(), Err(TenantError::NotSuspended));
    assert_eq!(context.state(), TenantState::Running);
    context.stop(false).unwrap();
    assert_eq!(context.resume(), Err(TenantError::NotSuspended));
    assert_eq!(context.state(), TenantState::Stopped);
}

#[test]
fn disposing_stops_the_runtime() {
    let mut context = started();
    context.dispose();
    assert_eq!(context.state(), TenantState::Stopped);
}
