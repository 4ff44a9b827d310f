use nautilus_tenant::{
    dispatch_refusal, AccountId, DispatchCycle, DispatchStep, NodeAction, TenantCommand,
    TenantCommandOutcome, TenantContext, TenantEnvelope, TenantError, TenantHandle, TenantHost,
    TenantId, TenantLimits, TenantQueueError, TenantState, UUID4,
};

fn context_with_depth(id: &str, max_queue_depth: usize) -> TenantContext<&'static str> {
    TenantContext::from_live_node(
        TenantId::new(id).unwrap(),
        "node",
        UUID4::new(),
        vec![AccountId::new_checked("IB-1").unwrap()],
        TenantLimits {
            max_queue_depth,
            ..TenantLimits::default()
        },
    )
    .unwrap()
}

fn context(id: &str) -> TenantContext<&'static str> {
    context_with_depth(id, 10)
}

fn running(id: &str) -> TenantContext<&'static str> {
    let mut context = context(id);
    context.start().unwrap();
    context.finish_start(Ok(()), true).unwrap();
    context
}

fn suspended(id: &str) -> TenantContext<&'static str> {
    let mut context = running(id);
    context.suspend().unwrap();
    context
}

/// Runs a cycle with nodes that always do what they are asked.
fn run(host: &mut TenantHost<&'static str>) -> Vec<TenantCommandOutcome> {
    let mut cycle = host.dispatch();
    loop {
        match host.advance(&mut cycle) {
            DispatchStep::Complete => return cycle.into_outcomes(),
            DispatchStep::StartNode(_) => host.node_started(&mut cycle, Ok(()), true),
            DispatchStep::ReportNode(_) => {
                if host.node_reported(&mut cycle, true) == NodeAction::Stop {
                    host.node_stopped(&mut cycle, Ok(()));
                }
            }
            DispatchStep::DisposeNode(_) => {}
        }
    }
}

fn served(outcomes: &[TenantCommandOutcome]) -> Vec<&str> {
    outcomes
        .iter()
        .map(|outcome| outcome.tenant_id.as_str())
        .collect()
}

#[test]
fn registration_gives_access_to_the_context() {
    let mut host = TenantHost::default();
    let handle = host.register(context("tenant-a")).unwrap();
    assert_eq!(handle.tenant_id().as_str(), "tenant-a");
    assert_eq!(host.tenant_count(), 1);
    assert_eq!(host.context(&handle).unwrap().tenant_id().as_str(), "tenant-a");
    host.register(context("tenant-b")).unwrap();
    assert_eq!(host.tenant_count(), 2);
}

#[test]
fn a_tenant_is_registered_once() {
    let mut host = TenantHost::default();
    host.register(context("tenant-a")).unwrap();
    let error = host.register(context("tenant-a")).unwrap_err();
    assert_eq!(
        error,
        TenantError::AlreadyRegistered(TenantId::new("tenant-a").unwrap())
    );
    assert_eq!(error.to_string(), "tenant tenant-a is already registered");
    assert_eq!(host.tenant_count(), 1);
}

#[test]
fn the_capability_is_required() {
    let mut host = TenantHost::default();
    host.register(context("tenant-a")).unwrap();
    let mut other_host = TenantHost::default();
    let forged = other_host.register(context("tenant-a")).unwrap();
    let unknown = other_host.register(context("tenant-b")).unwrap();

    assert_eq!(host.context(&forged).unwrap_err(), TenantError::NotAuthorized);
    assert_eq!(host.context(&unknown).unwrap_err(), TenantError::NotRegistered);
    assert_eq!(host.node_mut(&forged).unwrap_err(), TenantError::NotAuthorized);
    assert_eq!(host.start_tenant(&forged), Err(TenantError::NotAuthorized));
    assert_eq!(host.stop_tenant(&forged, true), Err(TenantError::NotAuthorized));
    assert_eq!(host.suspend_tenant(&forged), Err(TenantError::NotAuthorized));
    assert_eq!(host.resume_tenant(&unknown), Err(TenantError::NotRegistered));
    assert_eq!(
        host.destroy_tenant(&forged).unwrap_err(),
        TenantError::NotAuthorized
    );
    assert_eq!(
        host.destroy_tenant(&unknown).unwrap_err(),
        TenantError::NotRegistered
    );
    assert_eq!(
        host.finish_start_tenant(&forged, Ok(()), true),
        Err("tenant capability is not authorized".to_string())
    );
    assert_eq!(
        host.finish_stop_tenant(&unknown, Ok(())),
        Err("tenant is not registered".to_string())
    );
    for handle in [&forged, &unknown] {
        assert_eq!(
            host.enqueue(handle, TenantCommand::Start),
            Err(TenantQueueError::UnknownTenant)
        );
    }
    assert_eq!(host.tenant_count(), 1);
}

#[test]
fn lifecycle_operations_act_on_the_context() {
    let mut host = TenantHost::new(4);
    let handle = host.register(context("tenant-a")).unwrap();
    let state = |host: &TenantHost<&'static str>, handle: &TenantHandle| {
        host.context(handle).unwrap().state()
    };

    assert_eq!(host.start_tenant(&handle), Ok(NodeAction::Start));
    assert_eq!(state(&host, &handle), TenantState::Starting);
    assert_eq!(host.finish_start_tenant(&handle, Ok(()), true), Ok(()));
    assert_eq!(state(&host, &handle), TenantState::Running);
    assert_eq!(host.suspend_tenant(&handle), Ok(()));
    assert_eq!(state(&host, &handle), TenantState::Suspended);
    assert_eq!(host.resume_tenant(&handle), Ok(()));
    assert_eq!(
        host.destroy_tenant(&handle).unwrap_err(),
        TenantError::StillActive
    );
    assert_eq!(host.stop_tenant(&handle, true), Ok(NodeAction::Stop));
    assert_eq!(state(&host, &handle), TenantState::Stopping);
    assert_eq!(host.finish_stop_tenant(&handle, Ok(())), Ok(()));
    assert_eq!(state(&host, &handle), TenantState::Stopped);
    *host.node_mut(&handle).unwrap() = "changed";
    let context = host.destroy_tenant(&handle).unwrap().unwrap();
    assert_eq!(*context.node(), "changed");
    assert_eq!(context.state(), TenantState::Stopped);
}

#[test]
fn destruction_is_idempotent() {
    let mut host = TenantHost::default();
    let handle = host.register(context("tenant-a")).unwrap();
    let other = host.register(context("tenant-b")).unwrap();
    host.enqueue(&handle, TenantCommand::Start).unwrap();
    host.enqueue(&other, TenantCommand::Suspend).unwrap();

    assert!(host.destroy_tenant(&handle).unwrap().is_some());
    assert!(host.destroy_tenant(&handle).unwrap().is_none());
    assert_eq!(host.tenant_count(), 1);
    assert_eq!(host.context(&handle).unwrap_err(), TenantError::NotRegistered);
    assert_eq!(
        host.enqueue(&handle, TenantCommand::Start),
        Err(TenantQueueError::UnknownTenant)
    );
    assert_eq!(served(&run(&mut host)), ["tenant-b"]);
}

#[test]
fn registering_again_revokes_the_old_handle() {
    let mut host = TenantHost::default();
    let old = host.register(context("tenant-a")).unwrap();
    host.destroy_tenant(&old).unwrap();
    let new = host.register(context("tenant-a")).unwrap();
    assert_ne!(old, new);
    assert!(host.context(&new).is_ok());
    assert_eq!(host.context(&old).unwrap_err(), TenantError::NotAuthorized);
    assert_eq!(host.destroy_tenant(&old).unwrap_err(), TenantError::NotAuthorized);
    host.destroy_tenant(&new).unwrap();
    assert_eq!(host.destroy_tenant(&old).unwrap_err(), TenantError::NotRegistered);
}

#[test]
fn the_queue_is_bounded() {
    let mut host = TenantHost::default();
    let handle = host.register(context_with_depth("tenant-a", 2)).unwrap();
    host.enqueue(&handle, TenantCommand::Suspend).unwrap();
    host.enqueue(&handle, TenantCommand::Resume).unwrap();
    assert_eq!(
        host.enqueue(&handle, TenantCommand::Start),
        Err(TenantQueueError::QueueFull)
    );
    assert_eq!(run(&mut host).len(), 2);
    assert!(host.enqueue(&handle, TenantCommand::Start).is_ok());
}

#[test]
fn a_suspended_tenant_admits_only_resume() {
    let mut host = TenantHost::default();
    let handle = host.register(suspended("tenant-a")).unwrap();
    for command in [
        TenantCommand::Start,
        TenantCommand::Stop,
        TenantCommand::Suspend,
        TenantCommand::Destroy,
    ] {
        assert_eq!(
            host.enqueue(&handle, command),
            Err(TenantQueueError::Suspended)
        );
    }
    let correlation_id = host.enqueue(&handle, TenantCommand::Resume).unwrap();
    let outcomes = run(&mut host);
    assert_eq!(outcomes.len(), 1);
    assert_eq!(outcomes[0].correlation_id, correlation_id);
    assert_eq!(outcomes[0].result, Ok(()));
    assert_eq!(host.context(&handle).unwrap().state(), TenantState::Running);
}

#[test]
fn queue_error_messages() {
    assert_eq!(
        TenantQueueError::UnknownTenant.to_string(),
        "tenant is not registered"
    );
    assert_eq!(
        TenantQueueError::QueueFull.to_string(),
        "tenant command queue is full"
    );
    assert_eq!(
        TenantQueueError::Suspended.to_string(),
        "tenant runtime is suspended"
    );
}

#[test]
fn dispatch_serves_tenants_in_turn() {
    let mut host = TenantHost::new(4);
    let a = host.register(running("tenant-a")).unwrap();
    let b = host.register(running("tenant-b")).unwrap();
    let c = host.register(running("tenant-c")).unwrap();
    let mut expected = Vec::new();
    for _ in 0..3 {
        expected.push(host.enqueue(&a, TenantCommand::Start).unwrap());
    }
    let b_id = host.enqueue(&b, TenantCommand::Start).unwrap();
    host.enqueue(&c, TenantCommand::Start).unwrap();
    host.enqueue(&c, TenantCommand::Start).unwrap();

    let first = run(&mut host);
    assert_eq!(served(&first), ["tenant-a", "tenant-b", "tenant-c", "tenant-a"]);
    assert_eq!(first[0].correlation_id, expected[0]);
    assert_eq!(first[1].correlation_id, b_id);
    assert_eq!(first[3].correlation_id, expected[1]);
    let second = run(&mut host);
    assert_eq!(served(&second), ["tenant-c", "tenant-a"]);
    assert_eq!(second[1].correlation_id, expected[2]);
    assert!(run(&mut host).is_empty());
}

#[test]
fn a_cycle_dispatches_at_least_one_command() {
    let mut host = TenantHost::new(0);
    assert_eq!(host.max_dispatch_per_cycle(), 1);
    let handle = host.register(running("tenant-a")).unwrap();
    host.enqueue(&handle, TenantCommand::Suspend).unwrap();
    host.enqueue(&handle, TenantCommand::Resume).unwrap();
    assert_eq!(run(&mut host).len(), 1);
    assert_eq!(run(&mut host).len(), 1);
    assert_eq!(run(&mut host).len(), 0);
}

#[test]
fn the_default_host_dispatches_a_batch() {
    let host: TenantHost<()> = TenantHost::default();
    assert_eq!(host.max_dispatch_per_cycle(), 64);
}

#[test]
fn outcomes_carry_the_messages_of_refusals() {
    let mut host = TenantHost::default();
    let handle = host.register(context("tenant-a")).unwrap();
    host.enqueue(&handle, TenantCommand::Suspend).unwrap();
    host.enqueue(&handle, TenantCommand::Resume).unwrap();
    host.enqueue(&handle, TenantCommand::Stop).unwrap();
    host.enqueue(&handle, TenantCommand::Start).unwrap();
    host.enqueue(&handle, TenantCommand::Destroy).unwrap();
    host.enqueue(&handle, TenantCommand::Stop).unwrap();
    host.enqueue(&handle, TenantCommand::Destroy).unwrap();
    host.enqueue(&handle, TenantCommand::Start).unwrap();

    let results: Vec<_> = run(&mut host)
        .into_iter()
        .map(|outcome| outcome.result)
        .collect();
    assert_eq!(
        results,
        [
            Err("tenant runtime is not running".to_string()),
            Err("tenant runtime is not suspended".to_string()),
            Ok(()),
            Ok(()),
            Err("tenant must be idle or stopped before destruction".to_string()),
            Ok(()),
            Ok(()),
        ]
    );
    assert_eq!(host.tenant_count(), 0);
}

#[test]
fn node_failures_are_reported() {
    let mut host = TenantHost::default();
    let handle = host.register(context("tenant-a")).unwrap();
    host.enqueue(&handle, TenantCommand::Start).unwrap();
    host.enqueue(&handle, TenantCommand::Stop).unwrap();

    let mut cycle: DispatchCycle = host.dispatch();
    match host.advance(&mut cycle) {
        DispatchStep::StartNode(started) => assert_eq!(started, handle),
        step => panic!("unexpected step {step:?}"),
    }
    assert_eq!(host.context(&handle).unwrap().state(), TenantState::Starting);
    host.node_started(&mut cycle, Err("no route".to_string()), false);
    assert_eq!(host.context(&handle).unwrap().state(), TenantState::Stopped);
    match host.advance(&mut cycle) {
        DispatchStep::ReportNode(reported) => assert_eq!(reported, handle),
        step => panic!("unexpected step {step:?}"),
    }
    assert_eq!(host.node_reported(&mut cycle, false), NodeAction::Nothing);
    assert!(matches!(host.advance(&mut cycle), DispatchStep::Complete));
    let outcomes = cycle.into_outcomes();
    assert_eq!(outcomes[0].result, Err("no route".to_string()));
    assert_eq!(outcomes[1].result, Ok(()));
}

#[test]
fn failed_stops_end_stopped() {
    let mut host = TenantHost::default();
    let handle = host.register(running("tenant-a")).unwrap();
    host.enqueue(&handle, TenantCommand::Stop).unwrap();
    let mut cycle = host.dispatch();
    assert!(matches!(host.advance(&mut cycle), DispatchStep::ReportNode(_)));
    assert_eq!(host.node_reported(&mut cycle, true), NodeAction::Stop);
    assert_eq!(host.context(&handle).unwrap().state(), TenantState::Stopping);
    host.node_stopped(&mut cycle, Err("stuck".to_string()));
    assert_eq!(host.context(&handle).unwrap().state(), TenantState::Stopped);
    assert_eq!(cycle.into_outcomes()[0].result, Err("stuck".to_string()));
}

#[test]
fn an_interrupted_stop_refuses_another() {
    let mut host = TenantHost::default();
    let handle = host.register(running("tenant-a")).unwrap();
    host.stop_tenant(&handle, true).unwrap();
    host.enqueue(&handle, TenantCommand::Stop).unwrap();
    host.enqueue(&handle, TenantCommand::Start).unwrap();
    let results: Vec<_> = run(&mut host)
        .into_iter()
        .map(|outcome| outcome.result)
        .collect();
    assert_eq!(
        results,
        [
            Err("tenant runtime is already stopping".to_string()),
            Err("tenant runtime is transitioning".to_string()),
        ]
    );
}

#[test]
fn destroyed_contexts_are_handed_over_for_disposal() {
    let mut host = TenantHost::default();
    let handle = host.register(context("tenant-a")).unwrap();
    host.enqueue(&handle, TenantCommand::Destroy).unwrap();
    host.enqueue(&handle, TenantCommand::Start).unwrap();
    let mut cycle = host.dispatch();
    match host.advance(&mut cycle) {
        DispatchStep::DisposeNode(context) => {
            assert_eq!(context.tenant_id().as_str(), "tenant-a");
            assert_eq!(context.state(), TenantState::Stopped);
        }
        step => panic!("unexpected step {step:?}"),
    }
    assert!(matches!(host.advance(&mut cycle), DispatchStep::Complete));
    assert_eq!(cycle.into_outcomes().len(), 1);
}

#[test]
fn misrouted_commands_are_refused() {
    let context = context("tenant-a");
    let envelope = context.envelope(TenantCommand::Start);
    assert_eq!(dispatch_refusal(Some(&context), &envelope), None);
    assert_eq!(
        dispatch_refusal::<()>(None, &envelope),
        Some("tenant was removed before dispatch".to_string())
    );
    let foreign = TenantEnvelope::new(
        TenantId::new("tenant-b").unwrap(),
        context.runtime_instance_id(),
        TenantCommand::Start,
    );
    assert_eq!(
        dispatch_refusal(Some(&context), &foreign),
        Some("tenant envelope does not belong to the target tenant".to_string())
    );
    let stale = TenantEnvelope::new(
        TenantId::new("tenant-a").unwrap(),
        UUID4::new(),
        TenantCommand::Start,
    );
    assert_eq!(
        dispatch_refusal(Some(&context), &stale),
        Some("tenant envelope does not belong to the target runtime instance".to_string())
    );
}

#[test]
fn commands_that_wait_for_their_node_count_towards_the_budget() {
    let mut host = TenantHost::new(2);
    let handle = host.register(context("tenant-a")).unwrap();
    for command in [
        TenantCommand::Start,
        TenantCommand::Stop,
        TenantCommand::Start,
    ] {
        host.enqueue(&handle, command).unwrap();
    }
    assert_eq!(run(&mut host).len(), 2);
    assert_eq!(host.context(&handle).unwrap().state(), TenantState::Stopped);
    assert_eq!(run(&mut host).len(), 1);
    assert_eq!(host.context(&handle).unwrap().state(), TenantState::Running);
    assert!(run(&mut host).is_empty());
}

#[test]
fn the_node_is_operated_on_while_a_cycle_waits() {
    let mut host = TenantHost::default();
    let handle = host.register(context("tenant-a")).unwrap();
    host.enqueue(&handle, TenantCommand::Start).unwrap();
    let mut cycle = host.dispatch();
    assert!(matches!(
        host.advance(&mut cycle),
        DispatchStep::StartNode(_)
    ));
    *host.node_mut(&handle).unwrap() = "started";
    assert_eq!(host.context(&handle).unwrap().state(), TenantState::Starting);
    host.node_started(&mut cycle, Ok(()), true);
    assert!(matches!(host.advance(&mut cycle), DispatchStep::Complete));
    assert_eq!(cycle.into_outcomes()[0].result, Ok(()));
    assert_eq!(*host.context(&handle).unwrap().node(), "started");
    assert_eq!(host.context(&handle).unwrap().state(), TenantState::Running);
}

#[test]
fn resuming_a_running_tenant_is_refused() {
    let mut host = TenantHost::default();
    let handle = host.register(running("tenant-a")).unwrap();
    assert_eq!(host.resume_tenant(&handle), Err(TenantError::NotSuspended));
    host.enqueue(&handle, TenantCommand::Resume).unwrap();
    assert_eq!(
        run(&mut host)[0].result,
        Err("tenant runtime is not suspended".to_owned())
    );
    assert_eq!(host.context(&handle).unwrap().state(), TenantState::Running);
}

#[test]
fn commands_are_answered_once_in_the_order_of_admission() {
    let mut host = TenantHost::new(3);
    let a = host.register(context("tenant-a")).unwrap();
    let b = host.register(context("tenant-b")).unwrap();
    let mut ids_a = Vec::new();
    let mut ids_b = Vec::new();
    for command in [
        TenantCommand::Start,
        TenantCommand::Suspend,
        TenantCommand::Resume,
        TenantCommand::Stop,
    ] {
        ids_a.push(host.enqueue(&a, command).unwrap());
        ids_b.push(host.enqueue(&b, command).unwrap());
    }
    let mut answered: Vec<TenantCommandOutcome> = Vec::new();
    loop {
        let outcomes = run(&mut host);
        if outcomes.is_empty() {
            break;
        }
        assert!(outcomes.len() <= 3);
        answered.extend(outcomes);
    }
    let of = |id: &str| -> Vec<UUID4> {
        answered
            .iter()
            .filter(|outcome| outcome.tenant_id.as_str() == id)
            .map(|outcome| outcome.correlation_id)
            .collect()
    };
    assert_eq!(of("tenant-a"), ids_a);
    assert_eq!(of("tenant-b"), ids_b);
    assert_eq!(answered.len(), 8);
}

#[test]
fn destroying_a_tenant_drops_its_queued_commands() {
    let mut host = TenantHost::default();
    let handle = host.register(context("tenant-a")).unwrap();
    let destroy = host.enqueue(&handle, TenantCommand::Destroy).unwrap();
    host.enqueue(&handle, TenantCommand::Start).unwrap();
    let outcomes = run(&mut host);
    assert_eq!(outcomes.len(), 1);
    assert_eq!(outcomes[0].correlation_id, destroy);
    assert!(run(&mut host).is_empty());
}

#[test]
fn capabilities_and_correlation_ids_are_newly_drawn() {
    let mut host = TenantHost::default();
    let context_a = context("tenant-a");
    let runtime = context_a.runtime_instance_id();
    let handle = host.register(context_a).unwrap();
    let first = host.enqueue(&handle, TenantCommand::Start).unwrap();
    let second = host.enqueue(&handle, TenantCommand::Start).unwrap();
    assert_ne!(first, second);
    assert_ne!(first, runtime);
    assert_ne!(second, runtime);

    let mut other = TenantHost::default();
    let forged = other.register(context("tenant-a")).unwrap();
    assert_ne!(handle, forged);
}
