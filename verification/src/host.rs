//! The process-level host of tenant runtimes.

use std::collections::VecDeque;

use vstd::prelude::*;

use crate::context::{TenantContext, TenantContextView};
use crate::errors::{TenantError, TenantQueueError};
use crate::host_invariant::{
    destroying_keeps_the_invariant, enqueueing_keeps_the_invariant,
    registering_keeps_the_invariant, replacing_a_context_keeps_the_invariant,
    taking_a_command_keeps_the_invariant,
};
use crate::host_model::{
    without, TenantEntryView, TenantHandleView, TenantHostView, TenantQueueView,
};
use crate::identifiers::{is_uuid4_text, UUID4};
use crate::lifecycle::{NodeAction, TenantCommand, TenantState};
use crate::tenant::{TenantEnvelope, TenantEnvelopeView, TenantId};
use crate::tenant_map::TenantMap;

verus! {

/// An opaque authenticated capability for one tenant.
///
/// The tenant identifier is intentionally not sufficient to obtain this value. Application
/// handlers should retain the capability returned by [`TenantHost::register`], after
/// authentication and authorization, and pass it to tenant operations.
#[derive(Debug, Eq, Hash, PartialEq)]
pub struct TenantHandle {
    tenant_id: TenantId,
    capability: UUID4,
}

impl View for TenantHandle {
    type V = TenantHandleView;

    closed spec fn view(&self) -> TenantHandleView {
        TenantHandleView { tenant_id: self.tenant_id@, capability: self.capability@ }
    }
}

impl TenantHandle {
    /// Returns the tenant selected by this authenticated capability.
    #[must_use]
    pub fn tenant_id(&self) -> (tenant_id: &TenantId)
        ensures
            tenant_id@ == self@.tenant_id,
    {
        &self.tenant_id
    }
}

impl Clone for TenantHandle {
    fn clone(&self) -> (handle: Self)
        ensures
            handle@ == self@,
    {
        TenantHandle { tenant_id: self.tenant_id.clone(), capability: self.capability }
    }
}

#[derive(Debug)]
struct TenantEntry<N> {
    handle: TenantHandle,
    context: TenantContext<N>,
}

impl<N> View for TenantEntry<N> {
    type V = TenantEntryView<N>;

    closed spec fn view(&self) -> TenantEntryView<N> {
        TenantEntryView { handle: self.handle@, context: self.context@ }
    }
}

#[derive(Debug)]
struct TenantCommandQueue {
    max_depth: usize,
    messages: VecDeque<TenantEnvelope<TenantCommand>>,
}

impl View for TenantCommandQueue {
    type V = TenantQueueView;

    closed spec fn view(&self) -> TenantQueueView {
        TenantQueueView {
            max_depth: self.max_depth as nat,
            messages: envelope_views(self.messages@),
        }
    }
}

spec fn envelope_views(messages: Seq<TenantEnvelope<TenantCommand>>) -> Seq<
    TenantEnvelopeView<TenantCommand>,
> {
    messages.map_values(|message: TenantEnvelope<TenantCommand>| message@)
}

spec fn entry_views<N>(entries: Map<Seq<char>, TenantEntry<N>>) -> Map<
    Seq<char>,
    TenantEntryView<N>,
> {
    entries.map_values(|entry: TenantEntry<N>| entry@)
}

spec fn queue_views(queues: Map<Seq<char>, TenantCommandQueue>) -> Map<Seq<char>, TenantQueueView> {
    queues.map_values(|queue: TenantCommandQueue| queue@)
}

spec fn capability_views(capabilities: Map<Seq<char>, UUID4>) -> Map<Seq<char>, Seq<char>> {
    capabilities.map_values(|capability: UUID4| capability@)
}

spec fn tenant_views(tenants: Seq<TenantId>) -> Seq<Seq<char>> {
    tenants.map_values(|tenant_id: TenantId| tenant_id@)
}

proof fn lemma_entry_views<N>(
    entries: Map<Seq<char>, TenantEntry<N>>,
    key: Seq<char>,
    entry: TenantEntry<N>,
)
    ensures
        entry_views(entries.insert(key, entry)) == entry_views(entries).insert(key, entry@),
        entry_views(entries.remove(key)) == entry_views(entries).remove(key),
{
    assert(entry_views(entries.insert(key, entry)) =~= entry_views(entries).insert(key, entry@));
    assert(entry_views(entries.remove(key)) =~= entry_views(entries).remove(key));
}

proof fn lemma_queue_views(
    queues: Map<Seq<char>, TenantCommandQueue>,
    key: Seq<char>,
    queue: TenantCommandQueue,
)
    ensures
        queue_views(queues.insert(key, queue)) == queue_views(queues).insert(key, queue@),
        queue_views(queues.remove(key)) == queue_views(queues).remove(key),
{
    assert(queue_views(queues.insert(key, queue)) =~= queue_views(queues).insert(key, queue@));
    assert(queue_views(queues.remove(key)) =~= queue_views(queues).remove(key));
}

proof fn lemma_capability_views(
    capabilities: Map<Seq<char>, UUID4>,
    key: Seq<char>,
    capability: UUID4,
)
    ensures
        capability_views(capabilities.insert(key, capability)) == capability_views(
            capabilities,
        ).insert(key, capability@),
        capability_views(capabilities.remove(key)) == capability_views(capabilities).remove(key),
{
    assert(capability_views(capabilities.insert(key, capability)) =~= capability_views(
        capabilities,
    ).insert(key, capability@));
    assert(capability_views(capabilities.remove(key)) =~= capability_views(capabilities).remove(
        key,
    ));
}

proof fn lemma_context_replaced<N>(
    host: TenantHostView<N>,
    tenant_id: Seq<char>,
    context: TenantContextView<N>,
)
    requires
        host.well_formed(),
        host.tenants.contains_key(tenant_id),
        context == host.tenants[tenant_id].context.in_state(context.state),
    ensures
        host.with_context(tenant_id, context).well_formed(),
        context == host.tenants[tenant_id].context ==> host.with_context(tenant_id, context)
            == host,
{
    replacing_a_context_keeps_the_invariant(host, tenant_id, context);
    if context == host.tenants[tenant_id].context {
        assert(host.with_context(tenant_id, context).tenants =~= host.tenants);
    }
}

/// Why a command is not dispatched to the context of its tenant, if it is not. There is no
/// context when the tenant is not registered.
pub open spec fn dispatch_refusal_text<N>(
    context: Option<TenantContextView<N>>,
    envelope: TenantEnvelopeView<TenantCommand>,
) -> Option<Seq<char>> {
    match context {
        None => Some("tenant was removed before dispatch"@),
        Some(context) => match envelope.scope_error(
            context.tenant_id,
            context.runtime_instance_id,
        ) {
            Some(error) => Some(error.message()),
            None => None,
        },
    }
}

/// Says why a command is not dispatched to the context of its tenant, if it is not.
pub fn dispatch_refusal<N>(
    context: Option<&TenantContext<N>>,
    envelope: &TenantEnvelope<TenantCommand>,
) -> (refusal: Option<String>)
    ensures
        match refusal {
            Some(text) => dispatch_refusal_text(
                (match context {
                    Some(context) => Some(context@),
                    None => None,
                }),
                envelope@,
            ) == Some(text@),
            None => context is Some && dispatch_refusal_text(Some(context->0@), envelope@) is None,
        },
{
    match context {
        Some(context) => match envelope.validate_scope(
            context.tenant_id(),
            context.runtime_instance_id(),
        ) {
            Ok(()) => None,
            Err(error) => Some(error.to_string()),
        },
        None => Some("tenant was removed before dispatch".to_owned()),
    }
}

/// Leaves a tenant out of the tenants to be served.
fn leave_out(ready: &mut VecDeque<TenantId>, tenant_id: &TenantId)
    ensures
        tenant_views(final(ready)@) == without(tenant_views(old(ready)@), tenant_id@),
{
    let ghost all = tenant_views(ready@);
    let mut kept: VecDeque<TenantId> = VecDeque::new();
    let ghost mut seen: int = 0;
    assert(tenant_views(kept@) =~= without(all.take(0), tenant_id@)) by {
        reveal(Seq::filter);
    }
    while ready.len() > 0
        invariant
            0 <= seen <= all.len(),
            tenant_views(ready@) == all.skip(seen),
            tenant_views(kept@) == without(all.take(seen), tenant_id@),
        decreases ready@.len(),
    {
        let ghost before = ready@;
        if let Some(other) = ready.pop_front() {
            proof {
                reveal(Seq::filter);
                assert(tenant_views(before)[0] == other@);
                assert(all.skip(seen).len() == before.len());
                assert(all.skip(seen)[0] == all[seen]);
                assert(all.take(seen + 1).drop_last() =~= all.take(seen));
                assert(all.take(seen + 1).last() == other@);
                assert(tenant_views(ready@) =~= tenant_views(before).drop_first());
                assert(all.skip(seen).drop_first() =~= all.skip(seen + 1));
            }
            let ghost kept_before = kept@;
            if &other != tenant_id {
                kept.push_back(other);
                assert(tenant_views(kept@) =~= tenant_views(kept_before).push(other@));
            }
            proof {
                seen = seen + 1;
            }
        }
    }
    assert(all.take(seen) =~= all);
    *ready = kept;
}

/// Process-level host for multiple tenant runtimes.
#[derive(Debug)]
pub struct TenantHost<N> {
    tenants: TenantMap<TenantEntry<N>>,
    destroyed: TenantMap<UUID4>,
    queues: TenantMap<TenantCommandQueue>,
    ready: VecDeque<TenantId>,
    max_dispatch_per_cycle: usize,
}

impl<N> View for TenantHost<N> {
    type V = TenantHostView<N>;

    closed spec fn view(&self) -> TenantHostView<N> {
        TenantHostView {
            tenants: entry_views(self.tenants@),
            destroyed: capability_views(self.destroyed@),
            queues: queue_views(self.queues@),
            ready: tenant_views(self.ready@),
            max_dispatch_per_cycle: self.max_dispatch_per_cycle as nat,
        }
    }
}

impl<N> Default for TenantHost<N> {
    fn default() -> (host: Self)
        ensures
            host.well_formed(),
            host@ == TenantHostView::<N>::empty(64),
    {
        TenantHost::new(64)
    }
}

impl<N> TenantHost<N> {
    /// No tenant occurs twice in the host's maps.
    pub closed spec fn maps_well_formed(self) -> bool {
        &&& self.tenants.well_formed()
        &&& self.destroyed.well_formed()
        &&& self.queues.well_formed()
    }

    /// What holds of every host.
    pub open spec fn well_formed(self) -> bool {
        &&& self.maps_well_formed()
        &&& self@.well_formed()
    }

    /// Creates a host with a bounded number of commands dispatched per scheduling cycle.
    #[must_use]
    pub fn new(max_dispatch_per_cycle: usize) -> (host: Self)
        ensures
            host.well_formed(),
            host@ == TenantHostView::<N>::empty(
                if max_dispatch_per_cycle == 0 {
                    1
                } else {
                    max_dispatch_per_cycle as nat
                },
            ),
    {
        let host = TenantHost {
            tenants: TenantMap::new(),
            destroyed: TenantMap::new(),
            queues: TenantMap::new(),
            ready: VecDeque::new(),
            max_dispatch_per_cycle: if max_dispatch_per_cycle == 0 {
                1
            } else {
                max_dispatch_per_cycle
            },
        };
        assert(host@.tenants =~= Map::empty());
        assert(host@.destroyed =~= Map::empty());
        assert(host@.queues =~= Map::empty());
        assert(host@.ready =~= Seq::empty());
        host
    }

    /// Registers a tenant runtime and returns its authenticated capability, which is newly drawn.
    pub fn register(&mut self, context: TenantContext<N>) -> (result: Result<
        TenantHandle,
        TenantError,
    >)
        requires
            old(self).well_formed(),
        ensures
            final(self).well_formed(),
            match result {
                Ok(handle) => {
                    &&& !old(self)@.tenants.contains_key(context@.tenant_id)
                    &&& handle@.tenant_id == context@.tenant_id
                    &&& is_uuid4_text(handle@.capability)
                    &&& exists|id: UUID4| #[trigger]
                        call_ensures(UUID4::new, (), id) && id@ == handle@.capability
                    &&& final(self)@ == old(self)@.registered(handle@, context@)
                },
                Err(error) => {
                    &&& old(self)@.tenants.contains_key(context@.tenant_id)
                    &&& error matches TenantError::AlreadyRegistered(tenant_id)
                    &&& tenant_id@ == context@.tenant_id
                    &&& final(self)@ == old(self)@
                },
            },
    {
        let tenant_id = context.tenant_id().clone();
        if self.tenants.contains_key(&tenant_id) {
            return Err(TenantError::AlreadyRegistered(tenant_id));
        }
        let capability = UUID4::new();
        let handle = TenantHandle { tenant_id: tenant_id.clone(), capability };
        let max_depth = context.limits().max_queue_depth;
        let entry = TenantEntry { handle: handle.clone(), context };
        let queue = TenantCommandQueue { max_depth, messages: VecDeque::new() };
        proof {
            registering_keeps_the_invariant(self@, handle@, context@);
            lemma_entry_views(self.tenants@, tenant_id@, entry);
            lemma_queue_views(self.queues@, tenant_id@, queue);
            lemma_capability_views(self.destroyed@, tenant_id@, capability);
            assert(queue@.messages =~= Seq::empty());
        }
        self.destroyed.remove(&tenant_id);
        self.tenants.insert(tenant_id.clone(), entry);
        self.queues.insert(tenant_id, queue);
        Ok(handle)
    }

    /// Returns the number of registered tenants.
    #[must_use]
    pub fn tenant_count(&self) -> (count: usize)
        requires
            self.well_formed(),
        ensures
            count == self@.tenants.dom().len(),
            self@.tenants.dom().finite(),
    {
        assert(self@.tenants.dom() =~= self.tenants@.dom());
        self.tenants.len()
    }

    /// Returns the number of commands dispatched per scheduling cycle.
    pub fn max_dispatch_per_cycle(&self) -> (count: usize)
        ensures
            count == self@.max_dispatch_per_cycle,
    {
        self.max_dispatch_per_cycle
    }

    /// Enqueues a lifecycle command after validating the opaque tenant capability, and returns
    /// the newly drawn correlation identifier of the command.
    pub fn enqueue(&mut self, handle: &TenantHandle, command: TenantCommand) -> (result: Result<
        UUID4,
        TenantQueueError,
    >)
        requires
            old(self).well_formed(),
        ensures
            final(self).well_formed(),
            match result {
                Ok(correlation_id) => {
                    &&& old(self)@.enqueue_error(handle@, command) is None
                    &&& is_uuid4_text(correlation_id@)
                    &&& call_ensures(UUID4::new, (), correlation_id)
                    &&& final(self)@ == old(self)@.enqueued(handle@, command, correlation_id@)
                },
                Err(error) => {
                    &&& old(self)@.enqueue_error(handle@, command) == Some(error)
                    &&& final(self)@ == old(self)@
                },
            },
    {
        let tenant_id = handle.tenant_id();
        let entry = match self.tenants.get(tenant_id) {
            Some(entry) => entry,
            None => return Err(TenantQueueError::UnknownTenant),
        };
        if entry.handle.capability != handle.capability {
            return Err(TenantQueueError::UnknownTenant);
        }
        if entry.context.state() == TenantState::Suspended && command != TenantCommand::Resume {
            return Err(TenantQueueError::Suspended);
        }
        let envelope = entry.context.envelope(command);
        let correlation_id = envelope.correlation_id;
        assert(self@.queues.contains_key(tenant_id@)) by {
            assert(self@.tenants.contains_key(tenant_id@));
        }
        let ghost queues = self.queues@;
        let ghost message = envelope;
        let queue = match self.queues.get_mut(tenant_id) {
            Some(queue) => queue,
            None => return Err(TenantQueueError::UnknownTenant),
        };
        if queue.messages.len() >= queue.max_depth {
            assert(queues.insert(tenant_id@, *queue) =~= queues);
            return Err(TenantQueueError::QueueFull);
        }
        let was_empty = queue.messages.len() == 0;
        queue.messages.push_back(envelope);
        proof {
            let after = *queue;
            assert(after@.messages =~= queues[tenant_id@]@.messages.push(message@));
            lemma_queue_views(queues, tenant_id@, after);
            enqueueing_keeps_the_invariant(old(self)@, handle@, command, correlation_id@);
        }
        if was_empty {
            self.ready.push_back(tenant_id.clone());
            assert(self@.ready =~= old(self)@.ready.push(tenant_id@));
        }
        Ok(correlation_id)
    }

    /// Returns a tenant context after validating its authenticated capability.
    pub fn context(&self, handle: &TenantHandle) -> (result: Result<&TenantContext<N>, TenantError>)
        requires
            self.well_formed(),
        ensures
            match result {
                Ok(context) => {
                    &&& self@.access_error(handle@) is None
                    &&& context@ == self@.context(handle@)
                },
                Err(error) => self@.access_error(handle@) == Some(error),
            },
    {
        match self.tenants.get(handle.tenant_id()) {
            Some(entry) => {
                if entry.handle.capability == handle.capability {
                    Ok(&entry.context)
                } else {
                    Err(TenantError::NotAuthorized)
                }
            },
            None => Err(TenantError::NotRegistered),
        }
    }

    fn context_mut(&mut self, handle: &TenantHandle) -> (result: Result<
        &mut TenantContext<N>,
        TenantError,
    >)
        requires
            old(self).well_formed(),
        ensures
            final(self).maps_well_formed(),
            match result {
                Ok(context) => {
                    &&& old(self)@.access_error(handle@) is None
                    &&& context@ == old(self)@.context(handle@)
                    &&& final(self)@ == old(self)@.with_context(
                        handle@.tenant_id,
                        final(context)@,
                    )
                },
                Err(error) => {
                    &&& old(self)@.access_error(handle@) == Some(error)
                    &&& final(self)@ == old(self)@
                },
            },
    {
        let ghost tenants = self.tenants@;
        let ghost tenant_id = handle@.tenant_id;
        match self.tenants.get_mut(handle.tenant_id()) {
            Some(entry) => {
                if entry.handle.capability == handle.capability {
                    proof {
                        assert forall|after: TenantEntry<N>| #[trigger]
                            entry_views(tenants.insert(tenant_id, after)) == entry_views(
                                tenants,
                            ).insert(tenant_id, after@) by {
                            lemma_entry_views(tenants, tenant_id, after);
                        }
                    }
                    Ok(&mut entry.context)
                } else {
                    assert(tenants.insert(tenant_id, *entry) =~= tenants);
                    Err(TenantError::NotAuthorized)
                }
            },
            None => Err(TenantError::NotRegistered),
        }
    }

    /// Returns the node of a tenant, for its owner to operate on, after validating the tenant's
    /// authenticated capability.
    pub fn node_mut(&mut self, handle: &TenantHandle) -> (result: Result<&mut N, TenantError>)
        requires
            old(self).well_formed(),
        ensures
            final(self).well_formed(),
            match result {
                Ok(node) => {
                    &&& old(self)@.access_error(handle@) is None
                    &&& *node == old(self)@.context(handle@).node
                    &&& final(self)@ == old(self)@.with_context(
                        handle@.tenant_id,
                        old(self)@.context(handle@).with_node(*final(node)),
                    )
                },
                Err(error) => {
                    &&& old(self)@.access_error(handle@) == Some(error)
                    &&& final(self)@ == old(self)@
                },
            },
    {
        proof {
            assert forall|node: N| old(self)@.access_error(handle@) is None implies #[trigger]
                old(self)@.with_context(
                    handle@.tenant_id,
                    old(self)@.context(handle@).with_node(node),
                ).well_formed() by {
                replacing_a_context_keeps_the_invariant(
                    old(self)@,
                    handle@.tenant_id,
                    old(self)@.context(handle@).with_node(node),
                );
            }
        }
        match self.context_mut(handle) {
            Ok(context) => Ok(context.node_mut()),
            Err(error) => Err(error),
        }
    }

    /// Begins to start a tenant runtime after validating its authenticated capability.
    pub fn start_tenant(&mut self, handle: &TenantHandle) -> (result: Result<
        NodeAction,
        TenantError,
    >)
        requires
            old(self).well_formed(),
        ensures
            final(self).well_formed(),
            match result {
                Ok(action) => {
                    &&& old(self)@.access_error(handle@) is None
                    &&& old(self)@.context(handle@).state.start() matches Ok((expected, state))
                    &&& action == expected
                    &&& final(self)@ == old(self)@.in_state(handle@.tenant_id, state)
                },
                Err(error) => {
                    &&& final(self)@ == old(self)@
                    &&& match old(self)@.access_error(handle@) {
                        Some(refusal) => error == refusal,
                        None => old(self)@.context(handle@).state.start() == Err::<(NodeAction, TenantState), _>(error),
                    }
                },
            },
    {
        let context = match self.context_mut(handle) {
            Ok(context) => context,
            Err(error) => return Err(error),
        };
        let result = context.start();
        proof {
            let after = *context;
            lemma_context_replaced(old(self)@, handle@.tenant_id, after@);
        }
        result
    }

    /// Begins to stop a tenant runtime after validating its authenticated capability, given whether
    /// the node is running.
    pub fn stop_tenant(&mut self, handle: &TenantHandle, node_running: bool) -> (result: Result<
        NodeAction,
        TenantError,
    >)
        requires
            old(self).well_formed(),
        ensures
            final(self).well_formed(),
            match result {
                Ok(action) => {
                    &&& old(self)@.access_error(handle@) is None
                    &&& old(self)@.context(handle@).state.stop(node_running) matches Ok((expected, state))
                    &&& action == expected
                    &&& final(self)@ == old(self)@.in_state(handle@.tenant_id, state)
                },
                Err(error) => {
                    &&& final(self)@ == old(self)@
                    &&& match old(self)@.access_error(handle@) {
                        Some(refusal) => error == refusal,
                        None => old(self)@.context(handle@).state.stop(node_running) == Err::<(NodeAction, TenantState), _>(error),
                    }
                },
            },
    {
        let context = match self.context_mut(handle) {
            Ok(context) => context,
            Err(error) => return Err(error),
        };
        let result = context.stop(node_running);
        proof {
            let after = *context;
            lemma_context_replaced(old(self)@, handle@.tenant_id, after@);
        }
        result
    }

    /// Suspends a tenant runtime after validating its authenticated capability.
    pub fn suspend_tenant(&mut self, handle: &TenantHandle) -> (result: Result<
        (),
        TenantError,
    >)
        requires
            old(self).well_formed(),
        ensures
            final(self).well_formed(),
            match result {
                Ok(()) => {
                    &&& old(self)@.access_error(handle@) is None
                    &&& old(self)@.context(handle@).state.suspend() matches Ok(state)
                    &&& final(self)@ == old(self)@.in_state(handle@.tenant_id, state)
                },
                Err(error) => {
                    &&& final(self)@ == old(self)@
                    &&& match old(self)@.access_error(handle@) {
                        Some(refusal) => error == refusal,
                        None => old(self)@.context(handle@).state.suspend() == Err::<TenantState, _>(error),
                    }
                },
            },
    {
        let context = match self.context_mut(handle) {
            Ok(context) => context,
            Err(error) => return Err(error),
        };
        let result = context.suspend();
        proof {
            let after = *context;
            lemma_context_replaced(old(self)@, handle@.tenant_id, after@);
        }
        result
    }

    /// Resumes a tenant runtime after validating its authenticated capability.
    pub fn resume_tenant(&mut self, handle: &TenantHandle) -> (result: Result<
        (),
        TenantError,
    >)
        requires
            old(self).well_formed(),
        ensures
            final(self).well_formed(),
            match result {
                Ok(()) => {
                    &&& old(self)@.access_error(handle@) is None
                    &&& old(self)@.context(handle@).state.resume() matches Ok(state)
                    &&& final(self)@ == old(self)@.in_state(handle@.tenant_id, state)
                },
                Err(error) => {
                    &&& final(self)@ == old(self)@
                    &&& match old(self)@.access_error(handle@) {
                        Some(refusal) => error == refusal,
                        None => old(self)@.context(handle@).state.resume() == Err::<TenantState, _>(error),
                    }
                },
            },
    {
        let context = match self.context_mut(handle) {
            Ok(context) => context,
            Err(error) => return Err(error),
        };
        let result = context.resume();
        proof {
            let after = *context;
            lemma_context_replaced(old(self)@, handle@.tenant_id, after@);
        }
        result
    }

    /// Completes the start of a tenant runtime with the node's answer, which is also the answer to
    /// the start.
    pub fn finish_start_tenant(
        &mut self,
        handle: &TenantHandle,
        result: Result<(), String>,
        node_running: bool,
    ) -> (answer: Result<(), String>)
        requires
            old(self).well_formed(),
            old(self)@.access_error(handle@) is None ==> old(self)@.context(handle@).state
                == TenantState::Starting,
        ensures
            final(self).well_formed(),
            match old(self)@.access_error(handle@) {
                None => {
                    &&& answer == result
                    &&& final(self)@ == old(self)@.in_state(
                        handle@.tenant_id,
                        TenantState::after_start(result is Ok, node_running),
                    )
                },
                Some(refusal) => {
                    &&& answer matches Err(text)
                    &&& text@ == refusal.message()
                    &&& final(self)@ == old(self)@
                },
            },
    {
        let context = match self.context_mut(handle) {
            Ok(context) => context,
            Err(error) => return Err(error.to_string()),
        };
        let answer = context.finish_start(result, node_running);
        proof {
            let after = *context;
            lemma_context_replaced(old(self)@, handle@.tenant_id, after@);
        }
        answer
    }

    /// Completes the stop of a tenant runtime with the node's answer, which is also the answer to
    /// the stop.
    pub fn finish_stop_tenant(&mut self, handle: &TenantHandle, result: Result<(), String>) -> (answer:
        Result<(), String>)
        requires
            old(self).well_formed(),
            old(self)@.access_error(handle@) is None ==> old(self)@.context(handle@).state
                == TenantState::Stopping,
        ensures
            final(self).well_formed(),
            match old(self)@.access_error(handle@) {
                None => {
                    &&& answer == result
                    &&& final(self)@ == old(self)@.in_state(
                        handle@.tenant_id,
                        TenantState::Stopped,
                    )
                },
                Some(refusal) => {
                    &&& answer matches Err(text)
                    &&& text@ == refusal.message()
                    &&& final(self)@ == old(self)@
                },
            },
    {
        let context = match self.context_mut(handle) {
            Ok(context) => context,
            Err(error) => return Err(error.to_string()),
        };
        let answer = context.finish_stop(result);
        proof {
            let after = *context;
            lemma_context_replaced(old(self)@, handle@.tenant_id, after@);
        }
        answer
    }

    /// Destroys an idle or stopped tenant runtime after validating its authenticated capability.
    ///
    /// Returns the context that was removed, for its owner to dispose of the node, or nothing when
    /// the tenant had been destroyed with this capability before.
    pub fn destroy_tenant(&mut self, handle: &TenantHandle) -> (result: Result<
        Option<TenantContext<N>>,
        TenantError,
    >)
        requires
            old(self).well_formed(),
        ensures
            final(self).well_formed(),
            match result {
                Ok(Some(context)) => {
                    &&& old(self)@.destroy_error(handle@) is None
                    &&& old(self)@.tenants.contains_key(handle@.tenant_id)
                    &&& context@ == old(self)@.context(handle@).in_state(TenantState::Stopped)
                    &&& final(self)@ == old(self)@.destroyed_by(handle@)
                },
                Ok(None) => {
                    &&& old(self)@.destroy_error(handle@) is None
                    &&& !old(self)@.tenants.contains_key(handle@.tenant_id)
                    &&& final(self)@ == old(self)@
                },
                Err(error) => {
                    &&& old(self)@.destroy_error(handle@) == Some(error)
                    &&& final(self)@ == old(self)@
                },
            },
    {
        let tenant_id = handle.tenant_id();
        match self.tenants.get(tenant_id) {
            Some(entry) => {
                if entry.handle.capability != handle.capability {
                    return Err(TenantError::NotAuthorized);
                }
                let state = entry.context.state();
                if state != TenantState::Idle && state != TenantState::Stopped {
                    return Err(TenantError::StillActive);
                }
            },
            None => {
                return match self.destroyed.get(tenant_id) {
                    Some(capability) => if *capability == handle.capability {
                        Ok(None)
                    } else {
                        Err(TenantError::NotRegistered)
                    },
                    None => Err(TenantError::NotRegistered),
                };
            },
        }
        proof {
            destroying_keeps_the_invariant(self@, handle@);
            lemma_entry_views(self.tenants@, tenant_id@, self.tenants@[tenant_id@]);
            lemma_queue_views(self.queues@, tenant_id@, self.queues@[tenant_id@]);
            lemma_capability_views(self.destroyed@, tenant_id@, handle.capability);
        }
        let mut context = match self.tenants.remove(tenant_id) {
            Some(entry) => entry.context,
            None => return Err(TenantError::NotRegistered),
        };
        context.dispose();
        self.destroyed.insert(tenant_id.clone(), handle.capability);
        self.queues.remove(tenant_id);
        leave_out(&mut self.ready, tenant_id);
        Ok(Some(context))
    }

    /// Takes the next command from its queue.
    pub(crate) fn take_next(&mut self) -> (next: Option<(TenantId, TenantEnvelope<TenantCommand>)>)
        requires
            old(self).well_formed(),
        ensures
            final(self).well_formed(),
            match next {
                Some((tenant_id, envelope)) => {
                    &&& old(self)@.ready.len() > 0
                    &&& tenant_id@ == old(self)@.next_tenant()
                    &&& envelope@ == old(self)@.next_command()
                    &&& final(self)@ == old(self)@.popped()
                },
                None => old(self)@.ready.len() == 0 && final(self)@ == old(self)@,
            },
    {
        let ghost queues = self.queues@;
        let ghost ready = self.ready@;
        let tenant_id = match self.ready.pop_front() {
            Some(tenant_id) => tenant_id,
            None => return None,
        };
        proof {
            taking_a_command_keeps_the_invariant(old(self)@);
            assert(tenant_id@ == old(self)@.next_tenant());
            assert(queues.contains_key(tenant_id@));
            assert(queues[tenant_id@]@.messages.len() > 0);
        }
        let queue = match self.queues.get_mut(&tenant_id) {
            Some(queue) => queue,
            None => return None,
        };
        let envelope = match queue.messages.pop_front() {
            Some(envelope) => envelope,
            None => return None,
        };
        let more = queue.messages.len() > 0;
        proof {
            let after = *queue;
            assert(after@.messages =~= queues[tenant_id@]@.messages.drop_first());
            lemma_queue_views(queues, tenant_id@, after);
        }
        if more {
            self.ready.push_back(tenant_id.clone());
        }
        assert(self@.ready =~= old(self)@.popped().ready);
        Some((tenant_id, envelope))
    }

    /// Looks up the handle of the tenant that a dispatched command belongs to, or says why the
    /// command is refused.
    pub(crate) fn dispatch_handle(
        &self,
        tenant_id: &TenantId,
        envelope: &TenantEnvelope<TenantCommand>,
    ) -> (result: Result<TenantHandle, String>)
        requires
            self.well_formed(),
        ensures
            match result {
                Ok(handle) => {
                    &&& self@.tenants.contains_key(tenant_id@)
                    &&& dispatch_refusal_text(
                        Some(self@.tenants[tenant_id@].context),
                        envelope@,
                    ) is None
                    &&& handle@ == self@.tenants[tenant_id@].handle
                },
                Err(text) => dispatch_refusal_text(
                    if self@.tenants.contains_key(tenant_id@) {
                        Some(self@.tenants[tenant_id@].context)
                    } else {
                        None
                    },
                    envelope@,
                ) == Some(text@),
            },
    {
        match self.tenants.get(tenant_id) {
            Some(entry) => match dispatch_refusal(Some(&entry.context), envelope) {
                Some(text) => Err(text),
                None => Ok(entry.handle.clone()),
            },
            None => match dispatch_refusal::<N>(None, envelope) {
                Some(text) => Err(text),
                // Without a context there is always a refusal.
                None => Err(String::new()),
            },
        }
    }
}

} // verus!
