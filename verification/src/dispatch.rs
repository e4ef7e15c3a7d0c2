//! Per-message dispatch: resolve the tenant's targets through the cache and
//! decide what the host must do with the message.
//!
//! The decision discipline: a resolved, non-empty target set fans the
//! message out as one work item per target; an explicitly empty set marks
//! the message handled with no downstream work; a miss or a retryable cache
//! error routes the original message, unmodified, to the retry channel and
//! marks it handled (the retry channel then owns redelivery); a fatal cache
//! error aborts the loop. After every handled message the host commits the
//! consumer's read offset; a commit failure is fatal. Messages are handled
//! and committed strictly in source order.

use vstd::prelude::*;

use crate::cache::CacheError;
use crate::cache::GetCase;
use crate::cache::TargetCache;
use crate::envelope::Envelope;
use crate::envelope::EnvelopeModel;
use crate::envelope::WorkItem;
use crate::envelope::WorkItemModel;

verus! {

/// What the dispatch loop must do with one message, decided from the cache
/// lookup alone.
pub enum DispatchAction {
    /// Enqueue every carried work item (one per resolved target), then mark
    /// the message handled.
    FanOut(Vec<WorkItem>),
    /// Mark the message handled; there is no downstream work for it.
    MarkHandled,
    /// Publish the carried envelope — the original message, unmodified — on
    /// the retry channel, then mark the message handled; the retry channel
    /// owns redelivery from here. A failure to publish it is fatal.
    RetryRoute(Envelope),
    /// Terminate the dispatch loop; external supervision restarts it.
    Abort(CacheError),
}

/// The fan-out of a message with content `e` over `targets`: one work item
/// per target, all sharing the payload and routing ids, each bound to its
/// own target id.
pub open spec fn fan_out_items(e: EnvelopeModel, targets: Seq<u128>) -> Seq<WorkItemModel> {
    Seq::new(targets.len(), |i: int| WorkItemModel::of_envelope(e, targets[i]))
}

/// Build the work items that dispatch one message to `targets`: exactly one
/// item per target, in target order.
pub fn build_work_items(envelope: &Envelope, targets: &Vec<u128>) -> (items: Vec<WorkItem>)
    ensures
        items.deep_view() == fan_out_items(envelope@, targets@),
        items@.len() == targets@.len(),
{
    let mut items: Vec<WorkItem> = Vec::new();
    let mut i: usize = 0;
    while i < targets.len()
        invariant
            i <= targets@.len(),
            items@.len() == i,
            forall|j: int| 0 <= j < i ==> items@[j]@ == WorkItemModel::of_envelope(
                envelope@,
                targets@[j],
            ),
        decreases targets@.len() - i,
    {
        items.push(
            WorkItem {
                payload: envelope.payload.clone(),
                tenant_id: envelope.tenant_id,
                trace_id: envelope.trace_id,
                event_source_id: envelope.event_source_id,
                target_id: targets[i],
            },
        );
        i = i + 1;
    }
    proof {
        assert(items.deep_view() =~= fan_out_items(envelope@, targets@));
    }
    items
}

/// What one pull from the source stream yields: a message to dispatch, or a
/// per-message transport or deserialize failure whose rendered reason is
/// carried for logging.
pub enum SourceEvent {
    Message(Envelope),
    TransportError(String),
}

/// What the loop does with one pull before any cache work.
pub enum IntakeDecision {
    /// Dispatch the carried message.
    Dispatch(Envelope),
    /// A transport or deserialize error on this pull: log it, mark the
    /// message handled and commit its offset — the loop must not crash.
    SkipAndCommit(String),
}

/// Decide the intake of one pull: a message goes on to dispatch; a
/// per-message transport error is recovered by skip-and-commit, never by
/// terminating the loop.
pub fn classify_pull(event: SourceEvent) -> (r: IntakeDecision)
    ensures
        event matches SourceEvent::Message(e) ==> (r matches IntakeDecision::Dispatch(d)
            && e.same_message(d)),
        event matches SourceEvent::TransportError(m) ==> (r matches IntakeDecision::SkipAndCommit(
            reason,
        ) && reason@ == m@),
{
    match event {
        SourceEvent::Message(envelope) => IntakeDecision::Dispatch(envelope),
        SourceEvent::TransportError(reason) => IntakeDecision::SkipAndCommit(reason),
    }
}

/// Resolve the envelope's tenant through the cache at time `now` and decide
/// the action for this message. The cache transition is exactly that of
/// `TargetCache::get` for the tenant key.
pub fn dispatch_message(cache: &mut TargetCache, envelope: Envelope, now: u64) -> (action:
    DispatchAction)
    requires
        old(cache).wf(),
    ensures
        final(cache).wf(),
        old(cache).same_config(*final(cache)),
        final(cache).entries@ == old(cache).entries_after_get(envelope.tenant_id, now),
        final(cache).pending@ == old(cache).pending_after_get(envelope.tenant_id, now),
        final(cache).failures@ == old(cache).failures_after_get(envelope.tenant_id, now),
        ({
            let c = *old(cache);
            let key = envelope.tenant_id;
            &&& (c.get_case(key, now) is Hit && c.entry_at(key).targets@.len() > 0) ==> (action
                matches DispatchAction::FanOut(items) && items.deep_view() == fan_out_items(
                envelope@,
                c.entry_at(key).targets@,
            ))
            &&& (c.get_case(key, now) is Hit && c.entry_at(key).targets@.len() == 0)
                ==> action is MarkHandled
            &&& c.get_case(key, now) is Miss ==> (action matches DispatchAction::RetryRoute(e)
                && envelope.same_message(e))
            &&& (c.get_case(key, now) is Failure && c.failure_at(key).retryable) ==> (action
                matches DispatchAction::RetryRoute(e) && envelope.same_message(e))
            &&& (c.get_case(key, now) is Failure && !c.failure_at(key).retryable) ==> (action
                matches DispatchAction::Abort(err) && err matches CacheError::Fatal(m) && m@ == c
                .failure_at(key).reason@)
        }),
{
    let key = envelope.tenant_id;
    match cache.get(key, now) {
        Ok(Some(targets)) => {
            if targets.len() == 0 {
                DispatchAction::MarkHandled
            } else {
                let items = build_work_items(&envelope, &targets);
                DispatchAction::FanOut(items)
            }
        },
        Ok(None) => DispatchAction::RetryRoute(envelope),
        Err(CacheError::Retryable(_)) => DispatchAction::RetryRoute(envelope),
        Err(CacheError::Fatal(reason)) => DispatchAction::Abort(CacheError::Fatal(reason)),
    }
}

/// The outcome of a concurrent fan-out, given the per-target enqueue results
/// in issue order (`true` is an acknowledged enqueue). Fail-fast: the
/// fan-out's error is the first failed enqueue; the host stops issuing
/// further enqueues after it and does not retract the ones already made.
pub fn first_enqueue_failure(results: &Vec<bool>) -> (r: Option<usize>)
    ensures
        r matches Some(i) ==> i < results@.len() && !results@[i as int] && (forall|j: int|
            0 <= j < i ==> results@[j]),
        r is None <==> (forall|j: int| 0 <= j < results@.len() ==> results@[j]),
{
    let mut i: usize = 0;
    while i < results.len()
        invariant
            i <= results@.len(),
            forall|j: int| 0 <= j < i ==> results@[j],
        decreases results@.len() - i,
    {
        if !results[i] {
            return Some(i);
        }
        i = i + 1;
    }
    None
}

/// The sequential-commit state of one dispatch loop: how many messages have
/// been handled and committed, and whether the loop is still live. Message
/// N + 1 is not begun until message N is handled and committed, so the
/// committed count advances by exactly one per message, in source order.
pub struct DispatchLoopState {
    pub committed: u64,
    pub live: bool,
}

impl DispatchLoopState {
    pub fn new() -> (s: DispatchLoopState)
        ensures
            s.committed == 0,
            s.live,
    {
        DispatchLoopState { committed: 0, live: true }
    }

    /// Record that the current message was handled and its offset commit
    /// attempted. A successful commit advances the committed offset by one;
    /// a commit failure is fatal and ends the loop with the offset
    /// unchanged.
    pub fn message_handled(&mut self, commit_ok: bool)
        requires
            old(self).live,
            old(self).committed < u64::MAX,
        ensures
            commit_ok ==> final(self).committed == old(self).committed + 1 && final(self).live,
            !commit_ok ==> final(self).committed == old(self).committed && !final(self).live,
    {
        if commit_ok {
            self.committed = self.committed + 1;
        } else {
            self.live = false;
        }
    }

    /// Record a fatal dispatch outcome: the loop terminates and the current
    /// message's offset is not committed.
    pub fn aborted(&mut self)
        ensures
            final(self).committed == old(self).committed,
            !final(self).live,
    {
        self.live = false;
    }
}

/// Fan-out shape: over pairwise-distinct targets, dispatching one message
/// yields exactly one work item per target, all sharing the message's
/// payload, tenant, trace and event-source ids, with pairwise-distinct
/// target ids.
pub proof fn lemma_fan_out_shape(e: EnvelopeModel, targets: Seq<u128>)
    requires
        forall|p: int, q: int| 0 <= p < q < targets.len() ==> targets[p] != targets[q],
    ensures
        fan_out_items(e, targets).len() == targets.len(),
        forall|i: int|
            0 <= i < targets.len() ==> {
                let w = #[trigger] fan_out_items(e, targets)[i];
                &&& w.payload == e.payload
                &&& w.tenant_id == e.tenant_id
                &&& w.trace_id == e.trace_id
                &&& w.event_source_id == e.event_source_id
                &&& w.target_id == targets[i]
            },
        forall|p: int, q: int|
            0 <= p < q < targets.len() ==> fan_out_items(e, targets)[p].target_id != fan_out_items(
                e,
                targets,
            )[q].target_id,
{
}

/// An explicitly empty target set produces no work item and no retry: the
/// lookup is a hit (so the message is marked handled and its offset
/// committed, never retry-routed) and its fan-out is empty.
pub proof fn lemma_empty_targets_no_work(c: TargetCache, e: EnvelopeModel, now: u64)
    requires
        c.wf(),
        c.fresh_at(e.tenant_id, now),
        c.entry_at(e.tenant_id).targets@.len() == 0,
    ensures
        c.get_case(e.tenant_id, now) is Hit,
        fan_out_items(e, c.entry_at(e.tenant_id).targets@) == Seq::<WorkItemModel>::empty(),
{
    assert(fan_out_items(e, c.entry_at(e.tenant_id).targets@) =~= Seq::<WorkItemModel>::empty());
}

} // verus!
