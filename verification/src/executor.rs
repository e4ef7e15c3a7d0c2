//! The lease/acknowledge loop of a plugin execution sidecar.
//!
//! The sidecar pulls one leased work item at a time from the work queue,
//! processes it, and decides the acknowledgment by the same retryable/fatal
//! classification the dispatch loop uses: a retriable failure is not
//! acknowledged (the queue's visibility timeout redelivers the item later);
//! a success or a permanent failure is acknowledged, removing the item for
//! good. Finding no work is not an error: the loop sleeps a fixed backoff
//! and pulls again. Only losing the ability to pull at all terminates it.

use vstd::prelude::*;
use vstd::string::StringExecFns;

use crate::envelope::WorkItem;
use crate::uid_allocator::hyphenated_of;
use crate::uid_allocator::tenant_hyphenated;

verus! {

/// How processing one work item ended.
pub enum ProcessOutcome {
    Success,
    /// A transient failure: the item should be redelivered and tried again.
    RetriableFailure(String),
    /// A permanent failure: retrying cannot help; the item is logged and
    /// removed, never retried.
    PermanentFailure(String),
}

/// What the sidecar pull returned.
pub enum PullEvent {
    /// The queue had no available item.
    NoWork,
    /// A leased item: the token must be used to acknowledge exactly this
    /// item.
    Job(u64, WorkItem),
    /// The pull itself failed terminally.
    PullFailed,
}

/// What the host must do after one pull.
pub enum ExecutorStep {
    /// Sleep the carried delay in milliseconds, then pull again; the loop
    /// does not terminate on an empty queue.
    Sleep(u64),
    /// Process the leased item, then decide acknowledgment with
    /// `should_acknowledge`.
    Process(u64, WorkItem),
    /// Exhausted the ability to pull new work: terminate fatally.
    Terminate,
}

/// The configuration of one execution sidecar: which plugin it serves and
/// the fixed delay slept when the queue is empty.
pub struct PluginExecutor {
    pub plugin_id: u128,
    pub empty_queue_backoff_ms: u64,
}

impl PluginExecutor {
    pub fn new(plugin_id: u128, empty_queue_backoff_ms: u64) -> (e: PluginExecutor)
        ensures
            e.plugin_id == plugin_id,
            e.empty_queue_backoff_ms == empty_queue_backoff_ms,
    {
        PluginExecutor { plugin_id, empty_queue_backoff_ms }
    }

    /// Decide the next step of the main loop from one pull: no work sleeps
    /// the fixed backoff and retries; an item is processed under its lease;
    /// a failed pull terminates the loop.
    pub fn next_step(&self, event: PullEvent) -> (step: ExecutorStep)
        ensures
            event is NoWork ==> (step matches ExecutorStep::Sleep(d) && d
                == self.empty_queue_backoff_ms),
            event matches PullEvent::Job(lease, item) ==> (step matches ExecutorStep::Process(
                l,
                w,
            ) && l == lease && w@ == item@),
            event is PullFailed ==> step is Terminate,
    {
        match event {
            PullEvent::NoWork => ExecutorStep::Sleep(self.empty_queue_backoff_ms),
            PullEvent::Job(lease, item) => ExecutorStep::Process(lease, item),
            PullEvent::PullFailed => ExecutorStep::Terminate,
        }
    }
}

/// The environment variable under which the mesh publishes a plugin's
/// upstream address.
pub fn plugin_upstream_env_var(plugin_id: u128) -> (r: String)
    ensures
        r@ == "NOMAD_UPSTREAM_ADDR_plugin-"@ + hyphenated_of(plugin_id),
{
    let mut name = String::new();
    name.append("NOMAD_UPSTREAM_ADDR_plugin-");
    let rendered = tenant_hyphenated(plugin_id);
    name.append(rendered.as_str());
    proof {
        assert(name@ =~= "NOMAD_UPSTREAM_ADDR_plugin-"@ + hyphenated_of(plugin_id));
    }
    name
}

/// The dial address for a plugin's upstream, given the address the mesh
/// published.
pub fn plugin_upstream_address(upstream_addr: &str) -> (r: String)
    ensures
        r@ == "http://"@ + upstream_addr@,
{
    let mut address = String::new();
    address.append("http://");
    address.append(upstream_addr);
    proof {
        assert(address@ =~= "http://"@ + upstream_addr@);
    }
    address
}

/// Whether a processing outcome is a retriable failure.
pub open spec fn spec_retriable(outcome: ProcessOutcome) -> bool {
    outcome is RetriableFailure
}

/// The acknowledgment decision: acknowledge on success and on permanent
/// failure (both are terminal for the item); do not acknowledge a retriable
/// failure, so the queue's visibility timeout makes the item available
/// again.
pub fn should_acknowledge(outcome: &ProcessOutcome) -> (ack: bool)
    ensures
        ack == !spec_retriable(*outcome),
{
    match outcome {
        ProcessOutcome::RetriableFailure(_) => false,
        ProcessOutcome::PermanentFailure(_) => true,
        ProcessOutcome::Success => true,
    }
}

/// The classification discipline shared with the dispatch loop: exactly the
/// retriable failures are left to redelivery, and every other outcome —
/// success or permanent failure — removes the item permanently.
pub proof fn lemma_ack_discipline(outcome: ProcessOutcome)
    ensures
        spec_retriable(outcome) <==> !(outcome is Success) && !(outcome is PermanentFailure),
{
}

} // verus!
