//! Checking a job plan from the cluster scheduler.
//!
//! Planning a job returns, per task group, the allocation failures the
//! scheduler foresees. A plan is only acted on when no task group failed to
//! allocate; otherwise the failures are surfaced so the job is not
//! submitted. The scheduler client itself is transport wiring left to the
//! host; the metrics are carried here as rendered text.

use vstd::prelude::*;
use vstd::string::StringExecFns;

verus! {

/// The base path of the scheduler's API for a given service address.
pub fn nomad_base_path(service_address: &str) -> (r: String)
    ensures
        r@ == "http://"@ + service_address@ + "/v1"@,
{
    let mut path = String::new();
    path.append("http://");
    path.append(service_address);
    path.append("/v1");
    proof {
        assert(path@ =~= "http://"@ + service_address@ + "/v1"@);
    }
    path
}

/// The allocation-relevant part of a job plan: for each task group that
/// failed to allocate, its name and the scheduler's allocation metrics.
pub struct JobPlanOutcome {
    pub failed_allocations: Vec<(String, String)>,
}

/// A plan whose allocations failed, carrying the failed task groups'
/// metrics.
pub enum JobPlanError {
    AllocationFail(Vec<String>),
}

impl JobPlanOutcome {
    /// Accept the plan only if every task group can be allocated: succeeds
    /// exactly when no allocation failure is listed, and otherwise hands
    /// back the failed groups' metrics in order.
    pub fn ensure_allocation(&self) -> (r: Result<(), JobPlanError>)
        ensures
            r is Ok <==> self.failed_allocations@.len() == 0,
            r matches Err(JobPlanError::AllocationFail(metrics)) ==> ({
                &&& metrics@.len() == self.failed_allocations@.len()
                &&& forall|i: int|
                    0 <= i < metrics@.len() ==> metrics@[i]@ == self.failed_allocations@[i].1@
            }),
    {
        if self.failed_allocations.len() == 0 {
            Ok(())
        } else {
            let mut metrics: Vec<String> = Vec::new();
            let mut i: usize = 0;
            while i < self.failed_allocations.len()
                invariant
                    i <= self.failed_allocations@.len(),
                    metrics@.len() == i,
                    forall|j: int|
                        0 <= j < i ==> metrics@[j]@ == self.failed_allocations@[j].1@,
                decreases self.failed_allocations@.len() - i,
            {
                metrics.push(self.failed_allocations[i].1.clone());
                i = i + 1;
            }
            Err(JobPlanError::AllocationFail(metrics))
        }
    }
}

} // verus!
