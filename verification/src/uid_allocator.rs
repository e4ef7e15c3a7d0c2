//! The service-level decisions of the uid allocator: how a requested
//! allocation count is interpreted, and how the service's errors map onto
//! RPC statuses. The allocation itself draws ranges from a counter store;
//! that call is the host's.

use vstd::prelude::*;
use vstd::string::StringExecFns;

verus! {

/// Requests may ask for zero ids as a sentinel meaning "let the server
/// decide the allocation size"; the server decides on this many.
pub const SERVER_CHOSEN_ALLOCATION: u32 = 1000;

/// Why the allocator refused a request.
pub enum UidAllocatorServiceError {
    /// The counter store failed; its rendered error is carried.
    Database(String),
    /// The tenant has no keyspace.
    UnknownTenant(u128),
}

/// An RPC status kind the service answers errors with.
pub enum StatusKind {
    Internal,
    NotFound,
}

/// An RPC status: its kind and its human-readable message.
pub struct Status {
    pub kind: StatusKind,
    pub message: String,
}

/// The name of a tenant id's hyphenated rendering: what `uuid` prints for
/// the 128-bit id by default. It depends on the id alone.
pub uninterp spec fn hyphenated_of(id: u128) -> Seq<char>;

/// Relies on `uuid::Uuid::from_u128` (big-endian) and its `Display`: the
/// default rendering of a UUID is the 36-character hyphenated form and is a
/// function of its 128 bits alone.
#[verifier::external_body]
pub(crate) fn tenant_hyphenated(id: u128) -> (r: String)
    ensures
        r@ == hyphenated_of(id),
        r@.len() == 36,
{
    uuid::Uuid::from_u128(id).to_string()
}

/// The count an allocation request is taken to ask for: zero is a sentinel
/// for the server's own choice; anything else stands as requested.
pub fn effective_allocation_count(count: u32) -> (r: u32)
    ensures
        count == 0 ==> r == SERVER_CHOSEN_ALLOCATION,
        count != 0 ==> r == count,
{
    if count == 0 {
        SERVER_CHOSEN_ALLOCATION
    } else {
        count
    }
}

/// The RPC status for a service error: a database failure is an internal
/// error; an unknown tenant is not found. The message names the cause.
pub fn status_for_error(err: UidAllocatorServiceError) -> (r: Status)
    ensures
        err matches UidAllocatorServiceError::Database(e) ==> (r.kind is Internal && r.message@
            == "Internal database error: "@ + e@),
        err matches UidAllocatorServiceError::UnknownTenant(tenant_id) ==> (r.kind is NotFound
            && r.message@ == "Unknown Tenant: "@ + hyphenated_of(tenant_id)),
{
    match err {
        UidAllocatorServiceError::Database(e) => {
            let mut message = String::new();
            message.append("Internal database error: ");
            message.append(e.as_str());
            proof {
                assert(message@ =~= "Internal database error: "@ + e@);
            }
            Status { kind: StatusKind::Internal, message }
        },
        UidAllocatorServiceError::UnknownTenant(tenant_id) => {
            let mut message = String::new();
            message.append("Unknown Tenant: ");
            let rendered = tenant_hyphenated(tenant_id);
            message.append(rendered.as_str());
            proof {
                assert(message@ =~= "Unknown Tenant: "@ + hyphenated_of(tenant_id));
            }
            Status { kind: StatusKind::NotFound, message }
        },
    }
}

} // verus!
