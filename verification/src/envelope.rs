//! The data model of the pipeline: envelopes on the source log and the work
//! items fanned out to downstream targets.
//!
//! Tenant, trace, event-source and target identifiers are 128-bit values
//! (the wire form renders them as UUIDs); the payload is the serialized
//! message body, carried unchanged through dispatch.

use vstd::prelude::*;

verus! {

/// A tenant-scoped message pulled from the source log: routing metadata plus
/// an opaque serialized payload. Immutable once created; dispatch carries it
/// unchanged.
pub struct Envelope {
    pub tenant_id: u128,
    pub trace_id: u128,
    pub event_source_id: u128,
    pub payload: Vec<u8>,
}

/// One unit of downstream work: the envelope's payload and metadata bound to
/// a single resolved target. Exactly one is created per (message, target)
/// pair.
pub struct WorkItem {
    pub payload: Vec<u8>,
    pub tenant_id: u128,
    pub trace_id: u128,
    pub event_source_id: u128,
    pub target_id: u128,
}

/// The mathematical content of an envelope: its routing metadata and its
/// payload as a byte sequence.
#[verifier::ext_equal]
pub struct EnvelopeModel {
    pub tenant_id: u128,
    pub trace_id: u128,
    pub event_source_id: u128,
    pub payload: Seq<u8>,
}

/// The mathematical content of a work item.
#[verifier::ext_equal]
pub struct WorkItemModel {
    pub payload: Seq<u8>,
    pub tenant_id: u128,
    pub trace_id: u128,
    pub event_source_id: u128,
    pub target_id: u128,
}

impl View for Envelope {
    type V = EnvelopeModel;

    open spec fn view(&self) -> EnvelopeModel {
        EnvelopeModel {
            tenant_id: self.tenant_id,
            trace_id: self.trace_id,
            event_source_id: self.event_source_id,
            payload: self.payload@,
        }
    }
}

impl View for WorkItem {
    type V = WorkItemModel;

    open spec fn view(&self) -> WorkItemModel {
        WorkItemModel {
            payload: self.payload@,
            tenant_id: self.tenant_id,
            trace_id: self.trace_id,
            event_source_id: self.event_source_id,
            target_id: self.target_id,
        }
    }
}

impl DeepView for Envelope {
    type V = EnvelopeModel;

    open spec fn deep_view(&self) -> EnvelopeModel {
        self.view()
    }
}

impl DeepView for WorkItem {
    type V = WorkItemModel;

    open spec fn deep_view(&self) -> WorkItemModel {
        self.view()
    }
}

impl Envelope {
    /// True when `other` carries the same routing metadata and the same
    /// payload bytes: the relation preserved by retry routing.
    pub open spec fn same_message(self, other: Envelope) -> bool {
        self@ == other@
    }

    pub fn new(tenant_id: u128, trace_id: u128, event_source_id: u128, payload: Vec<u8>) -> (e:
        Envelope)
        ensures
            e.tenant_id == tenant_id,
            e.trace_id == trace_id,
            e.event_source_id == event_source_id,
            e.payload@ == payload@,
    {
        Envelope { tenant_id, trace_id, event_source_id, payload }
    }

    pub fn tenant_id(&self) -> (id: u128)
        ensures
            id == self.tenant_id,
    {
        self.tenant_id
    }

    pub fn trace_id(&self) -> (id: u128)
        ensures
            id == self.trace_id,
    {
        self.trace_id
    }

    pub fn event_source_id(&self) -> (id: u128)
        ensures
            id == self.event_source_id,
    {
        self.event_source_id
    }
}

impl WorkItemModel {
    /// The work item that dispatching an envelope with content `e` produces
    /// for target `target_id`.
    pub open spec fn of_envelope(e: EnvelopeModel, target_id: u128) -> WorkItemModel {
        WorkItemModel {
            payload: e.payload,
            tenant_id: e.tenant_id,
            trace_id: e.trace_id,
            event_source_id: e.event_source_id,
            target_id,
        }
    }
}

} // verus!
