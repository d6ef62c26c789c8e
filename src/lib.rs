//! A typed publish/subscribe entity model: participants own a tree of
//! publishers, subscribers, topics, writers and readers, each named by a
//! handle, with QoS records, a topic registry and per-reader history caches.

pub mod common;
pub mod qos;
pub mod domain;
pub mod subscriber;
pub mod publisher;
pub mod topic;
pub mod dynamic;
pub mod statistics;

use vstd::prelude::*;

verus! {

/// LIVELINESS_LOST status of a writer.
#[derive(Debug, Clone, Copy, PartialEq, Eq, Structural)]
pub struct LivelinessLostStatus {
    pub total_count: u32,
    pub total_count_change: i32,
}

/// OFFERED_DEADLINE_MISSED status of a writer.
#[derive(Debug, Clone, Copy, PartialEq, Eq, Structural)]
pub struct OfferedDeadlineMissedStatus {
    pub total_count: u32,
    pub total_count_change: i32,
    pub last_instance_handle: u64,
}

/// OFFERED_INCOMPATIBLE_QOS status of a writer.
#[derive(Debug, Clone, Copy, PartialEq, Eq, Structural)]
pub struct OfferedIncompatibleQosStatus {
    pub total_count: u32,
    pub total_count_change: i32,
    pub last_policy_id: u32,
}

/// SUBSCRIPTION_MATCHED status of a reader.
#[derive(Debug, Clone, Copy, PartialEq, Eq, Structural)]
pub struct SubscriptionMatchedStatus {
    pub total_count: u32,
    pub total_count_change: i32,
    pub current_count: u32,
    pub current_count_change: i32,
    pub last_publication_handle: u64,
}

/// LIVELINESS_CHANGED status of a reader.
#[derive(Debug, Clone, Copy, PartialEq, Eq, Structural)]
pub struct LivelinessChangedStatus {
    pub alive_count: u32,
    pub not_alive_count: u32,
    pub alive_count_change: i32,
    pub not_alive_count_change: i32,
    pub last_publication_handle: u64,
}

/// SAMPLE_REJECTED status of a reader.
#[derive(Debug, Clone, Copy, PartialEq, Eq, Structural)]
pub struct SampleRejectedStatus {
    pub total_count: u32,
    pub total_count_change: i32,
    pub last_reason: u32,
    pub last_instance_handle: u64,
}

/// SAMPLE_LOST status of a reader.
#[derive(Debug, Clone, Copy, PartialEq, Eq, Structural)]
pub struct SampleLostStatus {
    pub total_count: u32,
    pub total_count_change: i32,
}

/// REQUESTED_DEADLINE_MISSED status of a reader.
#[derive(Debug, Clone, Copy, PartialEq, Eq, Structural)]
pub struct RequestDeadlineMissedStatus {
    pub total_count: u32,
    pub total_count_change: i32,
    pub last_instance_handle: u64,
}

/// REQUESTED_INCOMPATIBLE_QOS status of a reader.
#[derive(Debug, Clone, Copy, PartialEq, Eq, Structural)]
pub struct RequestIncompatibleQosStatus {
    pub total_count: u32,
    pub total_count_change: i32,
    pub last_policy_id: u32,
}

/// INCONSISTENT_TOPIC status of a topic.
#[derive(Debug, Clone, Copy, PartialEq, Eq, Structural)]
pub struct InconsistentTopicStatus {
    pub total_count: u32,
    pub total_count_change: i32,
}

/// Presentation QoS: Applies to Publisher, Subscriber.
#[derive(Debug, Clone, Copy, PartialEq, Eq, Structural)]
pub enum PresentationAccessScopeKind {
    Instance,
    Topic,
}

/// Type-consistency QoS: Applies to DataReader, DataWriter.
#[derive(Debug, Clone, Copy, PartialEq, Eq, Structural)]
pub enum ConsistencyKind {
    DisallowTypeCoercion,
    AllowTypeCoercion,
}

/// One status of any kind.
pub enum Statuses {
    InconsistentTopicStatus(InconsistentTopicStatus),
    OfferedDeadlineMissedStatus(OfferedDeadlineMissedStatus),
    OfferedIncompatibleQosStatus(OfferedIncompatibleQosStatus),
    LivelinessLostStatus(LivelinessLostStatus),
    PublicationMatchedStatus(crate::publisher::PublicationMatchedStatus),
    RequestDeadlineMissedStatus,
    RequestIncompatibleQosStatus,
    SampleRejectedStatus,
    LivelinessChangedStatus,
    SubscriptionMatchedStatus,
    SampleLostStatus,
}

} // verus!
