//! Requests to the replicated state machine and its responses.

use vstd::prelude::*;

use crate::auth::role::Permission;

verus! {

/// Identifier of a cluster node.
pub type NodeId = u64;

/// A key with its value and its history.
#[derive(Debug, Clone, PartialEq, Eq)]
pub struct KeyValue {
    pub key: Vec<u8>,
    pub value: Vec<u8>,
    pub create_revision: i64,
    pub mod_revision: i64,
    pub version: i64,
    pub lease: i64,
}

#[derive(Debug, Clone, Copy, PartialEq, Eq, Structural)]
pub enum CompareResult {
    Equal,
    Greater,
    Less,
    NotEqual,
}

#[derive(Debug, Clone, Copy, PartialEq, Eq, Structural)]
pub enum CompareTarget {
    Version,
    Create,
    Mod,
    Value,
    Lease,
}

/// What a key is compared with.
#[derive(Debug, Clone, PartialEq, Eq)]
pub enum TargetUnion {
    Version(i64),
    CreateRevision(i64),
    ModRevision(i64),
    Value(Vec<u8>),
    Lease(i64),
}

/// A condition of a transaction.
#[derive(Debug, Clone, PartialEq, Eq)]
pub struct Compare {
    pub result: CompareResult,
    pub target: CompareTarget,
    pub key: Vec<u8>,
    pub target_union: TargetUnion,
}

#[derive(Debug, Clone, Copy, PartialEq, Eq, Structural)]
pub enum SortOrder {
    Unsorted,
}

#[derive(Debug, Clone, Copy, PartialEq, Eq, Structural)]
pub enum SortTarget {
    Key,
}

#[derive(Debug, Clone, PartialEq, Eq)]
pub struct PutRequest {
    pub key: Vec<u8>,
    pub value: Vec<u8>,
    pub lease: i64,
    pub prev_kv: bool,
}

#[derive(Debug, Clone, PartialEq, Eq)]
pub struct RangeRequest {
    pub key: Vec<u8>,
    pub range_end: Vec<u8>,
    pub limit: i64,
    pub revision: i64,
    pub sort_order: SortOrder,
    pub sort_target: SortTarget,
}

#[derive(Debug, Clone, PartialEq, Eq)]
pub struct DeleteRequest {
    pub key: Vec<u8>,
    pub range_end: Vec<u8>,
    pub prev_kv: bool,
}

/// One operation of a transaction.
#[derive(Debug, PartialEq, Eq)]
pub enum Request {
    Put(PutRequest),
    Get(RangeRequest),
    Delete(DeleteRequest),
    Range(RangeRequest),
    Txn(Box<TxnRequest>),
}

#[derive(Debug, PartialEq, Eq)]
pub struct RequestOp {
    pub request: Option<Request>,
}

/// A transaction: conditions, and what is done if they hold and if not.
#[derive(Debug, PartialEq, Eq)]
pub struct TxnRequest {
    pub compare: Vec<Compare>,
    pub success: Vec<RequestOp>,
    pub failure: Vec<RequestOp>,
}

#[derive(Debug, Clone, PartialEq, Eq)]
pub struct PutResponse {
    pub prev_kv: Option<KeyValue>,
}

#[derive(Debug, Clone, PartialEq, Eq)]
pub struct RangeResponse {
    pub kvs: Vec<KeyValue>,
    pub count: i64,
}

#[derive(Debug, Clone, PartialEq, Eq)]
pub struct DeleteResponse {
    pub deleted: i64,
    pub prev_kvs: Vec<KeyValue>,
}

/// What one operation of a transaction gave.
#[derive(Debug, PartialEq, Eq)]
pub enum Response {
    Put(PutResponse),
    Get(RangeResponse),
    Delete(DeleteResponse),
    Range(RangeResponse),
    Txn(TxnResponse),
}

#[derive(Debug, PartialEq, Eq)]
pub struct ResponseOp {
    pub response: Option<Response>,
}

#[derive(Debug, PartialEq, Eq)]
pub struct TxnResponse {
    pub succeeded: bool,
    pub responses: Vec<ResponseOp>,
}

/// The epoch of a region.
#[derive(Debug, Clone, Copy, PartialEq, Eq, Structural)]
pub struct RegionEpoch {
    pub conf_ver: u64,
    pub version: u64,
}

/// A range of keys and the nodes that hold it.
#[derive(Debug, Clone, PartialEq, Eq)]
pub struct Region {
    pub id: u64,
    pub start_key: Vec<u8>,
    pub end_key: Vec<u8>,
    pub region_epoch: RegionEpoch,
    pub leader: u64,
    pub replicas: Vec<u64>,
}

/// A member of the cluster.
#[derive(Debug, Clone, PartialEq, Eq)]
pub struct ClusterMember {
    pub id: NodeId,
    pub addr: String,
    pub is_learner: bool,
}

/// What is proposed to the replicated state machine.
#[derive(Debug)]
pub enum RaftRequest {
    Put { key: Vec<u8>, value: Vec<u8>, lease_id: i64 },
    Delete { key: Vec<u8>, range_end: Vec<u8> },
    Txn { compare: Vec<Compare>, success: Vec<RequestOp>, failure: Vec<RequestOp> },
    LockAcquire { name: Vec<u8>, lease_id: i64 },
    LockRelease { key: Vec<u8> },
    BarrierCreate { name: Vec<u8>, lease_id: i64 },
    BarrierRelease { name: Vec<u8> },
    ElectionCampaign { name: Vec<u8>, lease_id: i64, value: Vec<u8> },
    ElectionResign { leader_key: Vec<u8> },
    QueueEnqueue { name: Vec<u8>, value: Vec<u8> },
    QueueDequeue { name: Vec<u8> },
    LeaseGrant { ttl: i64, expiry_time: i64 },
    LeaseRevoke { id: i64 },
    LeaseKeepAlive { id: i64, expiry_time: i64 },
    RegionSplit { region_id: u64, split_key: Vec<u8> },
    AuthUserAdd { name: Vec<u8>, password_hash: Vec<u8> },
    AuthUserDelete { name: Vec<u8> },
    AuthUserChangePassword { name: Vec<u8>, password_hash: Vec<u8> },
    AuthUserGrantRole { user: Vec<u8>, role: Vec<u8> },
    AuthUserRevokeRole { user: Vec<u8>, role: Vec<u8> },
    AuthRoleAdd { name: Vec<u8> },
    AuthRoleDelete { name: Vec<u8> },
    AuthRoleGrantPermission { role: Vec<u8>, permission: Permission },
    AuthRoleRevokePermission { role: Vec<u8>, permission: Permission },
    AuthEnable { root_password_hash: Vec<u8> },
    AuthDisable {},
}

/// What the replicated state machine answers.
#[derive(Debug)]
pub enum RaftResponse {
    Put { prev_kv: Option<KeyValue> },
    Delete { deleted: i64, prev_kvs: Vec<KeyValue> },
    Txn { succeeded: bool, responses: Vec<ResponseOp> },
    LockAcquire { key: Vec<u8> },
    LockRelease {},
    BarrierCreate { key: Vec<u8> },
    BarrierAlreadyHeld {},
    BarrierRelease {},
    ElectionCampaign { leader_key: Vec<u8> },
    ElectionAlreadyHasLeader {},
    ElectionResign {},
    ElectionResignNotFound {},
    QueueEnqueue { key: Vec<u8> },
    QueueDequeue { key: Vec<u8>, value: Vec<u8> },
    QueueDequeueEmpty {},
    LeaseGrant { id: i64, ttl: i64 },
    LeaseRevoke {},
    LeaseKeepAlive { ttl: i64 },
    RegionSplit { parent: Region, child: Region },
    AuthUserAdd {},
    AuthUserDelete {},
    AuthUserChangePassword {},
    AuthUserGrantRole {},
    AuthUserRevokeRole {},
    AuthRoleAdd {},
    AuthRoleDelete {},
    AuthRoleGrantPermission {},
    AuthRoleRevokePermission {},
    AuthEnable {},
    AuthDisable {},
    Error { message: String },
}

/// Why a proposal was not carried out.
#[derive(Debug, Clone, PartialEq, Eq)]
pub enum RaftError {
    /// This node does not lead.
    NotLeader,
    /// No node leads.
    NoLeader,
    /// Anything else, in words.
    Other(String),
}

/// What happened to a watched key.
#[derive(Debug, Clone, Copy, PartialEq, Eq, Structural)]
pub enum WatchEventType {
    Put,
    Delete,
}

#[derive(Debug, Clone, PartialEq, Eq)]
pub struct WatchEvent {
    pub event_type: WatchEventType,
    pub kv: KeyValue,
    pub prev_kv: Option<KeyValue>,
}

/// What a watch delivers.
#[derive(Debug, Clone, PartialEq, Eq)]
pub struct WatchResponse {
    pub watch_id: i64,
    pub created: bool,
    pub events: Vec<WatchEvent>,
    pub canceled: bool,
    pub cancel_reason: String,
}

} // verus!
