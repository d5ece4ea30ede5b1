//! Messages that clients and services exchange.

use vstd::prelude::*;

verus! {

#[derive(Debug, Clone, Copy, PartialEq, Eq, Structural)]
pub struct ResponseHeader {
    pub cluster_id: u64,
    pub member_id: u64,
    pub revision: i64,
    pub raft_term: u64,
}

/// A key with its value and its history.
#[derive(Debug, Clone, PartialEq, Eq)]
pub struct KeyValue {
    pub key: Vec<u8>,
    pub value: Vec<u8>,
    pub create_revision: i64,
    pub mod_revision: i64,
    pub version: i64,
    pub lease: i64,
}

// --- Key-value service ---

#[derive(Debug, Clone, PartialEq, Eq)]
pub struct PutRequest {
    pub key: Vec<u8>,
    pub value: Vec<u8>,
    pub lease: i64,
    pub prev_kv: bool,
}

#[derive(Debug, Clone, PartialEq, Eq)]
pub struct PutResponse {
    pub header: Option<ResponseHeader>,
    pub prev_kv: Option<KeyValue>,
}

#[derive(Debug, Clone, PartialEq, Eq)]
pub struct GetRequest {
    pub key: Vec<u8>,
    pub range_end: Vec<u8>,
    pub limit: i64,
    pub revision: i64,
    pub serializable: bool,
    pub sort_order: i32,
    pub sort_target: i32,
}

#[derive(Debug, Clone, PartialEq, Eq)]
pub struct GetResponse {
    pub header: Option<ResponseHeader>,
    pub kvs: Vec<KeyValue>,
    pub count: i64,
}

#[derive(Debug, Clone, PartialEq, Eq)]
pub struct DeleteRequest {
    pub key: Vec<u8>,
    pub range_end: Vec<u8>,
    pub prev_kv: bool,
}

#[derive(Debug, Clone, PartialEq, Eq)]
pub struct DeleteResponse {
    pub header: Option<ResponseHeader>,
    pub deleted: i64,
    pub prev_kvs: Vec<KeyValue>,
}

#[derive(Debug, Clone, PartialEq, Eq)]
pub struct RangeRequest {
    pub key: Vec<u8>,
    pub range_end: Vec<u8>,
    pub limit: i64,
    pub revision: i64,
}

#[derive(Debug, Clone, PartialEq, Eq)]
pub struct RangeResponse {
    pub header: Option<ResponseHeader>,
    pub kvs: Vec<KeyValue>,
    pub count: i64,
}

#[derive(Debug, Clone, Copy, PartialEq, Eq, Structural)]
pub enum CompareResult {
    Equal,
    Greater,
    Less,
    NotEqual,
}

#[derive(Debug, Clone, Copy, PartialEq, Eq, Structural)]
pub enum CompareTarget {
    Version,
    Create,
    Mod,
    Value,
    Lease,
}

/// What a key is compared with.
#[derive(Debug, Clone, PartialEq, Eq)]
pub enum TargetUnion {
    Version(i64),
    CreateRevision(i64),
    ModRevision(i64),
    Value(Vec<u8>),
    Lease(i64),
}

#[derive(Debug, Clone, PartialEq, Eq)]
pub struct Compare {
    pub result: CompareResult,
    pub target: CompareTarget,
    pub key: Vec<u8>,
    pub target_union: Option<TargetUnion>,
}

/// One operation of a transaction.
#[derive(Debug, PartialEq, Eq)]
pub enum Request {
    Put(PutRequest),
    Get(GetRequest),
    Delete(DeleteRequest),
    Range(RangeRequest),
    Txn(TxnRequest),
}

#[derive(Debug, PartialEq, Eq)]
pub struct RequestOp {
    pub request: Option<Request>,
}

/// A transaction: conditions, and what is done if they hold and if not.
#[derive(Debug, PartialEq, Eq)]
pub struct TxnRequest {
    pub compare: Vec<Compare>,
    pub success: Vec<RequestOp>,
    pub failure: Vec<RequestOp>,
}

/// What one operation of a transaction gave.
#[derive(Debug, PartialEq, Eq)]
pub enum Response {
    Put(PutResponse),
    Get(GetResponse),
    Delete(DeleteResponse),
    Range(RangeResponse),
    Txn(TxnResponse),
}

#[derive(Debug, PartialEq, Eq)]
pub struct ResponseOp {
    pub response: Option<Response>,
}

#[derive(Debug, PartialEq, Eq)]
pub struct TxnResponse {
    pub header: Option<ResponseHeader>,
    pub succeeded: bool,
    pub responses: Vec<ResponseOp>,
}

// --- Lock service ---

#[derive(Debug, Clone, PartialEq, Eq)]
pub struct LockRequest {
    pub name: Vec<u8>,
    pub lease_id: i64,
}

#[derive(Debug, Clone, PartialEq, Eq)]
pub struct LockResponse {
    pub header: Option<ResponseHeader>,
    pub key: Vec<u8>,
}

#[derive(Debug, Clone, PartialEq, Eq)]
pub struct UnlockRequest {
    pub key: Vec<u8>,
}

#[derive(Debug, Clone, Copy, PartialEq, Eq)]
pub struct UnlockResponse {
    pub header: Option<ResponseHeader>,
}

#[derive(Debug, Clone, PartialEq, Eq)]
pub struct LockQueryRequest {
    pub name: Vec<u8>,
}

#[derive(Debug, Clone, PartialEq, Eq)]
pub struct LockQueryResponse {
    pub header: Option<ResponseHeader>,
    pub owner: Vec<u8>,
    pub lease_id: i64,
}

// --- Barrier service ---

#[derive(Debug, Clone, PartialEq, Eq)]
pub struct BarrierCreateRequest {
    pub name: Vec<u8>,
    pub lease_id: i64,
}

#[derive(Debug, Clone, PartialEq, Eq)]
pub struct BarrierCreateResponse {
    pub header: Option<ResponseHeader>,
    pub key: Vec<u8>,
}

#[derive(Debug, Clone, PartialEq, Eq)]
pub struct BarrierReleaseRequest {
    pub name: Vec<u8>,
}

#[derive(Debug, Clone, Copy, PartialEq, Eq)]
pub struct BarrierReleaseResponse {
    pub header: Option<ResponseHeader>,
}

#[derive(Debug, Clone, PartialEq, Eq)]
pub struct BarrierQueryRequest {
    pub name: Vec<u8>,
}

#[derive(Debug, Clone, PartialEq, Eq)]
pub struct BarrierQueryResponse {
    pub header: Option<ResponseHeader>,
    pub held: bool,
    pub key: Vec<u8>,
    pub lease_id: i64,
}

// --- Election service ---

#[derive(Debug, Clone, PartialEq, Eq)]
pub struct CampaignRequest {
    pub name: Vec<u8>,
    pub lease_id: i64,
    pub value: Vec<u8>,
}

#[derive(Debug, Clone, PartialEq, Eq)]
pub struct CampaignResponse {
    pub header: Option<ResponseHeader>,
    pub leader_key: Vec<u8>,
}

#[derive(Debug, Clone, PartialEq, Eq)]
pub struct LeaderRequest {
    pub name: Vec<u8>,
}

#[derive(Debug, Clone, PartialEq, Eq)]
pub struct LeaderResponse {
    pub header: Option<ResponseHeader>,
    pub kv: Option<KeyValue>,
}

#[derive(Debug, Clone, PartialEq, Eq)]
pub struct ResignRequest {
    pub leader_key: Vec<u8>,
}

#[derive(Debug, Clone, Copy, PartialEq, Eq)]
pub struct ResignResponse {
    pub header: Option<ResponseHeader>,
}

#[derive(Debug, Clone, PartialEq, Eq)]
pub struct ObserveRequest {
    pub name: Vec<u8>,
}

#[derive(Debug, Clone, PartialEq, Eq)]
pub struct ObserveResponse {
    pub header: Option<ResponseHeader>,
    pub kv: Option<KeyValue>,
}

// --- Queue service ---

#[derive(Debug, Clone, PartialEq, Eq)]
pub struct QueueEnqueueRequest {
    pub name: Vec<u8>,
    pub value: Vec<u8>,
}

#[derive(Debug, Clone, PartialEq, Eq)]
pub struct QueueEnqueueResponse {
    pub header: Option<ResponseHeader>,
    pub key: Vec<u8>,
}

#[derive(Debug, Clone, PartialEq, Eq)]
pub struct QueueDequeueRequest {
    pub name: Vec<u8>,
}

#[derive(Debug, Clone, PartialEq, Eq)]
pub struct QueueDequeueResponse {
    pub header: Option<ResponseHeader>,
    pub key: Vec<u8>,
    pub value: Vec<u8>,
}

#[derive(Debug, Clone, PartialEq, Eq)]
pub struct QueuePeekRequest {
    pub name: Vec<u8>,
}

#[derive(Debug, Clone, PartialEq, Eq)]
pub struct QueuePeekResponse {
    pub header: Option<ResponseHeader>,
    pub key: Vec<u8>,
    pub value: Vec<u8>,
}

// --- Session service ---

#[derive(Debug, Clone, Copy, PartialEq, Eq)]
pub struct SessionCreateRequest {
    pub ttl: i64,
}

#[derive(Debug, Clone, Copy, PartialEq, Eq)]
pub struct SessionCreateResponse {
    pub header: Option<ResponseHeader>,
    pub id: i64,
    pub granted_ttl: i64,
}

#[derive(Debug, Clone, Copy, PartialEq, Eq)]
pub struct SessionCloseRequest {
    pub id: i64,
}

#[derive(Debug, Clone, Copy, PartialEq, Eq)]
pub struct SessionCloseResponse {
    pub header: Option<ResponseHeader>,
}

#[derive(Debug, Clone, Copy, PartialEq, Eq)]
pub struct SessionKeepAliveRequest {
    pub id: i64,
}

#[derive(Debug, Clone, Copy, PartialEq, Eq)]
pub struct SessionKeepAliveResponse {
    pub header: Option<ResponseHeader>,
    pub ttl: i64,
}

#[derive(Debug, Clone, Copy, PartialEq, Eq)]
pub struct SessionQueryRequest {
    pub id: i64,
}

#[derive(Debug, Clone, Copy, PartialEq, Eq)]
pub struct SessionQueryResponse {
    pub header: Option<ResponseHeader>,
    pub id: i64,
    pub ttl: i64,
    pub granted_ttl: i64,
    pub keys: i64,
}

// --- Cluster service ---

#[derive(Debug, Clone, PartialEq, Eq)]
pub struct Member {
    pub id: u64,
    pub addr: String,
    pub is_learner: bool,
    pub data: String,
}

#[derive(Debug, Clone, PartialEq, Eq)]
pub struct MemberListResponse {
    pub header: Option<ResponseHeader>,
    pub members: Vec<Member>,
}

#[derive(Debug, Clone, PartialEq, Eq)]
pub struct MemberAddRequest {
    pub addr: String,
    pub is_learner: bool,
}

#[derive(Debug, Clone, PartialEq, Eq)]
pub struct MemberAddResponse {
    pub header: Option<ResponseHeader>,
    pub member: Option<Member>,
    pub members: Vec<Member>,
}

#[derive(Debug, Clone, Copy, PartialEq, Eq)]
pub struct MemberRemoveRequest {
    pub id: u64,
}

#[derive(Debug, Clone, PartialEq, Eq)]
pub struct MemberRemoveResponse {
    pub header: Option<ResponseHeader>,
    pub members: Vec<Member>,
}

// --- Maintenance service ---

#[derive(Debug, Clone, Copy, PartialEq, Eq)]
pub struct DefragResponse {
    pub header: Option<ResponseHeader>,
}

#[derive(Debug, Clone, Copy, PartialEq, Eq, Structural)]
pub enum AlarmAction {
    Get,
    Activate,
    Acknowledge,
}

/// A request about alarms; an action that is not known is left out.
#[derive(Debug, Clone, Copy, PartialEq, Eq)]
pub struct AlarmRequest {
    pub action: Option<AlarmAction>,
    pub member_id: u64,
    pub alarm: i32,
}

#[derive(Debug, Clone, Copy, PartialEq, Eq, Structural)]
pub struct AlarmMember {
    pub member_id: u64,
    pub alarm: i32,
}

#[derive(Debug, Clone, PartialEq, Eq)]
pub struct AlarmResponse {
    pub header: Option<ResponseHeader>,
    pub alarms: Vec<AlarmMember>,
}

#[derive(Debug, Clone, PartialEq, Eq)]
pub struct StatusResponse {
    pub header: Option<ResponseHeader>,
    pub version: String,
    pub db_size: u64,
    pub leader: u64,
    pub raft_index: u64,
    pub raft_term: u64,
    pub raft_applied_index: u64,
    pub db_in_use: u64,
    pub is_learner: bool,
}

// --- Shard service ---

#[derive(Debug, Clone, Copy, PartialEq, Eq, Structural)]
pub struct RegionEpoch {
    pub conf_ver: u64,
    pub version: u64,
}

#[derive(Debug, Clone, PartialEq, Eq)]
pub struct Region {
    pub id: u64,
    pub start_key: Vec<u8>,
    pub end_key: Vec<u8>,
    pub region_epoch: Option<RegionEpoch>,
    pub leader: u64,
    pub replicas: Vec<u64>,
}

#[derive(Debug, Clone, PartialEq, Eq)]
pub struct GetRegionResponse {
    pub header: Option<ResponseHeader>,
    pub region: Option<Region>,
}

#[derive(Debug, Clone, PartialEq, Eq)]
pub struct ListRegionsResponse {
    pub header: Option<ResponseHeader>,
    pub regions: Vec<Region>,
}

#[derive(Debug, Clone, PartialEq, Eq)]
pub struct SplitRegionRequest {
    pub region_id: u64,
    pub split_key: Vec<u8>,
}

#[derive(Debug, Clone, PartialEq, Eq)]
pub struct SplitRegionResponse {
    pub header: Option<ResponseHeader>,
    pub parent: Option<Region>,
    pub child: Option<Region>,
}

// --- Watch service ---

#[derive(Debug, Clone, PartialEq, Eq)]
pub struct WatchCreateRequest {
    pub key: Vec<u8>,
    pub range_end: Vec<u8>,
    pub filters: Vec<i32>,
    pub prev_kv: bool,
}

#[derive(Debug, Clone, PartialEq, Eq)]
pub struct WatchEvent {
    pub event_type: i32,
    pub kv: Option<KeyValue>,
    pub prev_kv: Option<KeyValue>,
}

#[derive(Debug, Clone, PartialEq, Eq)]
pub struct WatchResponse {
    pub watch_id: i64,
    pub created: bool,
    pub events: Vec<WatchEvent>,
    pub canceled: bool,
    pub cancel_reason: String,
    pub header: Option<ResponseHeader>,
}

// --- Auth service ---

#[derive(Debug, Clone, Copy, PartialEq, Eq, Structural)]
pub enum PermissionType {
    Read,
    Write,
    Readwrite,
}

/// A permission; a type that is not known is left out.
#[derive(Debug, Clone, PartialEq, Eq)]
pub struct Permission {
    pub perm_type: Option<PermissionType>,
    pub key: Vec<u8>,
    pub range_end: Vec<u8>,
}

#[derive(Debug, Clone, PartialEq, Eq)]
pub struct AuthUser {
    pub name: String,
    pub roles: Vec<String>,
    pub enabled: bool,
}

#[derive(Debug, Clone, PartialEq, Eq)]
pub struct AuthRole {
    pub name: String,
    pub permissions: Vec<Permission>,
}

/// An answer that says no more than that the request was carried out.
#[derive(Debug, Clone, Copy, PartialEq, Eq)]
pub struct DoneResponse {
    pub header: Option<ResponseHeader>,
}

#[derive(Debug, Clone, PartialEq, Eq)]
pub struct UserAddRequest {
    pub name: String,
    pub password: Vec<u8>,
}

#[derive(Debug, Clone, PartialEq, Eq)]
pub struct UserGetResponse {
    pub header: Option<ResponseHeader>,
    pub user: Option<AuthUser>,
}

#[derive(Debug, Clone, PartialEq, Eq)]
pub struct UserListResponse {
    pub header: Option<ResponseHeader>,
    pub users: Vec<AuthUser>,
}

#[derive(Debug, Clone, PartialEq, Eq)]
pub struct UserRoleRequest {
    pub user: String,
    pub role: String,
}

#[derive(Debug, Clone, PartialEq, Eq)]
pub struct RoleGetResponse {
    pub header: Option<ResponseHeader>,
    pub role: Option<AuthRole>,
}

#[derive(Debug, Clone, PartialEq, Eq)]
pub struct RoleListResponse {
    pub header: Option<ResponseHeader>,
    pub roles: Vec<AuthRole>,
}

#[derive(Debug, Clone, PartialEq, Eq)]
pub struct RolePermissionRequest {
    pub role: String,
    pub permission: Option<Permission>,
}

#[derive(Debug, Clone, PartialEq, Eq)]
pub struct AuthenticateRequest {
    pub name: String,
    pub password: Vec<u8>,
}

#[derive(Debug, Clone, PartialEq, Eq)]
pub struct AuthenticateResponse {
    pub header: Option<ResponseHeader>,
    pub token: String,
}

#[derive(Debug, Clone, Copy, PartialEq, Eq)]
pub struct AuthStatusResponse {
    pub header: Option<ResponseHeader>,
    pub enabled: bool,
}

} // verus!
