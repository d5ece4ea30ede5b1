//! Shard management service.

use vstd::prelude::*;

use super::guard::{require_root, unexpected};
use crate::bytes::copy_bytes;
use crate::proto::{
    GetRegionResponse, ListRegionsResponse, RegionEpoch, ResponseHeader, SplitRegionRequest,
    SplitRegionResponse,
};
use crate::raft::{NodeId, RaftRequest, RaftResponse, Region};
use crate::status::Status;
use crate::text::join2;

verus! {

/// A region as clients see it.
pub open spec fn shows(region: Region, shown: crate::proto::Region) -> bool {
    &&& shown.id == region.id
    &&& shown.start_key@ == region.start_key@
    &&& shown.end_key@ == region.end_key@
    &&& shown.region_epoch == Some(
        RegionEpoch {
            conf_ver: region.region_epoch.conf_ver,
            version: region.region_epoch.version,
        },
    )
    &&& shown.leader == region.leader
    &&& shown.replicas@ == region.replicas@
}

fn copy_ids(ids: &Vec<u64>) -> (r: Vec<u64>)
    ensures
        r@ == ids@,
{
    vstd::slice::slice_to_vec(ids.as_slice())
}

/// Converts a region.
pub fn region_to_proto(region: &Region) -> (r: crate::proto::Region)
    ensures
        shows(*region, r),
{
    crate::proto::Region {
        id: region.id,
        start_key: copy_bytes(region.start_key.as_slice()),
        end_key: copy_bytes(region.end_key.as_slice()),
        region_epoch: Some(
            RegionEpoch {
                conf_ver: region.region_epoch.conf_ver,
                version: region.region_epoch.version,
            },
        ),
        leader: region.leader,
        replicas: copy_ids(&region.replicas),
    }
}

/// Shard management service.
pub struct ShardService {
    node_id: NodeId,
}

impl ShardService {
    /// The node that the service answers for.
    pub closed spec fn node(&self) -> NodeId {
        self.node_id
    }

    /// The header of the answers.
    pub open spec fn header_of(&self) -> ResponseHeader {
        ResponseHeader { cluster_id: 0, member_id: self.node(), revision: 0, raft_term: 0 }
    }

    pub fn new(node_id: NodeId) -> (r: Self)
        ensures
            r.node() == node_id,
    {
        ShardService { node_id }
    }

    fn header(&self) -> (r: ResponseHeader)
        ensures
            r == self.header_of(),
    {
        ResponseHeader { cluster_id: 0, member_id: self.node_id, revision: 0, raft_term: 0 }
    }

    /// What is answered when the region of a key was looked up.
    pub fn get_region(&self, found: Option<&Region>) -> (r: Result<GetRegionResponse, Status>)
        ensures
            match found {
                Some(region) => r is Ok && r->Ok_0.header == Some(self.header_of())
                    && r->Ok_0.region is Some && shows(*region, r->Ok_0.region->Some_0),
                None => r is Err && r->Err_0.says(
                    (crate::status::Code::NotFound, "no region found for key"@),
                ),
            },
    {
        match found {
            Some(region) => Ok(
                GetRegionResponse {
                    header: Some(self.header()),
                    region: Some(region_to_proto(region)),
                },
            ),
            None => Err(Status::not_found("no region found for key")),
        }
    }

    /// The list of regions.
    pub fn list_regions(&self, regions: &Vec<Region>) -> (r: ListRegionsResponse)
        ensures
            r.header == Some(self.header_of()),
            r.regions@.len() == regions@.len(),
            forall|i: int|
                0 <= i < regions@.len() ==> shows(#[trigger] regions@[i], r.regions@[i]),
    {
        let mut out: Vec<crate::proto::Region> = Vec::new();
        let mut i: usize = 0;
        while i < regions.len()
            invariant
                i <= regions.len(),
                out@.len() == i,
                forall|j: int| 0 <= j < i ==> shows(#[trigger] regions@[j], out@[j]),
            decreases regions.len() - i,
        {
            out.push(region_to_proto(&regions[i]));
            i = i + 1;
        }
        ListRegionsResponse { header: Some(self.header()), regions: out }
    }

    /// What is proposed to split a region. `leadership` says whether this node
    /// leads.
    pub fn split_request(
        &self,
        auth_enabled: bool,
        username: Option<&str>,
        leadership: Result<(), Status>,
        req: SplitRegionRequest,
    ) -> (r: Result<RaftRequest, Status>)
        ensures
            match super::guard::root_refusal(auth_enabled, super::kv::name_of(username)) {
                Some(refusal) => r is Err && r->Err_0.says(refusal),
                None => match leadership {
                    Err(status) => r is Err && r->Err_0 == status,
                    Ok(_) => crate::status::answers(
                        r,
                        if req.region_id == 0 {
                            Some(
                                (
                                    crate::status::Code::InvalidArgument,
                                    "region_id must not be 0"@,
                                ),
                            )
                        } else if req.split_key@.len() == 0 {
                            Some(
                                (
                                    crate::status::Code::InvalidArgument,
                                    "split_key must not be empty"@,
                                ),
                            )
                        } else {
                            None
                        },
                    ),
                },
            },
            r matches Ok(request) ==> request == (RaftRequest::RegionSplit {
                region_id: req.region_id,
                split_key: req.split_key,
            }),
    {
        if let Err(status) = require_root(auth_enabled, username) {
            return Err(status);
        }
        match leadership {
            Err(status) => {
                return Err(status);
            },
            Ok(()) => {},
        }
        if req.region_id == 0 {
            return Err(Status::invalid_argument("region_id must not be 0"));
        }
        if req.split_key.len() == 0 {
            return Err(Status::invalid_argument("split_key must not be empty"));
        }
        Ok(RaftRequest::RegionSplit { region_id: req.region_id, split_key: req.split_key })
    }

    /// What a split is answered. The error of a proposal that failed is given as
    /// text.
    pub fn split_response(&self, resp: Result<RaftResponse, String>) -> (r: Result<
        SplitRegionResponse,
        Status,
    >)
        ensures
            match resp {
                Ok(RaftResponse::RegionSplit { parent, child }) => r is Ok && r->Ok_0.header
                    == Some(self.header_of()) && r->Ok_0.parent is Some && shows(
                    parent,
                    r->Ok_0.parent->Some_0,
                ) && r->Ok_0.child is Some && shows(child, r->Ok_0.child->Some_0),
                Ok(RaftResponse::Error { message }) => r is Err && r->Err_0.says(
                    (crate::status::Code::FailedPrecondition, message@),
                ),
                Ok(_) => r is Err && r->Err_0.says(
                    (crate::status::Code::Internal, "unexpected response type"@),
                ),
                Err(error) => r is Err && r->Err_0.says(
                    (crate::status::Code::Internal, "propose failed: "@ + error@),
                ),
            },
    {
        match resp {
            Ok(RaftResponse::RegionSplit { parent, child }) => Ok(
                SplitRegionResponse {
                    header: Some(self.header()),
                    parent: Some(region_to_proto(&parent)),
                    child: Some(region_to_proto(&child)),
                },
            ),
            Ok(RaftResponse::Error { message }) => Err(
                Status::failed_precondition(message.as_str()),
            ),
            Ok(other) => Err(unexpected(other)),
            Err(error) => Err(
                Status::internal(join2("propose failed: ", error.as_str()).as_str()),
            ),
        }
    }
}

/// A region is shown with its own identifier, bounds, epoch, leader and replicas.
pub proof fn regions_are_shown_as_they_are(region: Region, shown: crate::proto::Region)
    requires
        shows(region, shown),
    ensures
        shown.id == region.id,
        shown.start_key@ == region.start_key@,
        shown.end_key@ == region.end_key@,
        shown.region_epoch is Some,
        shown.region_epoch->Some_0.conf_ver == region.region_epoch.conf_ver,
        shown.region_epoch->Some_0.version == region.region_epoch.version,
        shown.leader == region.leader,
        shown.replicas@ == region.replicas@,
{
}

/// Every answer is headed with the node that gives it, and with no cluster, no
/// revision and no term.
pub proof fn answers_name_the_node(service: ShardService)
    ensures
        service.header_of().member_id == service.node(),
        service.header_of().cluster_id == 0,
        service.header_of().revision == 0,
        service.header_of().raft_term == 0,
{
}

} // verus!
