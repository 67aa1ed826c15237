//! The keys under which messages travel between the services of a node.

use vstd::prelude::*;

verus! {

/// The services of a node that send messages. `Other` stands for every service whose messages are
/// of no interest here.
#[derive(Clone, Copy, Debug, PartialEq, Eq, Structural)]
pub enum SubModules {
    Auth,
    Chain,
    Consensus,
    Executor,
    Jsonrpc,
    Net,
    Snapshot,
    Synchronizer,
    Other,
}

/// The kinds of messages. `Other` stands for every kind that is of no interest here.
#[derive(Clone, Copy, Debug, PartialEq, Eq, Structural)]
pub enum MsgType {
    BlackList,
    BlockTxHashes,
    BlockTxHashesReq,
    Miscellaneous,
    MiscellaneousReq,
    RawBytes,
    Request,
    RequestNet,
    RequestNewTxBatch,
    Response,
    SignedProposal,
    SnapshotReq,
    SnapshotResp,
    Status,
    SyncRequest,
    SyncResponse,
    VerifyBlockReq,
    VerifyBlockResp,
    Other,
}

/// Who sends a message, and of which kind it is.
#[derive(Clone, Copy, Debug, PartialEq, Eq, Structural)]
pub struct RoutingKey {
    pub sub_module: SubModules,
    pub msg_type: MsgType,
}

/// The key of a message of kind `msg_type` from `sub_module`.
pub open spec fn key(sub_module: SubModules, msg_type: MsgType) -> RoutingKey {
    RoutingKey { sub_module, msg_type }
}

impl RoutingKey {
    pub fn new(sub_module: SubModules, msg_type: MsgType) -> (routing_key: RoutingKey)
        ensures
            routing_key == key(sub_module, msg_type),
    {
        RoutingKey { sub_module, msg_type }
    }
}

} // verus!
