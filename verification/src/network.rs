//! The relay: it passes messages between the services of this node and the other nodes.

use crate::actions::{
    OutMessage, OutMessageView, Response, ResponseContent, ResponseContentView, ResponseView,
};
use crate::messages::{Cmd, Resp, SnapshotReq, SnapshotResp};
use crate::routing::{key, MsgType, RoutingKey, SubModules};
use vstd::prelude::*;

verus! {

/// Where a message comes from: this node, or another one.
#[derive(Clone, Copy, Debug, PartialEq, Eq, Structural)]
pub enum Source {
    LOCAL,
    REMOTE,
}

/// A peer that the node is configured with.
#[derive(Clone, Copy, Debug, PartialEq, Eq, Structural)]
pub struct Peer {
    /// Whether there is a link to the peer.
    pub connected: bool,
}

/// The links of this node to the others.
#[derive(Debug, PartialEq, Eq)]
pub struct Connection {
    /// Whether the node is cut off from the others.
    pub is_disconnect: bool,
    pub peers_pair: Vec<Peer>,
}

#[verifier::ext_equal]
pub struct ConnectionView {
    pub is_disconnect: bool,
    pub peers: Seq<Peer>,
}

impl View for Connection {
    type V = ConnectionView;

    open spec fn view(&self) -> ConnectionView {
        ConnectionView { is_disconnect: self.is_disconnect, peers: self.peers_pair@ }
    }
}

/// A client's question to the relay.
#[derive(Debug, PartialEq, Eq)]
pub struct NetRequest {
    pub request_id: Vec<u8>,
    /// Whether the question is how many peers are connected.
    pub peercount: bool,
}

/// What the relay asks its surroundings to do with a message.
#[derive(Debug, PartialEq, Eq)]
pub enum NetAction {
    /// Nothing: the node is cut off.
    Drop,
    /// Nothing: no message is expected under this key.
    Unexpected,
    /// Hand the message to the synchronizer as it came.
    Synchronize { source: Source, key_text: String, data: Vec<u8> },
    /// Send the message to all other nodes.
    Broadcast { key: RoutingKey, data: Vec<u8> },
    /// Publish the message to the services of this node.
    Publish { key: RoutingKey, data: Vec<u8> },
    /// Hand the message to the transaction service.
    NewTx { key: RoutingKey, data: Vec<u8> },
    /// Hand the message to the consensus service.
    Consensus { key: RoutingKey, data: Vec<u8> },
    /// Read the client's question, and answer it with [`NetWork::reply_rpc`].
    ReplyRpc { data: Vec<u8> },
    /// Read the step of a snapshot, and take it with [`NetWork::snapshot_req`].
    Snapshot { data: Vec<u8> },
}

#[verifier::ext_equal]
pub enum NetActionView {
    Drop,
    Unexpected,
    Synchronize { source: Source, key_text: Seq<char>, data: Seq<u8> },
    Broadcast { key: RoutingKey, data: Seq<u8> },
    Publish { key: RoutingKey, data: Seq<u8> },
    NewTx { key: RoutingKey, data: Seq<u8> },
    Consensus { key: RoutingKey, data: Seq<u8> },
    ReplyRpc { data: Seq<u8> },
    Snapshot { data: Seq<u8> },
}

impl View for NetAction {
    type V = NetActionView;

    open spec fn view(&self) -> NetActionView {
        match self {
            NetAction::Drop => NetActionView::Drop,
            NetAction::Unexpected => NetActionView::Unexpected,
            NetAction::Synchronize { source, key_text, data } => NetActionView::Synchronize {
                source: *source,
                key_text: key_text@,
                data: data@,
            },
            NetAction::Broadcast { key, data } => NetActionView::Broadcast {
                key: *key,
                data: data@,
            },
            NetAction::Publish { key, data } => NetActionView::Publish { key: *key, data: data@ },
            NetAction::NewTx { key, data } => NetActionView::NewTx { key: *key, data: data@ },
            NetAction::Consensus { key, data } => NetActionView::Consensus {
                key: *key,
                data: data@,
            },
            NetAction::ReplyRpc { data } => NetActionView::ReplyRpc { data: data@ },
            NetAction::Snapshot { data } => NetActionView::Snapshot { data: data@ },
        }
    }
}

/// A message that the relay publishes to the services of this node.
#[derive(Debug, PartialEq, Eq)]
pub struct NetReply {
    pub key: RoutingKey,
    pub message: OutMessage,
}

#[verifier::ext_equal]
pub struct NetReplyView {
    pub key: RoutingKey,
    pub message: OutMessageView,
}

impl View for NetReply {
    type V = NetReplyView;

    open spec fn view(&self) -> NetReplyView {
        NetReplyView { key: self.key, message: self.message@ }
    }
}

/// The reply, where there is one.
pub open spec fn opt_reply_view(reply: Option<NetReply>) -> Option<NetReplyView> {
    match reply {
        Some(r) => Some(r@),
        None => None,
    }
}

/// What becomes of a message of this node.
pub open spec fn route_local(rtkey: RoutingKey, text: Seq<char>, data: Seq<u8>) -> NetActionView {
    if rtkey == key(SubModules::Chain, MsgType::Status) {
        NetActionView::Synchronize { source: Source::LOCAL, key_text: text, data }
    } else if rtkey == key(SubModules::Chain, MsgType::SyncResponse) {
        NetActionView::Broadcast {
            key: key(SubModules::Synchronizer, MsgType::SyncResponse),
            data,
        }
    } else if rtkey == key(SubModules::Jsonrpc, MsgType::RequestNet) {
        NetActionView::ReplyRpc { data }
    } else if rtkey == key(SubModules::Snapshot, MsgType::SnapshotReq) {
        NetActionView::Snapshot { data }
    } else {
        NetActionView::Unexpected
    }
}

/// What becomes of a message of another node.
pub open spec fn route_remote(rtkey: RoutingKey, text: Seq<char>, data: Seq<u8>) -> NetActionView {
    if rtkey == key(SubModules::Synchronizer, MsgType::Status) || rtkey == key(
        SubModules::Synchronizer,
        MsgType::SyncResponse,
    ) {
        NetActionView::Synchronize { source: Source::REMOTE, key_text: text, data }
    } else if rtkey == key(SubModules::Synchronizer, MsgType::SyncRequest) {
        NetActionView::Publish { key: key(SubModules::Net, MsgType::SyncRequest), data }
    } else if rtkey == key(SubModules::Auth, MsgType::Request) {
        NetActionView::NewTx { key: key(SubModules::Net, MsgType::Request), data }
    } else if rtkey == key(SubModules::Consensus, MsgType::SignedProposal) || rtkey == key(
        SubModules::Consensus,
        MsgType::RawBytes,
    ) {
        NetActionView::Consensus { key: key(SubModules::Net, rtkey.msg_type), data }
    } else {
        NetActionView::Unexpected
    }
}

impl ConnectionView {
    /// What becomes of a message: a node that is cut off heeds only the steps of a snapshot.
    pub open spec fn route(
        self,
        source: Source,
        rtkey: RoutingKey,
        text: Seq<char>,
        data: Seq<u8>,
    ) -> NetActionView {
        if self.is_disconnect && rtkey.sub_module != SubModules::Snapshot {
            NetActionView::Drop
        } else {
            match source {
                Source::LOCAL => route_local(rtkey, text, data),
                Source::REMOTE => route_remote(rtkey, text, data),
            }
        }
    }

    /// The links after a step of a snapshot: the node is cut off from its beginning to its end.
    pub open spec fn after_snapshot_req(self, cmd: Cmd) -> ConnectionView {
        match cmd {
            Cmd::Begin => ConnectionView { is_disconnect: true, ..self },
            Cmd::End => ConnectionView { is_disconnect: false, ..self },
            Cmd::Snapshot | Cmd::Restore | Cmd::Clear => self,
        }
    }

    /// How many peers are connected.
    pub open spec fn peer_count(self) -> nat {
        self.peers.filter(|p: Peer| p.connected).len()
    }

    /// The answer to a question, where it is one that the relay knows.
    pub open spec fn rpc_reply(self, request_id: Seq<u8>, peercount: bool) -> Option<NetReplyView> {
        if peercount {
            Some(
                NetReplyView {
                    key: key(SubModules::Net, MsgType::Response),
                    message: OutMessageView::Response(
                        ResponseView {
                            request_id,
                            content: ResponseContentView::PeerCount(self.peer_count() as u32),
                        },
                    ),
                },
            )
        } else {
            None
        }
    }
}

/// The answer to a step of a snapshot, for the steps that are answered.
pub open spec fn snapshot_reply(cmd: Cmd) -> Option<NetReplyView> {
    match cmd.ack() {
        Some(resp) => Some(
            NetReplyView {
                key: key(SubModules::Net, MsgType::SnapshotResp),
                message: OutMessageView::SnapshotResp(resp),
            },
        ),
        None => None,
    }
}

/// Message forwarding, between the services of this node and the other nodes.
pub struct NetWork {
    con: Connection,
}

impl View for NetWork {
    type V = ConnectionView;

    closed spec fn view(&self) -> ConnectionView {
        self.con@
    }
}

impl NetWork {
    pub fn new(con: Connection) -> (network: Self)
        ensures
            network@ == con@,
    {
        NetWork { con }
    }

    /// Whether the node is cut off from the others.
    pub fn is_disconnect(&self) -> (is_disconnect: bool)
        ensures
            is_disconnect == self@.is_disconnect,
    {
        self.con.is_disconnect
    }

    /// Decides what becomes of the message `payload`, a key in writing and the data, which arrived
    /// under `rtkey`.
    pub fn receiver(&self, source: Source, rtkey: RoutingKey, payload: (String, Vec<u8>))
     -> (action: NetAction)
        ensures
            action@ == self@.route(source, rtkey, payload.0@, payload.1@),
    {
        let (key_text, data) = payload;
        if self.con.is_disconnect && rtkey.sub_module != SubModules::Snapshot {
            return NetAction::Drop;
        }
        match source {
            // Come from MQ
            Source::LOCAL => match (rtkey.sub_module, rtkey.msg_type) {
                (SubModules::Chain, MsgType::Status) => NetAction::Synchronize {
                    source,
                    key_text,
                    data,
                },
                (SubModules::Chain, MsgType::SyncResponse) => NetAction::Broadcast {
                    key: RoutingKey::new(SubModules::Synchronizer, MsgType::SyncResponse),
                    data,
                },
                (SubModules::Jsonrpc, MsgType::RequestNet) => NetAction::ReplyRpc { data },
                (SubModules::Snapshot, MsgType::SnapshotReq) => NetAction::Snapshot { data },
                _ => NetAction::Unexpected,
            },
            // Come from Netserver
            Source::REMOTE => match (rtkey.sub_module, rtkey.msg_type) {
                (SubModules::Synchronizer, MsgType::Status) => NetAction::Synchronize {
                    source,
                    key_text,
                    data,
                },
                (SubModules::Synchronizer, MsgType::SyncResponse) => NetAction::Synchronize {
                    source,
                    key_text,
                    data,
                },
                (SubModules::Synchronizer, MsgType::SyncRequest) => NetAction::Publish {
                    key: RoutingKey::new(SubModules::Net, MsgType::SyncRequest),
                    data,
                },
                (SubModules::Auth, MsgType::Request) => NetAction::NewTx {
                    key: RoutingKey::new(SubModules::Net, MsgType::Request),
                    data,
                },
                (SubModules::Consensus, MsgType::SignedProposal) => NetAction::Consensus {
                    key: RoutingKey::new(SubModules::Net, MsgType::SignedProposal),
                    data,
                },
                (SubModules::Consensus, MsgType::RawBytes) => NetAction::Consensus {
                    key: RoutingKey::new(SubModules::Net, MsgType::RawBytes),
                    data,
                },
                _ => NetAction::Unexpected,
            },
        }
    }

    /// Takes a step of a snapshot.
    pub fn snapshot_req(&mut self, req: SnapshotReq) -> (reply: Option<NetReply>)
        ensures
            final(self)@ == old(self)@.after_snapshot_req(req.cmd),
            opt_reply_view(reply) == snapshot_reply(req.cmd),
    {
        let resp = match req.cmd {
            Cmd::Snapshot => {
                return None;
            },
            Cmd::Begin => {
                self.con.is_disconnect = true;
                Resp::BeginAck
            },
            Cmd::Restore => {
                return None;
            },
            Cmd::Clear => Resp::ClearAck,
            Cmd::End => {
                self.con.is_disconnect = false;
                Resp::EndAck
            },
        };
        Some(
            NetReply {
                key: RoutingKey::new(SubModules::Net, MsgType::SnapshotResp),
                message: OutMessage::SnapshotResp(SnapshotResp { resp, flag: true }),
            },
        )
    }

    /// Answers a client's question; there is none where the data held no request.
    pub fn reply_rpc(&self, req_opt: Option<NetRequest>) -> (reply: Option<NetReply>)
        ensures
            opt_reply_view(reply) == (match req_opt {
                Some(request) => self@.rpc_reply(request.request_id@, request.peercount),
                None => None,
            }),
    {
        let request = match req_opt {
            Some(request) => request,
            None => {
                return None;
            },
        };
        if !request.peercount {
            return None;
        }
        let peers = &self.con.peers_pair;
        let mut peercount: usize = 0;
        let mut i: usize = 0;
        assert(peers@.take(0).filter(|p: Peer| p.connected).len() == 0) by {
            reveal(Seq::filter);
        }
        while i < peers.len()
            invariant
                i <= peers.len(),
                peercount <= i,
                peercount == peers@.take(i as int).filter(|p: Peer| p.connected).len(),
            decreases peers.len() - i,
        {
            proof {
                reveal(Seq::filter);
                assert(peers@.take(i + 1).drop_last() =~= peers@.take(i as int));
            }
            if peers[i].connected {
                peercount += 1;
            }
            i += 1;
        }
        assert(peers@.take(i as int) =~= peers@);
        Some(
            NetReply {
                key: RoutingKey::new(SubModules::Net, MsgType::Response),
                message: OutMessage::Response(
                    Response {
                        request_id: request.request_id,
                        content: ResponseContent::PeerCount(peercount as u32),
                    },
                ),
            },
        )
    }
}

/// A node that is cut off answers no message but the steps of a snapshot, whoever sends it.
pub proof fn cut_off_drops_all_but_snapshots(
    con: ConnectionView,
    source: Source,
    rtkey: RoutingKey,
    text: Seq<char>,
    data: Seq<u8>,
)
    requires
        con.is_disconnect,
    ensures
        con.route(source, rtkey, text, data) == (if source == Source::LOCAL && rtkey == key(
            SubModules::Snapshot,
            MsgType::SnapshotReq,
        ) {
            NetActionView::Snapshot { data }
        } else if rtkey.sub_module == SubModules::Snapshot {
            NetActionView::Unexpected
        } else {
            NetActionView::Drop
        }),
{
}

/// A snapshot that is begun and then ended, with steps other than these two in between, leaves the
/// node linked to the others again, and cut off in between.
pub proof fn snapshot_restores_links(con: ConnectionView, between: Seq<Cmd>)
    requires
        forall|i: int|
            0 <= i < between.len() ==> (#[trigger] between[i]) != Cmd::Begin && between[i]
                != Cmd::End,
    ensures
        after_snapshot_reqs(con.after_snapshot_req(Cmd::Begin), between).is_disconnect,
        after_snapshot_reqs(con.after_snapshot_req(Cmd::Begin), between).after_snapshot_req(
            Cmd::End,
        ) == (ConnectionView { is_disconnect: false, ..con }),
    decreases between.len(),
{
    if between.len() > 0 {
        let before = between.drop_last();
        assert forall|i: int| 0 <= i < before.len() implies (#[trigger] before[i]) != Cmd::Begin
            && before[i] != Cmd::End by {
            assert(before[i] == between[i]);
        }
        snapshot_restores_links(con, before);
        assert(between[between.len() - 1] == between.last());
    }
}

/// The links after several steps of a snapshot.
pub open spec fn after_snapshot_reqs(con: ConnectionView, cmds: Seq<Cmd>) -> ConnectionView
    decreases cmds.len(),
{
    if cmds.len() == 0 {
        con
    } else {
        after_snapshot_reqs(con, cmds.drop_last()).after_snapshot_req(cmds.last())
    }
}

/// Nothing that another node sends is ever broadcast, answered to a client, or taken as a step of a
/// snapshot.
pub proof fn remote_messages_stay_inside(
    con: ConnectionView,
    rtkey: RoutingKey,
    text: Seq<char>,
    data: Seq<u8>,
)
    ensures
        ({
            let action = con.route(Source::REMOTE, rtkey, text, data);
            !(action is Broadcast) && !(action is ReplyRpc) && !(action is Snapshot)
        }),
{
}

/// Whatever a relayed message is turned into, its data are those that came.
pub proof fn relay_keeps_data(
    con: ConnectionView,
    source: Source,
    rtkey: RoutingKey,
    text: Seq<char>,
    data: Seq<u8>,
)
    ensures
        match con.route(source, rtkey, text, data) {
            NetActionView::Drop | NetActionView::Unexpected => true,
            NetActionView::Synchronize { source: from, key_text, data: sent } => from == source
                && key_text == text && sent == data,
            NetActionView::Broadcast { key, data: sent } => sent == data,
            NetActionView::Publish { key, data: sent } => sent == data,
            NetActionView::NewTx { key, data: sent } => sent == data,
            NetActionView::Consensus { key, data: sent } => sent == data,
            NetActionView::ReplyRpc { data: sent } => sent == data,
            NetActionView::Snapshot { data: sent } => sent == data,
        },
{
}

/// Where each message goes, by its source and its key, whatever its data: on a node that is linked to
/// the others, every message of an expected kind is passed on, as it came, to the one service that is
/// to have it, and no message of another kind is.
pub proof fn messages_go_where_they_belong(
    con: ConnectionView,
    source: Source,
    rtkey: RoutingKey,
    text: Seq<char>,
    data: Seq<u8>,
)
    requires
        !con.is_disconnect,
    ensures
        ({
            let action = con.route(source, rtkey, text, data);
            let from = |sender: Source, sub_module: SubModules, msg_type: MsgType|
                source == sender && rtkey.sub_module == sub_module && rtkey.msg_type == msg_type;
            let status = from(Source::LOCAL, SubModules::Chain, MsgType::Status) || from(
                Source::REMOTE,
                SubModules::Synchronizer,
                MsgType::Status,
            ) || from(Source::REMOTE, SubModules::Synchronizer, MsgType::SyncResponse);
            let proposal = from(Source::REMOTE, SubModules::Consensus, MsgType::SignedProposal);
            let raw = from(Source::REMOTE, SubModules::Consensus, MsgType::RawBytes);
            &&& status <==> action == (NetActionView::Synchronize { source, key_text: text, data })
            &&& from(Source::LOCAL, SubModules::Chain, MsgType::SyncResponse) <==> action == (
            NetActionView::Broadcast {
                key: RoutingKey {
                    sub_module: SubModules::Synchronizer,
                    msg_type: MsgType::SyncResponse,
                },
                data,
            })
            &&& from(Source::LOCAL, SubModules::Jsonrpc, MsgType::RequestNet) <==> action == (
            NetActionView::ReplyRpc { data })
            &&& from(Source::LOCAL, SubModules::Snapshot, MsgType::SnapshotReq) <==> action == (
            NetActionView::Snapshot { data })
            &&& from(Source::REMOTE, SubModules::Synchronizer, MsgType::SyncRequest) <==> action
                == (NetActionView::Publish {
                key: RoutingKey { sub_module: SubModules::Net, msg_type: MsgType::SyncRequest },
                data,
            })
            &&& from(Source::REMOTE, SubModules::Auth, MsgType::Request) <==> action == (
            NetActionView::NewTx {
                key: RoutingKey { sub_module: SubModules::Net, msg_type: MsgType::Request },
                data,
            })
            &&& proposal <==> action == (NetActionView::Consensus {
                key: RoutingKey { sub_module: SubModules::Net, msg_type: MsgType::SignedProposal },
                data,
            })
            &&& raw <==> action == (NetActionView::Consensus {
                key: RoutingKey { sub_module: SubModules::Net, msg_type: MsgType::RawBytes },
                data,
            })
            &&& action == NetActionView::Unexpected <==> !status && !proposal && !raw && !from(
                Source::LOCAL,
                SubModules::Chain,
                MsgType::SyncResponse,
            ) && !from(Source::LOCAL, SubModules::Jsonrpc, MsgType::RequestNet) && !from(
                Source::LOCAL,
                SubModules::Snapshot,
                MsgType::SnapshotReq,
            ) && !from(Source::REMOTE, SubModules::Synchronizer, MsgType::SyncRequest) && !from(
                Source::REMOTE,
                SubModules::Auth,
                MsgType::Request,
            )
        }),
{
}

/// A step of a snapshot is answered under the relay's own key, and changes whether the node is cut off
/// and nothing else: its beginning cuts the node off, its end links it again.
pub proof fn snapshot_steps_are_answered(con: ConnectionView, cmd: Cmd)
    ensures
        ({
            let after = con.after_snapshot_req(cmd);
            let answer = |resp: Resp|
                Some(
                    NetReplyView {
                        key: RoutingKey {
                            sub_module: SubModules::Net,
                            msg_type: MsgType::SnapshotResp,
                        },
                        message: OutMessageView::SnapshotResp(SnapshotResp { resp, flag: true }),
                    },
                );
            &&& after.peers == con.peers
            &&& after.is_disconnect <==> cmd == Cmd::Begin || con.is_disconnect && cmd != Cmd::End
            &&& cmd == Cmd::Begin ==> snapshot_reply(cmd) == answer(Resp::BeginAck)
            &&& cmd == Cmd::Clear ==> snapshot_reply(cmd) == answer(Resp::ClearAck)
            &&& cmd == Cmd::End ==> snapshot_reply(cmd) == answer(Resp::EndAck)
            &&& cmd == Cmd::Snapshot || cmd == Cmd::Restore ==> snapshot_reply(cmd) is None
        }),
{
}

/// A client that asks for the number of peers is told it under the id of its request; any other
/// question has no answer.
pub proof fn peer_count_is_told(con: ConnectionView, request_id: Seq<u8>)
    ensures
        con.rpc_reply(request_id, true) == Some(
            NetReplyView {
                key: RoutingKey { sub_module: SubModules::Net, msg_type: MsgType::Response },
                message: OutMessageView::Response(
                    ResponseView {
                        request_id,
                        content: ResponseContentView::PeerCount(con.peer_count() as u32),
                    },
                ),
            },
        ),
        con.rpc_reply(request_id, false) is None,
{
}

/// Without peers none is connected; one more peer counts for one if it is connected, and for nothing
/// if it is not. Whether the node is cut off makes no difference.
pub proof fn each_connected_peer_counts_once(con: ConnectionView, peer: Peer)
    ensures
        con.peers.len() == 0 ==> con.peer_count() == 0,
        ({
            let one_more = ConnectionView { peers: con.peers.push(peer), ..con };
            let turned = ConnectionView { is_disconnect: !con.is_disconnect, ..con };
            &&& peer.connected ==> one_more.peer_count() == con.peer_count() + 1
            &&& !peer.connected ==> one_more.peer_count() == con.peer_count()
            &&& turned.peer_count() == con.peer_count()
        }),
        con.peer_count() <= con.peers.len(),
{
    reveal(Seq::filter);
    assert(con.peers.push(peer).drop_last() =~= con.peers);
    con.peers.lemma_filter_len(|p: Peer| p.connected);
}

} // verus!
