use cita_services::actions::{OutMessage, Response, ResponseContent};
use cita_services::messages::{Cmd, Resp, SnapshotReq, SnapshotResp};
use cita_services::network::{Connection, NetAction, NetReply, NetRequest, NetWork, Peer, Source};
use cita_services::routing::{MsgType, RoutingKey, SubModules};

fn network(is_disconnect: bool) -> NetWork {
    NetWork::new(Connection { is_disconnect, peers_pair: Vec::new() })
}

fn received(
    network: &NetWork,
    source: Source,
    sub_module: SubModules,
    msg_type: MsgType,
) -> NetAction {
    let key = RoutingKey::new(sub_module, msg_type);
    network.receiver(source, key, ("written.key".to_string(), vec![1, 2, 3]))
}

fn snapshot(cmd: Cmd) -> SnapshotReq {
    SnapshotReq { cmd, end_height: 0 }
}

#[test]
fn local_messages_are_routed() {
    let net = network(false);
    assert_eq!(
        received(&net, Source::LOCAL, SubModules::Chain, MsgType::Status),
        NetAction::Synchronize {
            source: Source::LOCAL,
            key_text: "written.key".to_string(),
            data: vec![1, 2, 3],
        }
    );
    assert_eq!(
        received(&net, Source::LOCAL, SubModules::Chain, MsgType::SyncResponse),
        NetAction::Broadcast {
            key: RoutingKey::new(SubModules::Synchronizer, MsgType::SyncResponse),
            data: vec![1, 2, 3],
        }
    );
    assert_eq!(
        received(&net, Source::LOCAL, SubModules::Jsonrpc, MsgType::RequestNet),
        NetAction::ReplyRpc { data: vec![1, 2, 3] }
    );
    assert_eq!(
        received(&net, Source::LOCAL, SubModules::Snapshot, MsgType::SnapshotReq),
        NetAction::Snapshot { data: vec![1, 2, 3] }
    );
    assert_eq!(
        received(&net, Source::LOCAL, SubModules::Auth, MsgType::Request),
        NetAction::Unexpected
    );
}

#[test]
fn remote_messages_are_routed() {
    let net = network(false);
    for msg_type in [MsgType::Status, MsgType::SyncResponse] {
        assert_eq!(
            received(&net, Source::REMOTE, SubModules::Synchronizer, msg_type),
            NetAction::Synchronize {
                source: Source::REMOTE,
                key_text: "written.key".to_string(),
                data: vec![1, 2, 3],
            }
        );
    }
    assert_eq!(
        received(&net, Source::REMOTE, SubModules::Synchronizer, MsgType::SyncRequest),
        NetAction::Publish {
            key: RoutingKey::new(SubModules::Net, MsgType::SyncRequest),
            data: vec![1, 2, 3],
        }
    );
    assert_eq!(
        received(&net, Source::REMOTE, SubModules::Auth, MsgType::Request),
        NetAction::NewTx {
            key: RoutingKey::new(SubModules::Net, MsgType::Request),
            data: vec![1, 2, 3],
        }
    );
    for msg_type in [MsgType::SignedProposal, MsgType::RawBytes] {
        assert_eq!(
            received(&net, Source::REMOTE, SubModules::Consensus, msg_type),
            NetAction::Consensus {
                key: RoutingKey::new(SubModules::Net, msg_type),
                data: vec![1, 2, 3],
            }
        );
    }
    assert_eq!(
        received(&net, Source::REMOTE, SubModules::Chain, MsgType::Status),
        NetAction::Unexpected
    );
    assert_eq!(
        received(&net, Source::REMOTE, SubModules::Snapshot, MsgType::SnapshotReq),
        NetAction::Unexpected
    );
}

#[test]
fn a_node_that_is_cut_off_heeds_only_snapshots() {
    let net = network(true);
    assert_eq!(
        received(&net, Source::LOCAL, SubModules::Chain, MsgType::Status),
        NetAction::Drop
    );
    assert_eq!(
        received(&net, Source::REMOTE, SubModules::Auth, MsgType::Request),
        NetAction::Drop
    );
    assert_eq!(
        received(&net, Source::LOCAL, SubModules::Snapshot, MsgType::SnapshotReq),
        NetAction::Snapshot { data: vec![1, 2, 3] }
    );
}

#[test]
fn a_snapshot_cuts_the_node_off_until_it_ends() {
    let mut net = network(false);
    let answer = |resp: Resp| {
        Some(NetReply {
            key: RoutingKey::new(SubModules::Net, MsgType::SnapshotResp),
            message: OutMessage::SnapshotResp(SnapshotResp { resp, flag: true }),
        })
    };
    assert_eq!(net.snapshot_req(snapshot(Cmd::Snapshot)), None);
    assert!(!net.is_disconnect());
    assert_eq!(net.snapshot_req(snapshot(Cmd::Begin)), answer(Resp::BeginAck));
    assert!(net.is_disconnect());
    assert_eq!(net.snapshot_req(snapshot(Cmd::Restore)), None);
    assert_eq!(net.snapshot_req(snapshot(Cmd::Clear)), answer(Resp::ClearAck));
    assert!(net.is_disconnect());
    assert_eq!(net.snapshot_req(snapshot(Cmd::End)), answer(Resp::EndAck));
    assert!(!net.is_disconnect());
}

#[test]
fn connected_peers_are_counted() {
    let peers_pair = vec![
        Peer { connected: true },
        Peer { connected: false },
        Peer { connected: true },
        Peer { connected: true },
    ];
    let net = NetWork::new(Connection { is_disconnect: false, peers_pair });
    let reply = net.reply_rpc(Some(NetRequest { request_id: vec![9], peercount: true }));
    assert_eq!(
        reply,
        Some(NetReply {
            key: RoutingKey::new(SubModules::Net, MsgType::Response),
            message: OutMessage::Response(Response {
                request_id: vec![9],
                content: ResponseContent::PeerCount(3),
            }),
        })
    );
}

#[test]
fn other_questions_are_not_answered() {
    let net = network(false);
    assert_eq!(net.reply_rpc(Some(NetRequest { request_id: vec![9], peercount: false })), None);
    assert_eq!(net.reply_rpc(None), None);
}
