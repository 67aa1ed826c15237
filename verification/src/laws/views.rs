//! What is said of a message is said of all its fields: no view leaves one out or alters it.

use crate::actions::{
    actions_view, hash_set, Action, ActionView, OutMessage, OutMessageView, Response,
    ResponseContent, ResponseContentView, ResponseView, SignedTransaction,
};
use crate::batch::PendingTx;
use crate::bytes::H256;
use crate::messages::{
    txs_view, BlackList, BlockTxHashes, InMessage, InMessageView,
    NewTxRequest, Request, RequestView, Ret, SnapshotReq, SnapshotResp,
    VerifyBlockReq, VerifyTxReq,
};
use crate::network::{Connection, NetAction, NetActionView, NetReply, Source};
use crate::quota::{limits_map, spendings_view, AccountGasLimit};
use crate::routing::RoutingKey;
use vstd::prelude::*;

verus! {

/// What is said of a request to check a transaction is said of each of its fields.
pub proof fn tx_requests_are_seen_whole(req: VerifyTxReq)
    ensures
        req@.valid_until_block == req.valid_until_block,
        req@.hash == req.hash@,
        req@.crypto == req.crypto,
        req@.signature == req.signature@,
        req@.nonce == req.nonce@,
        req@.value == req.value@,
        req@.chain_id == req.chain_id,
        req@.quota == req.quota,
        req@.signer == req.signer@,
        req@.tx_hash == req.tx_hash@,
{
}

/// What is said of a request to check a block is said of its whole id and of each transaction, in
/// order; and its height is what its id holds above the lowest sixteen bits.
pub proof fn block_requests_are_seen_whole(req: VerifyBlockReq, i: int)
    ensures
        req@.id == req.id,
        req@.reqs.len() == req.reqs.len(),
        0 <= i < req.reqs.len() ==> req@.reqs[i] == req.reqs[i]@,
        req@.height() == req.id >> 16,
{
}

/// What is said of a client's request is said of each of its fields.
pub proof fn new_tx_requests_are_seen_whole(tx: NewTxRequest)
    ensures
        tx@.request_id == tx.request_id@,
        tx@.un_tx == tx.un_tx@,
        tx@.un_tx.to == tx.un_tx.to@,
        tx@.un_tx.payload == tx.un_tx.payload@,
        tx@.un_tx.verify_req == tx.un_tx.verify_req@,
{
}

/// What is said of a request is said of each of its transactions, in order.
pub proof fn requests_are_seen_whole(txs: Vec<NewTxRequest>, tx: NewTxRequest, i: int)
    ensures
        Request::Batch(txs)@ == RequestView::Batch(txs_view(txs@)),
        txs_view(txs@).len() == txs.len(),
        0 <= i < txs.len() ==> txs_view(txs@)[i] == txs[i]@,
        Request::UnTx(tx)@ == RequestView::UnTx(tx@),
        Request::Other@ == RequestView::Other,
{
}

/// What is said of a block of the chain is said of each of its fields and of each hash in it.
pub proof fn blocks_are_seen_whole(block: BlockTxHashes, i: int)
    ensures
        block@.height == block.height,
        block@.tx_hashes.len() == block.tx_hashes.len(),
        0 <= i < block.tx_hashes.len() ==> block@.tx_hashes[i] == block.tx_hashes[i]@,
        block@.block_gas_limit == block.block_gas_limit,
        block@.account_gas_limit.common_gas_limit == block.account_gas_limit.common_gas_limit,
        block@.account_gas_limit.specific_gas_limit == limits_map(
            block.account_gas_limit.specific_gas_limit@,
        ),
        block@.check_quota == block.check_quota,
{
}

/// What is said of news of the black list is said of each account in both lists.
pub proof fn black_lists_are_seen_whole(news: BlackList, i: int)
    ensures
        news@.clear_list.len() == news.clear_list.len(),
        0 <= i < news.clear_list.len() ==> news@.clear_list[i] == news.clear_list[i]@,
        news@.black_list.len() == news.black_list.len(),
        0 <= i < news.black_list.len() ==> news@.black_list[i] == news.black_list[i]@,
{
}

/// What is said of a message that arrives is said of what it holds.
pub proof fn messages_are_seen_whole(
    block: BlockTxHashes,
    news: BlackList,
    block_req: VerifyBlockReq,
    request: Request,
    chain_id: u32,
    snapshot: SnapshotReq,
)
    ensures
        InMessage::BlockTxHashes(block)@ == InMessageView::BlockTxHashes(block@),
        InMessage::BlackList(news)@ == InMessageView::BlackList(news@),
        InMessage::VerifyBlockReq(block_req)@ == InMessageView::VerifyBlockReq(block_req@),
        InMessage::Request(request)@ == InMessageView::Request(request@),
        (InMessage::Miscellaneous { chain_id })@ == (InMessageView::Miscellaneous { chain_id }),
        InMessage::SnapshotReq(snapshot)@ == InMessageView::SnapshotReq(snapshot),
        InMessage::Other@ == InMessageView::Other,
{
}

/// What is said of a message that is sent is said of each of its fields.
pub proof fn sent_messages_are_seen_whole(
    id: u64,
    ret: Ret,
    height: u64,
    resp: SnapshotResp,
    request_id: Vec<u8>,
    content: ResponseContent,
    error_msg: String,
    tx_hash: H256,
    status: String,
    count: u32,
)
    ensures
        (OutMessage::VerifyBlockResp { id, ret })@ == (OutMessageView::VerifyBlockResp { id, ret }),
        (OutMessage::BlockTxHashesReq { height })@ == (OutMessageView::BlockTxHashesReq { height }),
        OutMessage::MiscellaneousReq@ == OutMessageView::MiscellaneousReq,
        OutMessage::SnapshotResp(resp)@ == OutMessageView::SnapshotResp(resp),
        OutMessage::Response((Response { request_id, content }))@ == OutMessageView::Response(
            (ResponseView { request_id: request_id@, content: content@ }),
        ),
        (ResponseContent::TxError { error_msg })@ == (ResponseContentView::TxError {
            error_msg: error_msg@,
        }),
        (ResponseContent::TxState { tx_hash, status })@ == (ResponseContentView::TxState {
            tx_hash: tx_hash@,
            status: status@,
        }),
        ResponseContent::PeerCount(count)@ == ResponseContentView::PeerCount(count),
{
}

/// What is said of an action is said of each of its fields.
pub proof fn actions_are_seen_whole(
    key: RoutingKey,
    message: OutMessage,
    tx_hashes: Vec<H256>,
    height: usize,
    block_gas_limit: u64,
    account_gas_limit: AccountGasLimit,
    check_quota: bool,
    signed_tx: SignedTransaction,
    request: NewTxRequest,
)
    ensures
        (Action::Publish { key, message })@ == (ActionView::Publish { key, message: message@ }),
        (Action::RemoveFromPool { tx_hashes })@ == (ActionView::RemoveFromPool {
            tx_hashes: hash_set(tx_hashes@),
        }),
        Action::ClearPool@ == ActionView::ClearPool,
        (Action::ProposeTxList { height, block_gas_limit, account_gas_limit, check_quota })@ == (
        ActionView::ProposeTxList {
            height,
            block_gas_limit,
            account_gas_limit: account_gas_limit@,
            check_quota,
        }),
        (Action::AddToPool { signed_tx, request })@ == (ActionView::AddToPool {
            signed_tx: signed_tx@,
            request: request@,
        }),
        (Action::ForwardRequest { request })@ == (ActionView::ForwardRequest { request: request@ }),
        signed_tx@.transaction_with_sig == signed_tx.transaction_with_sig@,
        signed_tx@.signer == signed_tx.signer@,
        signed_tx@.tx_hash == signed_tx.tx_hash@,
        account_gas_limit@.common_gas_limit == account_gas_limit.common_gas_limit,
{
}

/// A set of hashes is that of the hashes in the list, and what is said of a list of actions is said of
/// each, in order.
pub proof fn lists_are_seen_whole(
    hashes: Seq<H256>,
    hash: Seq<u8>,
    actions: Seq<Action>,
    spendings: Seq<([u8; 20], u64)>,
    i: int,
)
    ensures
        hash_set(hashes).contains(hash) <==> exists|j: int|
            0 <= j < hashes.len() && (#[trigger] hashes[j])@ == hash,
        actions_view(actions).len() == actions.len(),
        0 <= i < actions.len() ==> actions_view(actions)[i] == actions[i]@,
        spendings_view(spendings).len() == spendings.len(),
        0 <= i < spendings.len() ==> spendings_view(spendings)[i].0 == spendings[i].0@
            && spendings_view(spendings)[i].1 == spendings[i].1,
{
}

/// What is said of a transaction of a batch is said of the request and of its signer, if there is one.
pub proof fn pending_txs_are_seen_whole(pending: PendingTx)
    ensures
        pending@.tx == pending.tx@,
        pending.signer is None <==> pending@.signer is None,
        pending.signer matches Some(signer) ==> pending@.signer == Some(signer@),
{
}

/// What is said of the links of a node, of what the relay asks for, and of what it replies, is said of
/// each of their fields.
pub proof fn relayed_messages_are_seen_whole(
    con: Connection,
    source: Source,
    key_text: String,
    key: RoutingKey,
    data: Vec<u8>,
    reply: NetReply,
)
    ensures
        con@.is_disconnect == con.is_disconnect,
        con@.peers == con.peers_pair@,
        (NetAction::Synchronize { source, key_text, data })@ == (NetActionView::Synchronize {
            source,
            key_text: key_text@,
            data: data@,
        }),
        (NetAction::Broadcast { key, data })@ == (NetActionView::Broadcast { key, data: data@ }),
        (NetAction::Publish { key, data })@ == (NetActionView::Publish { key, data: data@ }),
        (NetAction::NewTx { key, data })@ == (NetActionView::NewTx { key, data: data@ }),
        (NetAction::Consensus { key, data })@ == (NetActionView::Consensus { key, data: data@ }),
        (NetAction::ReplyRpc { data })@ == (NetActionView::ReplyRpc { data: data@ }),
        (NetAction::Snapshot { data })@ == (NetActionView::Snapshot { data: data@ }),
        NetAction::Drop@ == NetActionView::Drop,
        NetAction::Unexpected@ == NetActionView::Unexpected,
        reply@.key == reply.key,
        reply@.message == reply.message@,
{
}

} // verus!
