//! What the services ask their surroundings to do.

use crate::bytes::H256;
use crate::messages::{
    NewTxRequest, NewTxRequestView, Ret, SnapshotResp, UnverifiedTransaction,
    UnverifiedTransactionView,
};
use crate::quota::{AccountGasLimit, AccountGasLimitView};
use crate::routing::RoutingKey;
use vstd::prelude::*;

verus! {

/// A transaction whose signer is known.
#[derive(Debug, PartialEq, Eq)]
pub struct SignedTransaction {
    pub transaction_with_sig: UnverifiedTransaction,
    pub signer: Vec<u8>,
    pub tx_hash: Vec<u8>,
}

#[verifier::ext_equal]
pub struct SignedTransactionView {
    pub transaction_with_sig: UnverifiedTransactionView,
    pub signer: Seq<u8>,
    pub tx_hash: Seq<u8>,
}

impl View for SignedTransaction {
    type V = SignedTransactionView;

    open spec fn view(&self) -> SignedTransactionView {
        SignedTransactionView {
            transaction_with_sig: self.transaction_with_sig@,
            signer: self.signer@,
            tx_hash: self.tx_hash@,
        }
    }
}

/// What a response to a client says.
#[derive(Debug, PartialEq, Eq)]
pub enum ResponseContent {
    /// The transaction was refused by the checks.
    TxError { error_msg: String },
    /// The transaction reached the pool, or was there already.
    TxState { tx_hash: H256, status: String },
    /// How many peers are connected.
    PeerCount(u32),
}

#[verifier::ext_equal]
pub enum ResponseContentView {
    TxError { error_msg: Seq<char> },
    TxState { tx_hash: Seq<u8>, status: Seq<char> },
    PeerCount(u32),
}

impl View for ResponseContent {
    type V = ResponseContentView;

    open spec fn view(&self) -> ResponseContentView {
        match self {
            ResponseContent::TxError { error_msg } => ResponseContentView::TxError {
                error_msg: error_msg@,
            },
            ResponseContent::TxState { tx_hash, status } => ResponseContentView::TxState {
                tx_hash: tx_hash@,
                status: status@,
            },
            ResponseContent::PeerCount(count) => ResponseContentView::PeerCount(*count),
        }
    }
}

/// The response to the request of a client.
#[derive(Debug, PartialEq, Eq)]
pub struct Response {
    pub request_id: Vec<u8>,
    pub content: ResponseContent,
}

#[verifier::ext_equal]
pub struct ResponseView {
    pub request_id: Seq<u8>,
    pub content: ResponseContentView,
}

impl View for Response {
    type V = ResponseView;

    open spec fn view(&self) -> ResponseView {
        ResponseView { request_id: self.request_id@, content: self.content@ }
    }
}

/// A message that the service sends.
#[derive(Debug, PartialEq, Eq)]
pub enum OutMessage {
    VerifyBlockResp { id: u64, ret: Ret },
    Response(Response),
    BlockTxHashesReq { height: u64 },
    MiscellaneousReq,
    SnapshotResp(SnapshotResp),
}

#[verifier::ext_equal]
pub enum OutMessageView {
    VerifyBlockResp { id: u64, ret: Ret },
    Response(ResponseView),
    BlockTxHashesReq { height: u64 },
    MiscellaneousReq,
    SnapshotResp(SnapshotResp),
}

impl View for OutMessage {
    type V = OutMessageView;

    open spec fn view(&self) -> OutMessageView {
        match self {
            OutMessage::VerifyBlockResp { id, ret } => OutMessageView::VerifyBlockResp {
                id: *id,
                ret: *ret,
            },
            OutMessage::Response(response) => OutMessageView::Response(response@),
            OutMessage::BlockTxHashesReq { height } => OutMessageView::BlockTxHashesReq {
                height: *height,
            },
            OutMessage::MiscellaneousReq => OutMessageView::MiscellaneousReq,
            OutMessage::SnapshotResp(resp) => OutMessageView::SnapshotResp(*resp),
        }
    }
}

/// What the transaction service asks for.
#[derive(Debug, PartialEq, Eq)]
pub enum Action {
    /// Send `message` under `key`.
    Publish { key: RoutingKey, message: OutMessage },
    /// Take the transactions with these hashes out of the pool.
    RemoveFromPool { tx_hashes: Vec<H256> },
    /// Empty the pool.
    ClearPool,
    /// Propose the next block from the pool.
    ProposeTxList {
        height: usize,
        block_gas_limit: u64,
        account_gas_limit: AccountGasLimit,
        check_quota: bool,
    },
    /// Add a transaction to the pool, and report whether it was new.
    AddToPool { signed_tx: SignedTransaction, request: NewTxRequest },
    /// Pass a request on to the other nodes.
    ForwardRequest { request: NewTxRequest },
}

#[verifier::ext_equal]
pub enum ActionView {
    Publish { key: RoutingKey, message: OutMessageView },
    RemoveFromPool { tx_hashes: Set<Seq<u8>> },
    ClearPool,
    ProposeTxList {
        height: usize,
        block_gas_limit: u64,
        account_gas_limit: AccountGasLimitView,
        check_quota: bool,
    },
    AddToPool { signed_tx: SignedTransactionView, request: NewTxRequestView },
    ForwardRequest { request: NewTxRequestView },
}

/// The hashes that are in `list`.
pub open spec fn hash_set(list: Seq<H256>) -> Set<Seq<u8>> {
    Set::new(|h: Seq<u8>| exists|i: int| 0 <= i < list.len() && (#[trigger] list[i])@ == h)
}

impl View for Action {
    type V = ActionView;

    open spec fn view(&self) -> ActionView {
        match self {
            Action::Publish { key, message } => ActionView::Publish {
                key: *key,
                message: message@,
            },
            Action::RemoveFromPool { tx_hashes } => ActionView::RemoveFromPool {
                tx_hashes: hash_set(tx_hashes@),
            },
            Action::ClearPool => ActionView::ClearPool,
            Action::ProposeTxList { height, block_gas_limit, account_gas_limit, check_quota } =>
                ActionView::ProposeTxList {
                height: *height,
                block_gas_limit: *block_gas_limit,
                account_gas_limit: account_gas_limit@,
                check_quota: *check_quota,
            },
            Action::AddToPool { signed_tx, request } => ActionView::AddToPool {
                signed_tx: signed_tx@,
                request: request@,
            },
            Action::ForwardRequest { request } => ActionView::ForwardRequest { request: request@ },
        }
    }
}

/// The views of a list of actions.
pub open spec fn actions_view(actions: Seq<Action>) -> Seq<ActionView> {
    actions.map_values(|a: Action| a@)
}

} // verus!
