//! The messages that the services exchange, as plain values.

use crate::quota::{AccountGasLimit, AccountGasLimitView};
use vstd::prelude::*;

verus! {

/// The outcome of a check.
#[derive(Clone, Copy, Debug, PartialEq, Eq, Structural)]
pub enum Ret {
    OK,
    BadSig,
    NotReady,
    Busy,
    BadChainId,
    InvalidNonce,
    InvalidValue,
    InvalidUntilBlock,
    Dup,
    QuotaNotEnough,
    Forbidden,
}

impl Ret {
    /// The text by which an outcome is reported to a client.
    pub open spec fn text(self) -> Seq<char> {
        match self {
            Ret::OK => "OK"@,
            Ret::BadSig => "BadSig"@,
            Ret::NotReady => "NotReady"@,
            Ret::Busy => "Busy"@,
            Ret::BadChainId => "BadChainId"@,
            Ret::InvalidNonce => "InvalidNonce"@,
            Ret::InvalidValue => "InvalidValue"@,
            Ret::InvalidUntilBlock => "InvalidUntilBlock"@,
            Ret::Dup => "Dup"@,
            Ret::QuotaNotEnough => "QuotaNotEnough"@,
            Ret::Forbidden => "Forbidden"@,
        }
    }

    /// The text by which the outcome is reported to a client.
    pub fn to_text(self) -> (text: String)
        ensures
            text@ == self.text(),
    {
        let text = match self {
            Ret::OK => "OK",
            Ret::BadSig => "BadSig",
            Ret::NotReady => "NotReady",
            Ret::Busy => "Busy",
            Ret::BadChainId => "BadChainId",
            Ret::InvalidNonce => "InvalidNonce",
            Ret::InvalidValue => "InvalidValue",
            Ret::InvalidUntilBlock => "InvalidUntilBlock",
            Ret::Dup => "Dup",
            Ret::QuotaNotEnough => "QuotaNotEnough",
            Ret::Forbidden => "Forbidden",
        };
        text.to_owned()
    }
}

/// The signature scheme of a transaction.
#[derive(Clone, Copy, Debug, PartialEq, Eq, Structural)]
pub enum Crypto {
    SECP,
    Other,
}

/// What is to be checked of one transaction.
#[derive(Debug, PartialEq, Eq)]
pub struct VerifyTxReq {
    pub valid_until_block: u64,
    /// The hash that was signed.
    pub hash: Vec<u8>,
    pub crypto: Crypto,
    pub signature: Vec<u8>,
    pub nonce: String,
    pub value: Vec<u8>,
    pub chain_id: u32,
    pub quota: u64,
    /// The public key of the signer; empty as long as it is not known.
    pub signer: Vec<u8>,
    /// The hash by which the transaction is known.
    pub tx_hash: Vec<u8>,
}

#[verifier::ext_equal]
pub struct VerifyTxReqView {
    pub valid_until_block: u64,
    pub hash: Seq<u8>,
    pub crypto: Crypto,
    pub signature: Seq<u8>,
    pub nonce: Seq<char>,
    pub value: Seq<u8>,
    pub chain_id: u32,
    pub quota: u64,
    pub signer: Seq<u8>,
    pub tx_hash: Seq<u8>,
}

impl VerifyTxReqView {
    /// Both hashes have the length of a hash.
    pub open spec fn well_formed(self) -> bool {
        &&& self.hash.len() == 32
        &&& self.tx_hash.len() == 32
    }
}

impl View for VerifyTxReq {
    type V = VerifyTxReqView;

    open spec fn view(&self) -> VerifyTxReqView {
        VerifyTxReqView {
            valid_until_block: self.valid_until_block,
            hash: self.hash@,
            crypto: self.crypto,
            signature: self.signature@,
            nonce: self.nonce@,
            value: self.value@,
            chain_id: self.chain_id,
            quota: self.quota,
            signer: self.signer@,
            tx_hash: self.tx_hash@,
        }
    }
}

impl Clone for VerifyTxReq {
    fn clone(&self) -> (copy: Self)
        ensures
            copy@ == self@,
    {
        VerifyTxReq {
            valid_until_block: self.valid_until_block,
            hash: self.hash.clone(),
            crypto: self.crypto,
            signature: self.signature.clone(),
            nonce: self.nonce.clone(),
            value: self.value.clone(),
            chain_id: self.chain_id,
            quota: self.quota,
            signer: self.signer.clone(),
            tx_hash: self.tx_hash.clone(),
        }
    }
}

/// The views of a list of requests.
pub open spec fn reqs_view(reqs: Seq<VerifyTxReq>) -> Seq<VerifyTxReqView> {
    reqs.map_values(|r: VerifyTxReq| r@)
}

/// What is to be checked of one block.
#[derive(Debug, PartialEq, Eq)]
pub struct VerifyBlockReq {
    /// The height of the block in all but the lowest sixteen bits.
    pub id: u64,
    pub reqs: Vec<VerifyTxReq>,
}

#[verifier::ext_equal]
pub struct VerifyBlockReqView {
    pub id: u64,
    pub reqs: Seq<VerifyTxReqView>,
}

impl VerifyBlockReqView {
    /// The height of the block that the request is about.
    pub open spec fn height(self) -> u64 {
        self.id >> 16
    }
}

impl View for VerifyBlockReq {
    type V = VerifyBlockReqView;

    open spec fn view(&self) -> VerifyBlockReqView {
        VerifyBlockReqView { id: self.id, reqs: reqs_view(self.reqs@) }
    }
}

/// A transaction as a client sent it.
#[derive(Debug, PartialEq, Eq)]
pub struct UnverifiedTransaction {
    /// The account that the transaction is for; empty where it creates a contract.
    pub to: String,
    /// The transaction and its signature, encoded.
    pub payload: Vec<u8>,
    /// What is to be checked of the transaction.
    pub verify_req: VerifyTxReq,
}

#[verifier::ext_equal]
pub struct UnverifiedTransactionView {
    pub to: Seq<char>,
    pub payload: Seq<u8>,
    pub verify_req: VerifyTxReqView,
}

impl View for UnverifiedTransaction {
    type V = UnverifiedTransactionView;

    open spec fn view(&self) -> UnverifiedTransactionView {
        UnverifiedTransactionView {
            to: self.to@,
            payload: self.payload@,
            verify_req: self.verify_req@,
        }
    }
}

impl Clone for UnverifiedTransaction {
    fn clone(&self) -> (copy: Self)
        ensures
            copy@ == self@,
    {
        UnverifiedTransaction {
            to: self.to.clone(),
            payload: self.payload.clone(),
            verify_req: self.verify_req.clone(),
        }
    }
}

impl UnverifiedTransaction {
    /// What is to be checked of the transaction.
    pub fn tx_verify_req_msg(&self) -> (req: VerifyTxReq)
        ensures
            req@ == self@.verify_req,
    {
        self.verify_req.clone()
    }
}

/// A client's request to take up one transaction.
#[derive(Debug, PartialEq, Eq)]
pub struct NewTxRequest {
    pub request_id: Vec<u8>,
    pub un_tx: UnverifiedTransaction,
}

#[verifier::ext_equal]
pub struct NewTxRequestView {
    pub request_id: Seq<u8>,
    pub un_tx: UnverifiedTransactionView,
}

impl View for NewTxRequest {
    type V = NewTxRequestView;

    open spec fn view(&self) -> NewTxRequestView {
        NewTxRequestView { request_id: self.request_id@, un_tx: self.un_tx@ }
    }
}

impl Clone for NewTxRequest {
    fn clone(&self) -> (copy: Self)
        ensures
            copy@ == self@,
    {
        NewTxRequest { request_id: self.request_id.clone(), un_tx: self.un_tx.clone() }
    }
}

/// The views of a list of requests.
pub open spec fn txs_view(txs: Seq<NewTxRequest>) -> Seq<NewTxRequestView> {
    txs.map_values(|t: NewTxRequest| t@)
}

/// A request from a client or from another node.
#[derive(Debug, PartialEq, Eq)]
pub enum Request {
    /// Several new transactions.
    Batch(Vec<NewTxRequest>),
    /// One new transaction.
    UnTx(NewTxRequest),
    /// Anything else.
    Other,
}

#[verifier::ext_equal]
pub enum RequestView {
    Batch(Seq<NewTxRequestView>),
    UnTx(NewTxRequestView),
    Other,
}

impl View for Request {
    type V = RequestView;

    open spec fn view(&self) -> RequestView {
        match self {
            Request::Batch(txs) => RequestView::Batch(txs_view(txs@)),
            Request::UnTx(tx) => RequestView::UnTx(tx@),
            Request::Other => RequestView::Other,
        }
    }
}

/// The views of a list of byte strings.
pub open spec fn byte_strings_view(list: Seq<Vec<u8>>) -> Seq<Seq<u8>> {
    list.map_values(|b: Vec<u8>| b@)
}

/// Every byte string of `list` is `len` bytes long.
pub open spec fn all_of_len(list: Seq<Seq<u8>>, len: nat) -> bool {
    forall|i: int| 0 <= i < list.len() ==> (#[trigger] list[i]).len() == len
}

/// Whether every byte string of `list` is `len` bytes long.
fn are_all_of_len(list: &Vec<Vec<u8>>, len: usize) -> (of_len: bool)
    ensures
        of_len == all_of_len(byte_strings_view(list@), len as nat),
{
    let mut i: usize = 0;
    while i < list.len()
        invariant
            i <= list.len(),
            forall|j: int|
                0 <= j < i ==> (#[trigger] byte_strings_view(list@)[j]).len() == len,
        decreases list.len() - i,
    {
        if list[i].len() != len {
            assert(byte_strings_view(list@)[i as int].len() != len);
            return false;
        }
        i += 1;
    }
    true
}

/// The transactions of one block of the chain, and the limits that hold from that block on.
#[derive(Debug, PartialEq, Eq)]
pub struct BlockTxHashes {
    pub height: u64,
    pub tx_hashes: Vec<Vec<u8>>,
    pub block_gas_limit: u64,
    pub account_gas_limit: AccountGasLimit,
    pub check_quota: bool,
}

#[verifier::ext_equal]
pub struct BlockTxHashesView {
    pub height: u64,
    pub tx_hashes: Seq<Seq<u8>>,
    pub block_gas_limit: u64,
    pub account_gas_limit: AccountGasLimitView,
    pub check_quota: bool,
}

impl BlockTxHashesView {
    pub open spec fn well_formed(self) -> bool {
        all_of_len(self.tx_hashes, 32)
    }
}

impl View for BlockTxHashes {
    type V = BlockTxHashesView;

    open spec fn view(&self) -> BlockTxHashesView {
        BlockTxHashesView {
            height: self.height,
            tx_hashes: byte_strings_view(self.tx_hashes@),
            block_gas_limit: self.block_gas_limit,
            account_gas_limit: self.account_gas_limit@,
            check_quota: self.check_quota,
        }
    }
}

impl BlockTxHashes {
    /// Whether every hash has the length of a hash.
    pub fn is_well_formed(&self) -> (well_formed: bool)
        ensures
            well_formed == self@.well_formed(),
    {
        are_all_of_len(&self.tx_hashes, 32)
    }
}

/// The addresses that are to be taken off the black list, and those that were reported.
#[derive(Debug, PartialEq, Eq)]
pub struct BlackList {
    pub clear_list: Vec<Vec<u8>>,
    pub black_list: Vec<Vec<u8>>,
}

#[verifier::ext_equal]
pub struct BlackListView {
    pub clear_list: Seq<Seq<u8>>,
    pub black_list: Seq<Seq<u8>>,
}

impl BlackListView {
    pub open spec fn well_formed(self) -> bool {
        all_of_len(self.clear_list, 20) && all_of_len(self.black_list, 20)
    }
}

impl View for BlackList {
    type V = BlackListView;

    open spec fn view(&self) -> BlackListView {
        BlackListView {
            clear_list: byte_strings_view(self.clear_list@),
            black_list: byte_strings_view(self.black_list@),
        }
    }
}

impl BlackList {
    /// Whether every address has the length of an address.
    pub fn is_well_formed(&self) -> (well_formed: bool)
        ensures
            well_formed == self@.well_formed(),
    {
        are_all_of_len(&self.clear_list, 20) && are_all_of_len(&self.black_list, 20)
    }
}

/// The steps of taking or restoring a snapshot of the node.
#[derive(Clone, Copy, Debug, PartialEq, Eq, Structural)]
pub enum Cmd {
    Snapshot,
    Begin,
    Restore,
    Clear,
    End,
}

#[derive(Clone, Copy, Debug, PartialEq, Eq, Structural)]
pub struct SnapshotReq {
    pub cmd: Cmd,
    /// The height of the chain once the snapshot is restored.
    pub end_height: u64,
}

/// The answers to the steps of a snapshot.
#[derive(Clone, Copy, Debug, PartialEq, Eq, Structural)]
pub enum Resp {
    BeginAck,
    ClearAck,
    EndAck,
}

#[derive(Clone, Copy, Debug, PartialEq, Eq, Structural)]
pub struct SnapshotResp {
    pub resp: Resp,
    /// Whether the step succeeded.
    pub flag: bool,
}

impl Cmd {
    /// The answer to a step, for the steps that are answered.
    pub open spec fn ack(self) -> Option<SnapshotResp> {
        match self {
            Cmd::Begin => Some(SnapshotResp { resp: Resp::BeginAck, flag: true }),
            Cmd::Clear => Some(SnapshotResp { resp: Resp::ClearAck, flag: true }),
            Cmd::End => Some(SnapshotResp { resp: Resp::EndAck, flag: true }),
            Cmd::Snapshot | Cmd::Restore => None,
        }
    }
}

/// A message that reaches the service.
#[derive(Debug, PartialEq, Eq)]
pub enum InMessage {
    BlockTxHashes(BlockTxHashes),
    BlackList(BlackList),
    VerifyBlockReq(VerifyBlockReq),
    Request(Request),
    Miscellaneous { chain_id: u32 },
    SnapshotReq(SnapshotReq),
    Other,
}

#[verifier::ext_equal]
pub enum InMessageView {
    BlockTxHashes(BlockTxHashesView),
    BlackList(BlackListView),
    VerifyBlockReq(VerifyBlockReqView),
    Request(RequestView),
    Miscellaneous { chain_id: u32 },
    SnapshotReq(SnapshotReq),
    Other,
}

impl View for InMessage {
    type V = InMessageView;

    open spec fn view(&self) -> InMessageView {
        match self {
            InMessage::BlockTxHashes(m) => InMessageView::BlockTxHashes(m@),
            InMessage::BlackList(m) => InMessageView::BlackList(m@),
            InMessage::VerifyBlockReq(m) => InMessageView::VerifyBlockReq(m@),
            InMessage::Request(m) => InMessageView::Request(m@),
            InMessage::Miscellaneous { chain_id } => InMessageView::Miscellaneous {
                chain_id: *chain_id,
            },
            InMessage::SnapshotReq(m) => InMessageView::SnapshotReq(*m),
            InMessage::Other => InMessageView::Other,
        }
    }
}

} // verus!
