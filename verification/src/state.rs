//! The state of the transaction service, and what it makes of each message.
//!
//! Everything here is a definition: the functions of [`handler`](crate::handler) are held to it.

use crate::actions::{
    ActionView, OutMessageView, ResponseContentView, ResponseView, SignedTransactionView,
};
use crate::batch::{
    all_resolved, batch_pendings, findings, hash_of, is_latest, known_bad_refusals, refusals,
    unsigned_refusals, PendingTxView,
};
use crate::crypto::{address_of, is_address_text, strip_0x, PUBKEY_BYTES_LEN};
use crate::history::{HistoryView, BLOCKLIMIT};
use crate::messages::{
    BlackListView, BlockTxHashesView, Cmd, InMessageView, NewTxRequestView, RequestView, Ret,
    SnapshotReq, SnapshotResp, VerifyBlockReqView, VerifyTxReqView,
};
use crate::quota::{block_quota_fits, tx_quota_fits, AccountGasLimitView, Spending};
use crate::routing::{key, MsgType, RoutingKey, SubModules};
use crate::sig_cache::{entries_well_formed, lookup, put, put_all, Entry};
use crate::signature::{checks_gave, confirmed_entry, is_selection, signed_as_claimed, signer_of};
use vstd::prelude::*;

verus! {

/// The longest nonce that a transaction may carry, in bytes.
pub const MAX_NONCE_LEN: usize = 128;

/// The length of the value that a transaction carries, in bytes.
pub const VALUE_LEN: usize = 32;

/// How many reports beyond the first an account is forgiven.
pub const FIRST_CREDIT: i8 = 3;

/// The state of the transaction service.
#[verifier::ext_equal]
pub struct HandlerView {
    /// The signature checks that are remembered.
    pub cache: Seq<Entry>,
    /// How many signature checks can be remembered.
    pub cache_capacity: nat,
    /// The chain that the node belongs to, once it is known.
    pub chain_id: Option<u32>,
    /// The heights whose blocks were seen.
    pub history: HistoryView,
    /// A block that is to be checked later.
    pub cache_block_req: Option<VerifyBlockReqView>,
    /// The transactions of recent blocks, by height.
    pub history_hashes: Map<u64, Set<Seq<u8>>>,
    /// Whether each account has a limit.
    pub check_quota: bool,
    pub block_gas_limit: u64,
    pub account_gas_limit: AccountGasLimitView,
    /// How many transactions the pool may hold; without limit if zero.
    pub tx_pool_limit: usize,
    /// Whether a snapshot is being taken or restored.
    pub is_snapshot: bool,
    /// The credit that is left to the accounts that were reported.
    pub black_list: Map<Seq<u8>, i8>,
    /// Whether a new block is to be proposed.
    pub is_need_proposal_new_block: bool,
}

/// What follows a message: the state after it, and what is to be done, in order.
#[verifier::ext_equal]
pub struct Step {
    pub after: HandlerView,
    pub actions: Seq<ActionView>,
}

/// A message of the transaction service.
pub open spec fn auth_message(msg_type: MsgType, message: OutMessageView) -> ActionView {
    ActionView::Publish { key: key(SubModules::Auth, msg_type), message }
}

/// The answer to a request to check a block.
pub open spec fn block_verdict(id: u64, ret: Ret) -> ActionView {
    auth_message(MsgType::VerifyBlockResp, OutMessageView::VerifyBlockResp { id, ret })
}

/// The answer to a client whose transaction was refused.
pub open spec fn tx_failed(request_id: Seq<u8>, ret: Ret) -> ActionView {
    auth_message(
        MsgType::Response,
        OutMessageView::Response(
            ResponseView {
                request_id,
                content: ResponseContentView::TxError { error_msg: ret.text() },
            },
        ),
    )
}

/// The answer to a client whose transaction reached the pool.
pub open spec fn tx_succeeded(request_id: Seq<u8>, ret: Ret, tx_hash: Seq<u8>) -> ActionView {
    auth_message(
        MsgType::Response,
        OutMessageView::Response(
            ResponseView {
                request_id,
                content: ResponseContentView::TxState { tx_hash, status: ret.text() },
            },
        ),
    )
}

/// The request for the transactions of one block.
pub open spec fn block_tx_hashes_req(height: u64) -> ActionView {
    auth_message(MsgType::BlockTxHashesReq, OutMessageView::BlockTxHashesReq { height })
}

/// The answer to a step of a snapshot.
pub open spec fn snapshot_resp(resp: SnapshotResp) -> ActionView {
    auth_message(MsgType::SnapshotResp, OutMessageView::SnapshotResp(resp))
}

/// A refusal, for a request of a client of this node; nothing for one that another node passed on.
pub open spec fn refusal(is_local: bool, request_id: Seq<u8>, ret: Ret) -> Seq<ActionView> {
    if is_local {
        seq![tx_failed(request_id, ret)]
    } else {
        Seq::empty()
    }
}

/// A transaction is for nobody, or for an address.
pub open spec fn request_ret(request: NewTxRequestView) -> Ret {
    let to = strip_0x(request.un_tx.to);
    if to.len() == 0 || is_address_text(to) {
        Ret::OK
    } else {
        Ret::InvalidValue
    }
}

/// What becomes of a request whose signer is known and that was checked with the outcome `ret`.
pub open spec fn settled(
    is_local: bool,
    request: NewTxRequestView,
    signer: Seq<u8>,
    ret: Ret,
) -> Seq<ActionView> {
    if ret == Ret::OK {
        seq![
            ActionView::AddToPool {
                signed_tx: SignedTransactionView {
                    transaction_with_sig: request.un_tx,
                    signer,
                    tx_hash: request.un_tx.verify_req.tx_hash,
                },
                request,
            },
        ]
    } else {
        refusal(is_local, request.request_id, ret)
    }
}

/// What follows when the pool has, or has not, taken up a transaction.
pub open spec fn pooled(is_local: bool, request: NewTxRequestView, added: bool) -> Seq<ActionView> {
    let tx_hash = request.un_tx.verify_req.tx_hash;
    let answer = if is_local {
        seq![
            tx_succeeded(
                request.request_id,
                if added {
                    Ret::OK
                } else {
                    Ret::Dup
                },
                tx_hash,
            ),
        ]
    } else {
        Seq::empty()
    };
    if added {
        answer.push(ActionView::ForwardRequest { request })
    } else {
        answer
    }
}

/// The transaction hash of the first request that names no signer.
pub open spec fn first_unsigned(reqs: Seq<VerifyTxReqView>) -> Option<Seq<u8>>
    decreases reqs.len(),
{
    if reqs.len() == 0 {
        None
    } else if reqs.first().signer.len() == 0 {
        Some(reqs.first().tx_hash)
    } else {
        first_unsigned(reqs.drop_first())
    }
}

/// One of `blocks` holds the transaction with this hash.
pub open spec fn in_some_block(blocks: Map<u64, Set<Seq<u8>>>, tx_hash: Seq<u8>) -> bool {
    exists|height: u64| #[trigger]
        blocks.contains_key(height) && blocks[height].contains(tx_hash)
}

/// Every one of `reqs` carries the signature of the signer that it names.
pub open spec fn all_signed_as_claimed(reqs: Seq<VerifyTxReqView>) -> bool {
    forall|i: int| 0 <= i < reqs.len() ==> signed_as_claimed(#[trigger] reqs[i])
}

/// What the transactions of a block ask for.
pub open spec fn spendings_of(reqs: Seq<VerifyTxReqView>) -> Seq<Spending> {
    reqs.map_values(|r: VerifyTxReqView| (address_of(r.signer), r.quota))
}

/// The heights from `from` up to, but not including, `to`.
pub open spec fn heights_between(from: u64, to: u64) -> Set<u64> {
    Set::new(|h: u64| from <= h < to)
}

/// The requests for the blocks from `from` up to, but not including, `to` that are not in `blocks`.
pub open spec fn missing_block_reqs(
    blocks: Map<u64, Set<Seq<u8>>>,
    from: u64,
    to: u64,
) -> Seq<ActionView>
    decreases to - from,
{
    if from >= to {
        Seq::empty()
    } else {
        let last = (to - 1) as u64;
        let before = missing_block_reqs(blocks, from, last);
        if blocks.contains_key(last) {
            before
        } else {
            before.push(block_tx_hashes_req(last))
        }
    }
}

/// A black list after one account was reported: the first report gives it a credit, and every later
/// one takes from it until nothing is left.
pub open spec fn reported_once(black_list: Map<Seq<u8>, i8>, account: Seq<u8>) -> Map<Seq<u8>, i8> {
    if !black_list.contains_key(account) {
        black_list.insert(account, FIRST_CREDIT)
    } else if black_list[account] >= 0 {
        black_list.insert(account, (black_list[account] - 1) as i8)
    } else {
        black_list
    }
}

/// A black list after several accounts were reported, in this order.
pub open spec fn reported(
    black_list: Map<Seq<u8>, i8>,
    accounts: Seq<Seq<u8>>,
) -> Map<Seq<u8>, i8>
    decreases accounts.len(),
{
    if accounts.len() == 0 {
        black_list
    } else {
        reported_once(reported(black_list, accounts.drop_last()), accounts.last())
    }
}

/// The service has something to do with messages under `rtkey`.
pub open spec fn is_expected(rtkey: RoutingKey) -> bool {
    ||| rtkey == key(SubModules::Chain, MsgType::BlockTxHashes)
    ||| rtkey == key(SubModules::Executor, MsgType::BlackList)
    ||| rtkey == key(SubModules::Consensus, MsgType::VerifyBlockReq)
    ||| rtkey == key(SubModules::Net, MsgType::Request)
    ||| rtkey == key(SubModules::Jsonrpc, MsgType::RequestNewTxBatch)
    ||| rtkey == key(SubModules::Executor, MsgType::Miscellaneous)
    ||| rtkey == key(SubModules::Snapshot, MsgType::SnapshotReq)
}

/// A message is of the kind that its key announces.
pub open spec fn fits_key(rtkey: RoutingKey, message: InMessageView) -> bool {
    is_expected(rtkey) ==> match rtkey.msg_type {
        MsgType::BlockTxHashes => message is BlockTxHashes,
        MsgType::BlackList => message is BlackList,
        MsgType::VerifyBlockReq => message is VerifyBlockReq,
        MsgType::Miscellaneous => message is Miscellaneous,
        MsgType::SnapshotReq => message is SnapshotReq,
        _ => message is Request,
    }
}

/// The quota that all of `reqs` ask for.
pub open spec fn quotas_total(reqs: Seq<VerifyTxReqView>) -> int
    decreases reqs.len(),
{
    if reqs.len() == 0 {
        0
    } else {
        quotas_total(reqs.drop_last()) + reqs.last().quota
    }
}

impl HandlerView {
    /// The parts are well formed, the transactions of exactly those recent blocks are known that
    /// were recorded, and no credit is below the one that forbids.
    pub open spec fn well_formed(self) -> bool {
        &&& self.history.well_formed()
        &&& entries_well_formed(self.cache, self.cache_capacity)
        &&& forall|h: u64|
            h >= self.history.min_height ==> (#[trigger] self.history_hashes.contains_key(h)
                <==> self.history.heights.contains(h))
        &&& forall|a: Seq<u8>| #[trigger]
            self.black_list.contains_key(a) ==> -1 <= self.black_list[a] <= FIRST_CREDIT
    }

    /// The state of a service that has seen nothing yet.
    pub open spec fn initial(tx_pool_limit: usize, cache_capacity: nat) -> HandlerView {
        HandlerView {
            cache: Seq::empty(),
            cache_capacity,
            chain_id: None,
            history: HistoryView::empty(),
            cache_block_req: None,
            history_hashes: Map::empty(),
            check_quota: false,
            block_gas_limit: 0,
            account_gas_limit: AccountGasLimitView::zero(),
            tx_pool_limit,
            is_snapshot: false,
            black_list: Map::empty(),
            is_need_proposal_new_block: false,
        }
    }

    /// There is a height after the highest one seen.
    pub open spec fn has_next_height(self) -> bool {
        self.history.max_height < u64::MAX
    }

    /// The height of the block that comes next.
    pub open spec fn next_height(self) -> u64 {
        (self.history.max_height + 1) as u64
    }

    /// The lowest id of a request to check the block that comes next.
    pub open spec fn next_request_id(self) -> u64 {
        self.next_height() << 16
    }

    /// The node knows its chain and all recent blocks, and no snapshot is under way.
    pub open spec fn is_ready(self) -> bool {
        self.history.is_init && self.chain_id is Some && !self.is_snapshot
    }

    /// The pool has no room for `tx_count` more transactions than the `pool_len` it holds.
    pub open spec fn is_flow_control(self, tx_count: nat, pool_len: nat) -> bool {
        self.tx_pool_limit != 0 && tx_count + pool_len > self.tx_pool_limit
    }

    /// The state with another cache of signature checks.
    pub open spec fn with_cache(self, cache: Seq<Entry>) -> HandlerView {
        HandlerView { cache, ..self }
    }

    /// The state after one signature check was remembered.
    pub open spec fn remember(self, hash: Seq<u8>, value: Option<Seq<u8>>) -> HandlerView {
        self.with_cache(put(self.cache, self.cache_capacity, hash, value))
    }

    /// The state after several signature checks were remembered.
    pub open spec fn remember_all(self, news: Seq<Entry>) -> HandlerView {
        self.with_cache(put_all(self.cache, self.cache_capacity, news))
    }

    /// The block to be checked later, after `req` came too early or too late: of `req` and the one
    /// that was kept, the one with the higher id, unless the next block is past it.
    pub open spec fn kept_block_req(self, req: VerifyBlockReqView) -> Option<VerifyBlockReqView> {
        match self.cache_block_req {
            Some(kept) => if req.id > kept.id && req.id >= self.next_request_id() {
                Some(req)
            } else if self.next_request_id() > kept.id {
                None
            } else {
                Some(kept)
            },
            None => if req.id > self.next_request_id() {
                Some(req)
            } else {
                None
            },
        }
    }

    /// The state after `req` came too early or too late.
    pub open spec fn keep_block_req(self, req: VerifyBlockReqView) -> HandlerView {
        HandlerView { cache_block_req: self.kept_block_req(req), ..self }
    }

    /// A recent block holds the transaction with this hash.
    pub open spec fn is_dup(self, tx_hash: Seq<u8>) -> bool {
        in_some_block(self.history_hashes, tx_hash)
    }

    /// The outcome of the checks of a transaction's chain, nonce and value.
    pub open spec fn tx_head_ret(self, req: VerifyTxReqView) -> Ret {
        if Some(req.chain_id) != self.chain_id {
            Ret::BadChainId
        } else if vstd::utf8::encode_utf8(req.nonce).len() > MAX_NONCE_LEN {
            Ret::InvalidNonce
        } else if req.value.len() != VALUE_LEN {
            Ret::InvalidValue
        } else {
            Ret::OK
        }
    }

    /// The outcome of the checks of a transaction's chain, nonce, value and lifetime.
    pub open spec fn tx_form_ret(self, req: VerifyTxReqView) -> Ret {
        let ret = self.tx_head_ret(req);
        if ret != Ret::OK {
            ret
        } else if !(self.next_height() <= req.valid_until_block < self.next_height() + BLOCKLIMIT) {
            Ret::InvalidUntilBlock
        } else {
            Ret::OK
        }
    }

    /// The outcome of the checks of a transaction that do not depend on its signer: its chain,
    /// nonce, value and lifetime, and then its novelty.
    pub open spec fn tx_fields_ret(self, req: VerifyTxReqView) -> Ret {
        let ret = self.tx_form_ret(req);
        if ret != Ret::OK {
            ret
        } else if self.is_dup(req.tx_hash) {
            Ret::Dup
        } else {
            Ret::OK
        }
    }

    /// The checks of a transaction that do not depend on its signer can be made: the chain is known,
    /// and what they come to read is there, the next height for its lifetime and a proper hash for
    /// its novelty.
    pub open spec fn can_check_fields(self, req: VerifyTxReqView) -> bool {
        &&& self.chain_id is Some
        &&& self.tx_head_ret(req) == Ret::OK ==> self.has_next_height()
        &&& self.tx_form_ret(req) == Ret::OK ==> req.tx_hash.len() == 32
    }

    /// All checks of a transaction can be made: if they come to read the signer, it is a proper key.
    pub open spec fn can_check_tx(self, req: VerifyTxReqView) -> bool {
        &&& self.can_check_fields(req)
        &&& self.tx_fields_ret(req) == Ret::OK && req.quota <= self.block_gas_limit
            ==> req.signer.len() == PUBKEY_BYTES_LEN
    }

    /// The account at `sender` may ask for `quota` in one transaction.
    pub open spec fn tx_quota_fits(self, quota: u64, sender: Seq<u8>) -> bool {
        tx_quota_fits(
            quota,
            sender,
            self.block_gas_limit,
            self.check_quota,
            self.account_gas_limit,
        )
    }

    /// A block may hold `spendings`.
    pub open spec fn block_quota_fits(self, spendings: Seq<Spending>) -> bool {
        block_quota_fits(
            spendings,
            self.block_gas_limit,
            self.check_quota,
            self.account_gas_limit,
        )
    }

    /// The outcome of the checks of a transaction that the account at `sender` signed: its fields
    /// first, then its quota, then the black list.
    pub open spec fn tx_ret(self, req: VerifyTxReqView, sender: Seq<u8>) -> Ret {
        let ret = self.tx_fields_ret(req);
        if ret != Ret::OK {
            ret
        } else if !self.tx_quota_fits(req.quota, sender) {
            Ret::QuotaNotEnough
        } else {
            self.black_list_ret(sender)
        }
    }

    /// The outcome of the checks of a transaction whose signer is known.
    pub open spec fn tx_req_ret(self, req: VerifyTxReqView) -> Ret {
        self.tx_ret(req, address_of(req.signer))
    }

    /// Whether the account at `sender` was reported too often.
    pub open spec fn black_list_ret(self, sender: Seq<u8>) -> Ret {
        if self.black_list.contains_key(sender) && self.black_list[sender] < 0 {
            Ret::Forbidden
        } else {
            Ret::OK
        }
    }

    /// What is remembered of one of `reqs` speaks against it.
    pub open spec fn contradicts(self, reqs: Seq<VerifyTxReqView>) -> bool {
        exists|i: int| 0 <= i < reqs.len() && self.contradicts_tx(#[trigger] reqs[i])
    }

    /// What is remembered of a transaction speaks against it: its signature was found bad, or to be
    /// that of another signer.
    pub open spec fn contradicts_tx(self, req: VerifyTxReqView) -> bool {
        lookup(self.cache, req.tx_hash) matches Some(known) && known != Some(req.signer)
    }

    /// Those of `reqs` of whose signatures nothing is remembered.
    pub open spec fn unknown(self, reqs: Seq<VerifyTxReqView>) -> Seq<VerifyTxReqView> {
        reqs.filter(|r: VerifyTxReqView| lookup(self.cache, r.tx_hash) is None)
    }

    /// The outcome for the first of `reqs` that fails its checks.
    pub open spec fn first_failure(self, reqs: Seq<VerifyTxReqView>) -> Ret
        decreases reqs.len(),
    {
        if reqs.len() == 0 {
            Ret::OK
        } else if self.tx_req_ret(reqs.first()) != Ret::OK {
            self.tx_req_ret(reqs.first())
        } else {
            self.first_failure(reqs.drop_first())
        }
    }

    /// The outcome for a block whose signatures are good: each transaction passes its checks, and
    /// together they stay within the quota.
    pub open spec fn signed_block_ret(self, reqs: Seq<VerifyTxReqView>) -> Ret {
        let ret = self.first_failure(reqs);
        if ret != Ret::OK {
            ret
        } else if !self.block_quota_fits(spendings_of(reqs)) {
            Ret::QuotaNotEnough
        } else {
            Ret::OK
        }
    }

    /// The signatures of a block are good: every transaction names its signer, nothing that is
    /// remembered speaks against one, and those of which nothing is remembered are signed as
    /// claimed.
    pub open spec fn block_sigs_good(self, reqs: Seq<VerifyTxReqView>) -> bool {
        &&& first_unsigned(reqs) is None
        &&& !self.contradicts(reqs)
        &&& all_signed_as_claimed(self.unknown(reqs))
    }

    /// The outcome for the transactions of a block.
    pub open spec fn block_ret(self, reqs: Seq<VerifyTxReqView>) -> Ret {
        if self.block_sigs_good(reqs) {
            self.signed_block_ret(reqs)
        } else {
            Ret::BadSig
        }
    }

    /// `after` is the state once the transactions of a block were checked: only the signature
    /// checks that are remembered differ. A transaction without a signer is remembered as bad. If
    /// the signatures that had to be checked are all good, all of them are remembered; if one is
    /// bad, those good ones are that were found before the checks stopped.
    pub open spec fn block_remembered(
        self,
        reqs: Seq<VerifyTxReqView>,
        after: HandlerView,
    ) -> bool {
        if first_unsigned(reqs) is Some {
            after == self.remember(first_unsigned(reqs)->0, None)
        } else if self.contradicts(reqs) {
            after == self
        } else if all_signed_as_claimed(self.unknown(reqs)) {
            after == self.remember_all(
                self.unknown(reqs).map_values(|r: VerifyTxReqView| confirmed_entry(r)),
            )
        } else {
            exists|confirmed: Seq<Entry>|
                {
                    &&& #[trigger] is_selection(confirmed, self.unknown(reqs))
                    &&& checks_gave(self.unknown(reqs), confirmed)
                    &&& confirmed.len() < self.unknown(reqs).len()
                    &&& after == self.remember_all(confirmed)
                }
        }
    }

    /// `after` and `actions` are what follows a request to check a block. Only the next block is
    /// checked; a request for another one is kept for later, or dropped.
    pub open spec fn block_step(
        self,
        req: VerifyBlockReqView,
        after: HandlerView,
        actions: Seq<ActionView>,
    ) -> bool {
        if req.height() != self.next_height() {
            after == self.keep_block_req(req) && actions == Seq::<ActionView>::empty()
        } else {
            self.block_remembered(req.reqs, after) && actions == seq![
                block_verdict(req.id, self.block_ret(req.reqs)),
            ]
        }
    }

    /// `after` and `actions` are what follows when a request to check a block arrives. An empty
    /// block is not checked, and a node that is not ready keeps the request for later.
    pub open spec fn verify_block_step(
        self,
        req: VerifyBlockReqView,
        after: HandlerView,
        actions: Seq<ActionView>,
    ) -> bool {
        if req.reqs.len() == 0 {
            after == self && actions == Seq::<ActionView>::empty()
        } else if !self.is_ready() {
            after == self.keep_block_req(req) && actions == Seq::<ActionView>::empty()
        } else {
            self.block_step(req, after, actions)
        }
    }

    /// The outcome of all checks of a request that the account at `sender` signed: the black list,
    /// the recipient, and the transaction itself, in this order.
    pub open spec fn admission_ret(self, request: NewTxRequestView, sender: Seq<u8>) -> Ret {
        let black = self.black_list_ret(sender);
        let recipient = request_ret(request);
        if black != Ret::OK {
            black
        } else if recipient != Ret::OK {
            recipient
        } else {
            self.tx_ret(request.un_tx.verify_req, sender)
        }
    }

    /// What becomes of a request that `signer` signed.
    pub open spec fn admission(
        self,
        is_local: bool,
        request: NewTxRequestView,
        signer: Seq<u8>,
    ) -> Seq<ActionView> {
        settled(is_local, request, signer, self.admission_ret(request, address_of(signer)))
    }

    /// What becomes of those of `pendings` that have a signer.
    pub open spec fn admissions(self, is_local: bool, pendings: Seq<PendingTxView>) -> Seq<
        ActionView,
    >
        decreases pendings.len(),
    {
        if pendings.len() == 0 {
            Seq::empty()
        } else {
            let before = self.admissions(is_local, pendings.drop_last());
            match pendings.last().signer {
                Some(signer) => before + self.admission(is_local, pendings.last().tx, signer),
                None => before,
            }
        }
    }

    /// What follows a request for one new transaction of which nothing is remembered, once its
    /// signature was checked.
    pub open spec fn checked_single(
        self,
        is_local: bool,
        tx: NewTxRequestView,
        signer: Option<Seq<u8>>,
    ) -> Step {
        Step {
            after: self.remember(hash_of(tx), signer),
            actions: match signer {
                Some(signer) => self.admission(is_local, tx, signer),
                None => refusal(is_local, tx.request_id, Ret::BadSig),
            },
        }
    }

    /// What follows a request for one new transaction, with `pool_len` transactions in the pool. A
    /// signature that is remembered as bad is answered whoever asked.
    pub open spec fn single_step(self, is_local: bool, tx: NewTxRequestView, pool_len: nat) -> Step {
        if !self.is_ready() {
            Step { after: self, actions: refusal(is_local, tx.request_id, Ret::NotReady) }
        } else if self.is_flow_control(1, pool_len) {
            Step { after: self, actions: refusal(is_local, tx.request_id, Ret::Busy) }
        } else {
            match lookup(self.cache, hash_of(tx)) {
                Some(Some(signer)) => Step {
                    after: self,
                    actions: self.admission(is_local, tx, signer),
                },
                Some(None) => Step {
                    after: self,
                    actions: seq![tx_failed(tx.request_id, Ret::BadSig)],
                },
                None => self.checked_single(is_local, tx, signer_of(tx.un_tx.verify_req)),
            }
        }
    }

    /// What follows once the signatures of a batch were checked: the checks are remembered, the
    /// transactions without a signer are refused, and the others are dealt with one by one.
    pub open spec fn checked_batch(
        self,
        is_local: bool,
        pendings: Seq<PendingTxView>,
        results: Seq<Entry>,
    ) -> Step {
        let known = all_resolved(pendings, results);
        Step {
            after: self.remember_all(results),
            actions: unsigned_refusals(is_local, known) + self.admissions(is_local, known),
        }
    }

    /// What follows a batch of new transactions, with `pool_len` transactions in the pool.
    pub open spec fn batch_step(
        self,
        is_local: bool,
        txs: Seq<NewTxRequestView>,
        pool_len: nat,
    ) -> Step {
        if !self.is_ready() {
            Step { after: self, actions: refusals(is_local, txs, Ret::NotReady) }
        } else if self.is_flow_control(txs.len(), pool_len) {
            Step { after: self, actions: refusals(is_local, txs, Ret::Busy) }
        } else {
            let pendings = batch_pendings(self.cache, txs);
            let checked = self.checked_batch(is_local, pendings, findings(pendings));
            Step {
                after: checked.after,
                actions: known_bad_refusals(self.cache, is_local, txs) + checked.actions,
            }
        }
    }

    /// What follows a request for new transactions.
    pub open spec fn request_step(
        self,
        is_local: bool,
        request: RequestView,
        pool_len: nat,
    ) -> Step {
        match request {
            RequestView::Batch(txs) => self.batch_step(is_local, txs, pool_len),
            RequestView::UnTx(tx) => self.single_step(is_local, tx, pool_len),
            RequestView::Other => Step { after: self, actions: Seq::empty() },
        }
    }

    /// What follows when missing blocks are asked for at `now`: a request for each, unless they were
    /// asked for a moment ago and that is to be heeded. The time noted is `stamp`.
    pub open spec fn ask_step(self, check: bool, now: u64, stamp: u64) -> Step {
        if check && self.history.too_frequent(now) {
            Step { after: self, actions: Seq::empty() }
        } else {
            Step {
                after: HandlerView { history: self.history.stamped(stamp), ..self },
                actions: missing_block_reqs(
                    self.history_hashes,
                    self.history.min_height,
                    self.history.max_height,
                ),
            }
        }
    }

    /// The chain has reached a new height, or has its first block.
    pub open spec fn is_new_height(self, height: u64) -> bool {
        height > self.history.max_height || (self.history.max_height == 0 && height == 0)
    }

    /// What follows when the transactions of a block become known: they leave the pool, and the
    /// block enters the history, unless it is there already. A new height brings new limits and
    /// calls for a proposal.
    pub open spec fn block_hashes_step(self, block: BlockTxHashesView) -> Step {
        let history = self.history.record(block.height);
        let tx_hashes = block.tx_hashes.to_set();
        let kept = self.history_hashes.remove_keys(
            heights_between(self.history.min_height, history.min_height),
        );
        let moved = HandlerView {
            history,
            history_hashes: if kept.contains_key(block.height) {
                kept
            } else {
                kept.insert(block.height, tx_hashes)
            },
            ..self
        };
        Step {
            after: if self.is_new_height(block.height) {
                HandlerView {
                    check_quota: block.check_quota,
                    block_gas_limit: block.block_gas_limit,
                    account_gas_limit: block.account_gas_limit,
                    is_need_proposal_new_block: true,
                    ..moved
                }
            } else {
                moved
            },
            actions: seq![ActionView::RemoveFromPool { tx_hashes }],
        }
    }

    /// The state after accounts were taken off the black list, and then others were reported.
    pub open spec fn black_list_after(self, news: BlackListView) -> HandlerView {
        HandlerView {
            black_list: reported(
                self.black_list.remove_keys(news.clear_list.to_set()),
                news.black_list,
            ),
            ..self
        }
    }

    /// The state after everything that depends on the chain was forgotten.
    pub open spec fn cleared(self) -> HandlerView {
        HandlerView {
            cache: Seq::empty(),
            history: HistoryView::empty(),
            cache_block_req: None,
            history_hashes: Map::empty(),
            black_list: Map::empty(),
            ..self
        }
    }

    /// What follows a step of a snapshot.
    pub open spec fn snapshot_step(self, req: SnapshotReq) -> Step {
        let answer = match req.cmd.ack() {
            Some(resp) => seq![snapshot_resp(resp)],
            None => Seq::empty(),
        };
        match req.cmd {
            Cmd::Snapshot | Cmd::Restore => Step { after: self, actions: answer },
            Cmd::Begin => Step {
                after: HandlerView { is_snapshot: true, ..self },
                actions: answer,
            },
            Cmd::Clear => Step {
                after: self.cleared(),
                actions: seq![ActionView::ClearPool] + answer,
            },
            Cmd::End => Step {
                after: HandlerView { is_snapshot: false, ..self },
                actions: seq![block_tx_hashes_req(req.end_height)] + answer,
            },
        }
    }

    /// The block that was kept has become the next one, and can be checked.
    pub open spec fn kept_block_is_due(self) -> bool {
        &&& self.is_ready()
        &&& self.cache_block_req matches Some(req) && req.height() == self.next_height()
    }

    /// `after` and `actions` are what follows a look at the block that was kept: it is checked, and
    /// no longer kept, if it is due.
    pub open spec fn kept_block_step(self, after: HandlerView, actions: Seq<ActionView>) -> bool {
        if self.kept_block_is_due() {
            HandlerView { cache_block_req: None, ..self }.block_step(
                self.cache_block_req->0,
                after,
                actions,
            )
        } else {
            after == self && actions == Seq::<ActionView>::empty()
        }
    }

    /// What follows a look at whether a block is to be proposed. A node that is not ready proposes
    /// an empty one.
    pub open spec fn proposal_step(self) -> Step {
        if self.is_need_proposal_new_block {
            Step {
                after: HandlerView { is_need_proposal_new_block: false, ..self },
                actions: seq![
                    ActionView::ProposeTxList {
                        height: self.history.max_height as usize,
                        block_gas_limit: if self.is_ready() {
                            self.block_gas_limit
                        } else {
                            0
                        },
                        account_gas_limit: self.account_gas_limit,
                        check_quota: self.check_quota,
                    },
                ],
            }
        } else {
            Step { after: self, actions: Seq::empty() }
        }
    }

    /// What follows a look at what the node lacks: the chain is asked for, and missing blocks are.
    pub open spec fn lack_step(self, now: u64, stamp: u64) -> Step {
        let asked = if self.chain_id is None {
            seq![auth_message(MsgType::MiscellaneousReq, OutMessageView::MiscellaneousReq)]
        } else {
            Seq::empty()
        };
        if self.history.is_init {
            Step { after: self, actions: asked }
        } else {
            let step = self.ask_step(true, now, stamp);
            Step { after: step.after, actions: asked + step.actions }
        }
    }

    /// `after` and `actions` are what follows the tasks that precede every message, done at `now`.
    pub open spec fn tasks_step(
        self,
        now: u64,
        stamp: u64,
        after: HandlerView,
        actions: Seq<ActionView>,
    ) -> bool {
        let lack = self.lack_step(now, stamp);
        exists|checked: HandlerView, verdict: Seq<ActionView>|
            {
                &&& #[trigger] lack.after.kept_block_step(checked, verdict)
                &&& after == checked.proposal_step().after
                &&& actions == lack.actions + verdict + checked.proposal_step().actions
            }
    }

    /// `after` and `actions` are what follows a message under `rtkey`, with `pool_len` transactions in
    /// the pool.
    pub open spec fn message_step(
        self,
        rtkey: RoutingKey,
        message: InMessageView,
        pool_len: nat,
        after: HandlerView,
        actions: Seq<ActionView>,
    ) -> bool {
        let step = Step { after, actions };
        if !is_expected(rtkey) {
            step == (Step { after: self, actions: Seq::empty() })
        } else {
            match message {
                InMessageView::BlockTxHashes(block) => step == self.block_hashes_step(block),
                InMessageView::BlackList(news) => step == (Step {
                    after: self.black_list_after(news),
                    actions: Seq::empty(),
                }),
                InMessageView::VerifyBlockReq(req) => self.verify_block_step(req, after, actions),
                InMessageView::Request(request) => step == self.request_step(
                    rtkey.sub_module == SubModules::Jsonrpc,
                    request,
                    pool_len,
                ),
                InMessageView::Miscellaneous { chain_id } => step == (Step {
                    after: HandlerView { chain_id: Some(chain_id), ..self },
                    actions: Seq::empty(),
                }),
                InMessageView::SnapshotReq(req) => step == self.snapshot_step(req),
                InMessageView::Other => step == (Step { after: self, actions: Seq::empty() }),
            }
        }
    }

    /// A request for new transactions is looked into: the node is ready, and the pool has room.
    pub open spec fn looks_into(self, request: RequestView, pool_len: nat) -> bool {
        match request {
            RequestView::Batch(txs) => self.is_ready() && !self.is_flow_control(
                txs.len(),
                pool_len,
            ),
            RequestView::UnTx(_) => self.is_ready() && !self.is_flow_control(1, pool_len),
            RequestView::Other => false,
        }
    }

    /// What is read of one new transaction has its proper length: its transaction hash, and, if its
    /// signature is to be checked, the hash that was signed.
    pub open spec fn is_readable_tx(self, tx: NewTxRequestView, is_checked: bool) -> bool {
        &&& hash_of(tx).len() == 32
        &&& is_checked && lookup(self.cache, hash_of(tx)) is None
            ==> tx.un_tx.verify_req.hash.len() == 32
    }

    /// What is read of the transactions of a batch has its proper length; of those that share a hash,
    /// only the signature of the last one is checked.
    pub open spec fn is_readable_batch(self, txs: Seq<NewTxRequestView>) -> bool {
        forall|i: int|
            0 <= i < txs.len() ==> self.is_readable_tx(#[trigger] txs[i], is_latest(txs, i))
    }

    /// What is read of a request for new transactions has its proper length.
    pub open spec fn is_readable_request(self, request: RequestView) -> bool {
        match request {
            RequestView::Batch(txs) => self.is_readable_batch(txs),
            RequestView::UnTx(tx) => self.is_readable_tx(tx, true),
            RequestView::Other => true,
        }
    }

    /// A request for new transactions can be dealt with: if it is looked into, what is read of it has
    /// its proper length, and there is a next height.
    pub open spec fn can_deal_with_request(self, request: RequestView, pool_len: nat) -> bool {
        self.looks_into(request, pool_len) ==> self.is_readable_request(request)
            && self.has_next_height()
    }

    /// What is read of the transactions of a block that is checked has its proper length: the
    /// transaction hash of the first one without a signer; or else all transaction hashes up to the
    /// first that what is remembered speaks against, and, if there is none, the signed hashes of the
    /// transactions of which nothing is remembered.
    pub open spec fn is_readable_block(self, reqs: Seq<VerifyTxReqView>) -> bool {
        match first_unsigned(reqs) {
            Some(tx_hash) => tx_hash.len() == 32,
            None => {
                &&& forall|i: int|
                    0 <= i < reqs.len() && !self.contradicts(reqs.take(i)) ==> (
                    #[trigger] reqs[i]).tx_hash.len() == 32
                &&& !self.contradicts(reqs) ==> forall|i: int|
                    0 <= i < reqs.len() && lookup(self.cache, (#[trigger] reqs[i]).tx_hash) is None
                        ==> reqs[i].hash.len() == 32
            },
        }
    }

    /// A request to check a block can be dealt with: unless it is empty, there is a next height; and
    /// if the block is checked at once, what is read of it has its proper length.
    pub open spec fn can_deal_with_block(self, req: VerifyBlockReqView) -> bool {
        req.reqs.len() > 0 ==> {
            &&& self.has_next_height()
            &&& self.is_ready() && req.height() == self.next_height() ==> self.is_readable_block(
                req.reqs,
            )
        }
    }

    /// A message can be dealt with.
    pub open spec fn can_deal_with(self, message: InMessageView, pool_len: nat) -> bool {
        match message {
            InMessageView::BlockTxHashes(block) => block.well_formed(),
            InMessageView::BlackList(news) => news.well_formed(),
            InMessageView::VerifyBlockReq(req) => self.can_deal_with_block(req),
            InMessageView::Request(request) => self.can_deal_with_request(request, pool_len),
            InMessageView::Miscellaneous { .. } => true,
            InMessageView::SnapshotReq(_) => true,
            InMessageView::Other => true,
        }
    }

    /// The tasks that precede every message can be done: if a ready node has kept a block, there is a
    /// next height, and if that block is due, what is read of it has its proper length.
    pub open spec fn can_run_tasks(self) -> bool {
        &&& self.is_ready() && self.cache_block_req is Some ==> self.has_next_height()
        &&& self.kept_block_is_due() ==> self.is_readable_block(self.cache_block_req->0.reqs)
    }
}

} // verus!
