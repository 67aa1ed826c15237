//! The transaction service: it checks transactions and blocks before they reach the pool, and
//! tells its surroundings what to do next.

mod batch;
mod block;
mod chain;
pub mod request;
pub mod turn;

use crate::actions::{hash_set, Action, OutMessage, Response, ResponseContent};
use crate::bytes::{opt_view, same_bytes, Address, H256};
use crate::crypto::{address_of, address_parses, h256_from_slice, pubkey_address, PUBKEY_BYTES_LEN};
use crate::history::{HistoryHeights, BLOCKLIMIT};
use crate::messages::{
    NewTxRequest, Ret, SnapshotResp, VerifyBlockReq, VerifyTxReq, VerifyTxReqView,
};
use crate::quota::{
    block_quota_allows, spendings_view, total, totals_grow, tx_quota_allows, AccountGasLimit,
};
use crate::routing::{MsgType, RoutingKey, SubModules};
use crate::sig_cache::{cache_capacity, cache_entries, cache_new, cache_peek, cache_put, lookup};
use crate::state::{
    block_tx_hashes_req, block_verdict, quotas_total, request_ret, snapshot_resp, spendings_of,
    tx_failed, tx_succeeded, HandlerView, MAX_NONCE_LEN, VALUE_LEN,
};
use crate::table::Table;
use lru::LruCache;
use std::collections::HashMap;
use vstd::prelude::*;

verus! {

broadcast use vstd::std_specs::hash::group_hash_axioms;

/// A message of the transaction service.
fn auth_message(msg_type: MsgType, message: OutMessage) -> (action: Action)
    ensures
        action@ == crate::state::auth_message(msg_type, message@),
{
    Action::Publish { key: RoutingKey::new(SubModules::Auth, msg_type), message }
}

/// The answer to a request to check a block.
pub fn publish_block_verification_result(request_id: u64, ret: Ret) -> (action: Action)
    ensures
        action@ == block_verdict(request_id, ret),
{
    auth_message(MsgType::VerifyBlockResp, OutMessage::VerifyBlockResp { id: request_id, ret })
}

/// The answer to a client whose transaction was refused.
pub fn publish_tx_failed_result(request_id: Vec<u8>, ret: Ret) -> (action: Action)
    ensures
        action@ == tx_failed(request_id@, ret),
{
    let content = ResponseContent::TxError { error_msg: ret.to_text() };
    auth_message(MsgType::Response, OutMessage::Response(Response { request_id, content }))
}

/// The answer to a client whose transaction reached the pool.
pub fn publish_tx_success_result(request_id: Vec<u8>, ret: Ret, tx_hash: H256) -> (action: Action)
    ensures
        action@ == tx_succeeded(request_id@, ret, tx_hash@),
{
    let content = ResponseContent::TxState { tx_hash, status: ret.to_text() };
    auth_message(MsgType::Response, OutMessage::Response(Response { request_id, content }))
}

/// The request to pass a client's request on to the other nodes.
pub fn forward_request(tx_req: NewTxRequest) -> (action: Action)
    ensures
        action@ == (crate::actions::ActionView::ForwardRequest { request: tx_req@ }),
{
    Action::ForwardRequest { request: tx_req }
}

/// The request for the transactions of one block.
pub fn send_single_block_tx_hashes_req(height: u64) -> (action: Action)
    ensures
        action@ == block_tx_hashes_req(height),
{
    auth_message(MsgType::BlockTxHashesReq, OutMessage::BlockTxHashesReq { height })
}

/// The answer to a step of a snapshot.
fn publish_snapshot_resp(resp: SnapshotResp) -> (action: Action)
    ensures
        action@ == snapshot_resp(resp),
{
    auth_message(MsgType::SnapshotResp, OutMessage::SnapshotResp(resp))
}

/// Checks that a transaction is for nobody, or for an address.
pub fn verify_request(req: &NewTxRequest) -> (ret: Ret)
    ensures
        ret == request_ret(req@),
{
    let to = cita_types::clean_0x(req.un_tx.to.as_str());
    if to.is_empty() || address_parses(to) {
        Ret::OK
    } else {
        Ret::InvalidValue
    }
}

/// Whether `hash` is in `list`.
fn contains_hash(list: &Vec<H256>, hash: &H256) -> (contains: bool)
    ensures
        contains == hash_set(list@).contains(hash@),
{
    let mut i: usize = 0;
    while i < list.len()
        invariant
            i <= list.len(),
            forall|j: int| 0 <= j < i ==> (#[trigger] list[j])@ != hash@,
        decreases list.len() - i,
    {
        if same_bytes(&list[i], hash) {
            assert(list[i as int]@ == hash@);
            return true;
        }
        i += 1;
    }
    false
}

/// The transaction service.
pub struct MsgHandler {
    cache: LruCache<H256, Option<Vec<u8>>>,
    chain_id: Option<u32>,
    history_heights: HistoryHeights,
    cache_block_req: Option<VerifyBlockReq>,
    history_hashes: HashMap<u64, Vec<H256>>,
    check_quota: bool,
    block_gas_limit: u64,
    account_gas_limit: AccountGasLimit,
    tx_pool_limit: usize,
    is_snapshot: bool,
    black_list_cache: Table<20, i8>,
    is_need_proposal_new_block: bool,
}

impl View for MsgHandler {
    type V = HandlerView;

    closed spec fn view(&self) -> HandlerView {
        HandlerView {
            cache: cache_entries(self.cache),
            cache_capacity: cache_capacity(self.cache),
            chain_id: self.chain_id,
            history: self.history_heights@,
            cache_block_req: match self.cache_block_req {
                Some(req) => Some(req@),
                None => None,
            },
            history_hashes: self.history_hashes@.map_values(|l: Vec<H256>| hash_set(l@)),
            check_quota: self.check_quota,
            block_gas_limit: self.block_gas_limit,
            account_gas_limit: self.account_gas_limit@,
            tx_pool_limit: self.tx_pool_limit,
            is_snapshot: self.is_snapshot,
            black_list: self.black_list_cache@,
            is_need_proposal_new_block: self.is_need_proposal_new_block,
        }
    }
}

impl MsgHandler {
    /// A service that has seen nothing yet. It holds at most `tx_pool_limit` transactions in the
    /// pool, or any number if that is zero, and remembers at most `tx_verify_cache_size` signature
    /// checks.
    pub fn new(tx_pool_limit: usize, tx_verify_cache_size: usize) -> (handler: Self)
        requires
            tx_verify_cache_size <= usize::MAX / 256,
        ensures
            handler@ == HandlerView::initial(tx_pool_limit, tx_verify_cache_size as nat),
            handler@.well_formed(),
    {
        let handler = MsgHandler {
            cache: cache_new(tx_verify_cache_size),
            chain_id: None,
            history_heights: HistoryHeights::new(),
            cache_block_req: None,
            history_hashes: HashMap::with_capacity(BLOCKLIMIT as usize),
            check_quota: false,
            block_gas_limit: 0,
            account_gas_limit: AccountGasLimit::new(),
            tx_pool_limit,
            is_snapshot: false,
            black_list_cache: Table::new(),
            is_need_proposal_new_block: false,
        };
        assert(handler@.history_hashes =~= Map::<u64, Set<Seq<u8>>>::empty());
        handler
    }

    /// The highest height seen.
    pub fn max_height(&self) -> (height: u64)
        ensures
            height == self@.history.max_height,
    {
        self.history_heights.max_height()
    }

    /// Whether the node knows its chain and all recent blocks, and no snapshot is under way.
    pub fn is_ready(&self) -> (ready: bool)
        ensures
            ready == self@.is_ready(),
    {
        self.history_heights.is_init() && self.chain_id.is_some() && !self.is_snapshot
    }

    /// Whether the pool, which holds `pool_len` transactions, has no room for `tx_count` more.
    pub fn is_flow_control(&self, tx_count: usize, pool_len: usize) -> (busy: bool)
        ensures
            busy == self@.is_flow_control(tx_count as nat, pool_len as nat),
    {
        self.tx_pool_limit != 0 && (pool_len > self.tx_pool_limit || tx_count > self.tx_pool_limit
            - pool_len)
    }

    /// The id of the block that is to be checked later, if there is one.
    pub fn cache_block_request_id(&self) -> (id: Option<u64>)
        ensures
            id == (match self@.cache_block_req {
                Some(req) => Some(req.id),
                None => None,
            }),
    {
        match &self.cache_block_req {
            Some(req) => Some(req.id),
            None => None,
        }
    }

    /// Decides which block is to be checked later: the one that was kept, the new one, or, once the
    /// next block is past both, none.
    pub fn update_cache_block_req(&mut self, blk_req: VerifyBlockReq)
        requires
            old(self)@.has_next_height(),
        ensures
            final(self)@ == old(self)@.keep_block_req(blk_req@),
    {
        let new_request_id: u64 = blk_req.id;
        let next_height: u64 = self.history_heights.next_height();
        let next_request_id: u64 = next_height << 16;
        match self.cache_block_request_id() {
            Some(cache_request_id) => {
                if new_request_id > cache_request_id && new_request_id >= next_request_id {
                    self.cache_block_req = Some(blk_req);
                } else if next_request_id > cache_request_id {
                    self.cache_block_req = None;
                }
            },
            None => {
                if new_request_id > next_request_id {
                    self.cache_block_req = Some(blk_req);
                }
            },
        }
    }

    /// What is remembered of the signature under a transaction hash.
    pub fn get_ret_from_cache(&self, tx_hash: &H256) -> (ret: Option<Option<Vec<u8>>>)
        ensures
            lookup(self@.cache, tx_hash@) == (match ret {
                Some(key) => Some(opt_view(key)),
                None => None,
            }),
    {
        cache_peek(&self.cache, tx_hash)
    }

    /// Remembers a signature check.
    pub fn save_ret_to_cache(&mut self, tx_hash: H256, option_pubkey: Option<Vec<u8>>)
        ensures
            final(self)@ == old(self)@.remember(tx_hash@, opt_view(option_pubkey)),
    {
        cache_put(&mut self.cache, tx_hash, option_pubkey);
    }

    /// Whether a block stays within its quota, and, where accounts are limited, each of its senders
    /// within their own. Signers are read up to the transaction that exceeds the limit of the block.
    pub fn verify_block_quota(&self, blkreq: &VerifyBlockReq) -> (fits: bool)
        requires
            forall|i: int|
                0 <= i < blkreq.reqs.len() && quotas_total(blkreq@.reqs.take(i))
                    <= self@.block_gas_limit ==> (#[trigger] blkreq@.reqs[i]).signer.len()
                    == PUBKEY_BYTES_LEN,
        ensures
            fits == self@.block_quota_fits(spendings_of(blkreq@.reqs)),
    {
        let ghost all = blkreq@.reqs;
        let reqs = &blkreq.reqs;
        let mut spendings: Vec<(Address, u64)> = Vec::new();
        let mut n: u64 = self.block_gas_limit;
        let mut i: usize = 0;
        while i < reqs.len()
            invariant
                i <= reqs.len(),
                reqs@ == blkreq.reqs@,
                all == blkreq@.reqs,
                forall|j: int|
                    0 <= j < all.len() && quotas_total(all.take(j)) <= self@.block_gas_limit ==> (
                    #[trigger] all[j]).signer.len() == PUBKEY_BYTES_LEN,
                n == self@.block_gas_limit - quotas_total(all.take(i as int)),
                spendings_view(spendings@) == spendings_of(all.take(i as int)),
            decreases reqs.len() - i,
        {
            let ghost before = spendings@;
            let quota: u64 = reqs[i].quota;
            assert(all[i as int] == reqs[i as int]@);
            spendings.push((pubkey_address(reqs[i].signer.as_slice()), quota));
            proof {
                assert(all.take(i + 1).drop_last() =~= all.take(i as int));
                assert(spendings_of(all.take(i + 1)) =~= spendings_of(all.take(i as int)).push(
                    (address_of(all[i as int].signer), quota),
                ));
                assert(spendings_view(spendings@) =~= spendings_view(before).push(
                    (address_of(all[i as int].signer), quota),
                ));
            }
            if n < quota {
                proof {
                    let spent = spendings_of(all);
                    assert(spent.take(i + 1) =~= spendings_of(all.take(i + 1)));
                    quotas_are_spent(all.take(i + 1));
                    totals_grow(spent, i + 1, Seq::empty());
                }
                return false;
            }
            n -= quota;
            i += 1;
        }
        assert(all.take(i as int) =~= all);
        self.block_quota_allows(&spendings)
    }

    /// Whether a block may hold transactions of these senders with these quotas.
    pub fn block_quota_allows(&self, spendings: &Vec<(Address, u64)>) -> (fits: bool)
        ensures
            fits == self@.block_quota_fits(spendings_view(spendings@)),
    {
        block_quota_allows(
            spendings,
            self.block_gas_limit,
            self.check_quota,
            &self.account_gas_limit,
        )
    }

    /// Whether one transaction of `signer` may ask for `quota`.
    pub fn verify_tx_quota(&self, quota: u64, signer: &[u8]) -> (fits: bool)
        requires
            self@.check_quota && quota <= self@.block_gas_limit ==> signer.len()
                == PUBKEY_BYTES_LEN,
        ensures
            fits == self@.tx_quota_fits(quota, address_of(signer@)),
    {
        if quota > self.block_gas_limit {
            return false;
        }
        if !self.check_quota {
            return true;
        }
        let sender = pubkey_address(signer);
        self.tx_quota_allows(quota, &sender)
    }

    /// Whether one transaction of the account at `sender` may ask for `quota`.
    pub fn tx_quota_allows(&self, quota: u64, sender: &Address) -> (fits: bool)
        ensures
            fits == self@.tx_quota_fits(quota, sender@),
    {
        tx_quota_allows(
            quota,
            sender,
            self.block_gas_limit,
            self.check_quota,
            &self.account_gas_limit,
        )
    }

    /// Whether the signer of a transaction was reported too often.
    pub fn verify_black_list(&self, req: &VerifyTxReq) -> (ret: Ret)
        requires
            req@.signer.len() == PUBKEY_BYTES_LEN,
        ensures
            ret == self@.black_list_ret(address_of(req@.signer)),
    {
        let sender = pubkey_address(req.signer.as_slice());
        self.black_list_verdict(&sender)
    }

    /// Whether the account at `sender` was reported too often.
    pub fn black_list_verdict(&self, sender: &Address) -> (ret: Ret)
        ensures
            ret == self@.black_list_ret(sender@),
    {
        match self.black_list_cache.get(sender) {
            Some(credit) => if credit < 0 {
                Ret::Forbidden
            } else {
                Ret::OK
            },
            None => Ret::OK,
        }
    }

    /// Whether a recent block holds the transaction with this hash.
    fn is_dup(&self, tx_hash: &H256) -> (dup: bool)
        ensures
            dup == self@.is_dup(tx_hash@),
    {
        for hashes in blocks: self.history_hashes.values()
            invariant
                blocks.seq().unref().to_set() == self.history_hashes@.values(),
                forall|list: Vec<H256>| #[trigger]
                    self.history_hashes@.values().contains(list) && hash_set(list@).contains(
                        tx_hash@,
                    ) ==> exists|j: int|
                        blocks.index() <= j < blocks.seq().len() && *#[trigger] blocks.seq()[j]
                            == list,
        {
            if contains_hash(hashes, tx_hash) {
                proof {
                    let lists = blocks.seq().unref();
                    assert(lists[blocks.index() as int] == *hashes);
                    assert(lists.to_set().contains(*hashes));
                    let height = choose|height: u64| #[trigger]
                        self.history_hashes@.contains_key(height) && self.history_hashes@[height]
                            == *hashes;
                    assert(self@.history_hashes.contains_key(height));
                }
                return true;
            }
        }
        assert forall|height: u64| #[trigger]
            self@.history_hashes.contains_key(
                height,
            ) implies !self@.history_hashes[height].contains(tx_hash@) by {
            assert(self.history_hashes@.contains_key(height));
            assert(self.history_hashes@.values().contains(self.history_hashes@[height]));
        }
        false
    }

    /// Checks the chain, the nonce, the value, the lifetime and the novelty of a transaction.
    pub fn verify_tx_fields(&self, req: &VerifyTxReq) -> (ret: Ret)
        requires
            self@.can_check_fields(req@),
        ensures
            ret == self@.tx_fields_ret(req@),
    {
        let chain_id: u32 = req.chain_id;
        if chain_id != self.chain_id.unwrap() {
            return Ret::BadChainId;
        }
        if req.nonce.as_str().as_bytes().len() > MAX_NONCE_LEN {
            return Ret::InvalidNonce;
        }
        if req.value.len() != VALUE_LEN {
            return Ret::InvalidValue;
        }
        let valid_until_block: u64 = req.valid_until_block;
        let next_height: u64 = self.history_heights.next_height();
        if valid_until_block < next_height || valid_until_block - next_height >= BLOCKLIMIT {
            return Ret::InvalidUntilBlock;
        }
        let tx_hash = h256_from_slice(req.tx_hash.as_slice());
        if self.is_dup(&tx_hash) {
            return Ret::Dup;
        }
        Ret::OK
    }

    /// Checks the chain, the nonce, the value, the lifetime, the novelty and the quota of a
    /// transaction, and then whether its signer is on the black list.
    pub fn verify_tx_req(&self, req: &VerifyTxReq) -> (ret: Ret)
        requires
            self@.can_check_tx(req@),
        ensures
            ret == self@.tx_req_ret(req@),
    {
        let ret = self.verify_tx_fields(req);
        if ret != Ret::OK {
            return ret;
        }
        if !self.verify_tx_quota(req.quota, req.signer.as_slice()) {
            return Ret::QuotaNotEnough;
        }
        self.verify_black_list(req)
    }
}

/// What a list of requests asks for is what their senders spend.
proof fn quotas_are_spent(reqs: Seq<VerifyTxReqView>)
    ensures
        quotas_total(reqs) == total(spendings_of(reqs)),
    decreases reqs.len(),
{
    if reqs.len() > 0 {
        quotas_are_spent(reqs.drop_last());
        assert(spendings_of(reqs).drop_last() =~= spendings_of(reqs.drop_last()));
    }
}

} // verus!
