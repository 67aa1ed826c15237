//! One turn of the service: the tasks that precede every message, and the message itself.

use super::batch::is_latest_tx;
use super::{auth_message, MsgHandler};
use crate::actions::{actions_view, Action, OutMessage};
use crate::batch::is_latest;
use crate::bytes::same_bytes;
use crate::clock::{clock_gave, now_millis, readings_come_from_the_clock};
use crate::crypto::h256_from_slice;
use crate::messages::{
    reqs_view, txs_view, InMessage, NewTxRequest, Request, RequestView, VerifyBlockReq, VerifyTxReq,
};
use crate::routing::{MsgType, RoutingKey, SubModules};
use crate::sig_cache::lookup;
use crate::state::{first_unsigned, fits_key, is_expected, HandlerView};
use vstd::prelude::*;

verus! {

broadcast use readings_come_from_the_clock;

/// Whether the service has something to do with messages under `key`.
pub fn expects(key: RoutingKey) -> (expected: bool)
    ensures
        expected == is_expected(key),
{
    match (key.sub_module, key.msg_type) {
        (SubModules::Chain, MsgType::BlockTxHashes) => true,
        (SubModules::Executor, MsgType::BlackList) => true,
        (SubModules::Consensus, MsgType::VerifyBlockReq) => true,
        (SubModules::Net, MsgType::Request) => true,
        (SubModules::Jsonrpc, MsgType::RequestNewTxBatch) => true,
        (SubModules::Executor, MsgType::Miscellaneous) => true,
        (SubModules::Snapshot, MsgType::SnapshotReq) => true,
        _ => false,
    }
}

/// Whether a message is of the kind that its key announces.
pub fn message_fits_key(key: RoutingKey, msg: &InMessage) -> (fits: bool)
    ensures
        fits == fits_key(key, msg@),
{
    if !expects(key) {
        return true;
    }
    match (key.msg_type, msg) {
        (MsgType::BlockTxHashes, InMessage::BlockTxHashes(_)) => true,
        (MsgType::BlackList, InMessage::BlackList(_)) => true,
        (MsgType::VerifyBlockReq, InMessage::VerifyBlockReq(_)) => true,
        (MsgType::Request, InMessage::Request(_)) => true,
        (MsgType::RequestNewTxBatch, InMessage::Request(_)) => true,
        (MsgType::Miscellaneous, InMessage::Miscellaneous { .. }) => true,
        (MsgType::SnapshotReq, InMessage::SnapshotReq(_)) => true,
        _ => false,
    }
}

impl MsgHandler {
    /// Whether there is a height after the highest one seen.
    fn has_next_height(&self) -> (has_next: bool)
        ensures
            has_next == self@.has_next_height(),
    {
        self.history_heights.max_height() < u64::MAX
    }

    /// Whether what is read of the transactions of a block that is checked has its proper length.
    fn block_is_readable(&self, reqs: &Vec<VerifyTxReq>) -> (readable: bool)
        ensures
            readable == self@.is_readable_block(reqs_view(reqs@)),
    {
        let ghost all = reqs_view(reqs@);
        let mut i: usize = 0;
        assert(all.skip(0) =~= all);
        while i < reqs.len()
            invariant
                i <= reqs.len(),
                all == reqs_view(reqs@),
                first_unsigned(all) == first_unsigned(all.skip(i as int)),
            decreases reqs.len() - i,
        {
            assert(all.skip(i as int).drop_first() =~= all.skip(i + 1));
            assert(all.skip(i as int).first() == reqs[i as int]@);
            if reqs[i].signer.is_empty() {
                return reqs[i].tx_hash.len() == 32;
            }
            i += 1;
        }
        assert(all.skip(i as int) =~= Seq::empty());

        let mut hashes_fit = true;
        let mut i: usize = 0;
        while i < reqs.len()
            invariant
                i <= reqs.len(),
                all == reqs_view(reqs@),
                first_unsigned(all) is None,
                forall|j: int| 0 <= j < i ==> !self@.contradicts_tx(#[trigger] all[j]),
                forall|j: int| 0 <= j < i ==> (#[trigger] all[j]).tx_hash.len() == 32,
                hashes_fit <==> forall|j: int|
                    0 <= j < i && lookup(self@.cache, (#[trigger] all[j]).tx_hash) is None
                        ==> all[j].hash.len() == 32,
            decreases reqs.len() - i,
        {
            let req = &reqs[i];
            assert(all[i as int] == req@);
            proof {
                assert forall|j: int| 0 <= j < i implies !self@.contradicts_tx(
                    #[trigger] all.take(i as int)[j],
                ) by {
                    assert(!self@.contradicts_tx(all[j]));
                }
                assert(!self@.contradicts(all.take(i as int)));
            }
            if req.tx_hash.len() != 32 {
                return false;
            }
            let tx_hash = h256_from_slice(req.tx_hash.as_slice());
            let contradicted = match self.get_ret_from_cache(&tx_hash) {
                Some(Some(pubkey)) => !same_bytes(req.signer.as_slice(), pubkey.as_slice()),
                Some(None) => true,
                None => {
                    hashes_fit = hashes_fit && req.hash.len() == 32;
                    false
                },
            };
            if contradicted {
                proof {
                    assert(self@.contradicts_tx(all[i as int]));
                    assert forall|j: int|
                        0 <= j < all.len() && !self@.contradicts(all.take(j)) implies (
                    #[trigger] all[j]).tx_hash.len() == 32 by {
                        if j > i {
                            assert(all.take(j)[i as int] == all[i as int]);
                        }
                    }
                }
                return true;
            }
            i += 1;
        }
        assert(!self@.contradicts(all));
        hashes_fit
    }

    /// Whether what is read of a request for new transactions has its proper length.
    fn request_is_readable(&self, request: &Request) -> (readable: bool)
        ensures
            readable == self@.is_readable_request(request@),
    {
        match request {
            Request::Batch(txs) => {
                let mut i: usize = 0;
                while i < txs.len()
                    invariant
                        i <= txs.len(),
                        request@ == RequestView::Batch(txs_view(txs@)),
                        forall|j: int|
                            0 <= j < i ==> self@.is_readable_tx(
                                #[trigger] txs_view(txs@)[j],
                                is_latest(txs_view(txs@), j),
                            ),
                    decreases txs.len() - i,
                {
                    assert(txs_view(txs@)[i as int] == txs[i as int]@);
                    if !self.tx_is_readable(&txs[i], is_latest_tx(txs, i)) {
                        assert(!self@.is_readable_batch(txs_view(txs@)));
                        return false;
                    }
                    i += 1;
                }
                true
            },
            Request::UnTx(tx) => self.tx_is_readable(tx, true),
            Request::Other => true,
        }
    }

    /// Whether what is read of one new transaction has its proper length.
    fn tx_is_readable(&self, tx: &NewTxRequest, is_checked: bool) -> (readable: bool)
        ensures
            readable == self@.is_readable_tx(tx@, is_checked),
    {
        let req = &tx.un_tx.verify_req;
        if req.tx_hash.len() != 32 {
            return false;
        }
        let tx_hash = h256_from_slice(req.tx_hash.as_slice());
        !is_checked || req.hash.len() == 32 || self.get_ret_from_cache(&tx_hash).is_some()
    }

    /// Whether the tasks that precede every message can be done.
    pub fn can_run_tasks(&self) -> (can: bool)
        ensures
            can == self@.can_run_tasks(),
    {
        if !self.is_ready() {
            return true;
        }
        match &self.cache_block_req {
            Some(req) => self.has_next_height() && (req.id >> 16
                != self.history_heights.next_height() || self.block_is_readable(&req.reqs)),
            None => true,
        }
    }

    /// Whether a request for new transactions can be dealt with, while the pool holds `pool_len` of
    /// them.
    pub fn can_deal_with_request(&self, request: &Request, pool_len: usize) -> (can: bool)
        ensures
            can == self@.can_deal_with_request(request@, pool_len as nat),
    {
        let tx_count: usize = match request {
            Request::Batch(txs) => txs.len(),
            Request::UnTx(_) => 1,
            Request::Other => {
                return true;
            },
        };
        if !self.is_ready() || self.is_flow_control(tx_count, pool_len) {
            return true;
        }
        self.request_is_readable(request) && self.has_next_height()
    }

    /// Whether a request to check a block can be dealt with.
    pub fn can_deal_with_block(&self, req: &VerifyBlockReq) -> (can: bool)
        ensures
            can == self@.can_deal_with_block(req@),
    {
        if req.reqs.len() == 0 {
            return true;
        }
        if !self.has_next_height() {
            return false;
        }
        !self.is_ready() || req.id >> 16 != self.history_heights.next_height()
            || self.block_is_readable(&req.reqs)
    }

    /// Whether a message can be dealt with, while the pool holds `pool_len` transactions.
    pub fn can_deal_with(&self, msg: &InMessage, pool_len: usize) -> (can: bool)
        ensures
            can == self@.can_deal_with(msg@, pool_len as nat),
    {
        match msg {
            InMessage::BlockTxHashes(block) => block.is_well_formed(),
            InMessage::BlackList(news) => news.is_well_formed(),
            InMessage::VerifyBlockReq(req) => self.can_deal_with_block(req),
            InMessage::Request(request) => self.can_deal_with_request(request, pool_len),
            InMessage::Miscellaneous { .. } => true,
            InMessage::SnapshotReq(_) => true,
            InMessage::Other => true,
        }
    }

    /// Does the tasks that precede every message.
    ///
    /// Whether missing blocks are asked for rests on the clock: it does what
    /// [`run_tasks_at`](Self::run_tasks_at) does for the moment of the call.
    pub fn run_tasks(&mut self) -> (actions: Vec<Action>)
        requires
            old(self)@.well_formed(),
            old(self)@.can_run_tasks(),
        ensures
            exists|now: u64, stamp: u64|
                {
                    &&& #[trigger] clock_gave(now)
                    &&& #[trigger] clock_gave(stamp)
                    &&& old(self)@.tasks_step(now, stamp, final(self)@, actions_view(actions@))
                },
            final(self)@.well_formed(),
    {
        let now: u64 = now_millis();
        let stamp: u64 = now_millis();
        self.run_tasks_at(now, stamp)
    }

    /// Does the tasks that precede every message, at `now`: asks for the chain and for missing
    /// blocks, notes `stamp` as the time if it did, checks the block that was kept if it is due, and
    /// proposes a block if that is called for.
    pub fn run_tasks_at(&mut self, now: u64, stamp: u64) -> (actions: Vec<Action>)
        requires
            old(self)@.well_formed(),
            old(self)@.can_run_tasks(),
        ensures
            old(self)@.tasks_step(now, stamp, final(self)@, actions_view(actions@)),
            final(self)@.well_formed(),
    {
        let mut actions = self.ask_for_lacking(now, stamp);
        let ghost lack = old(self)@.lack_step(now, stamp);
        let ghost asked = actions@;

        let mut verdict = self.check_kept_block();
        let ghost checked = self@;
        let ghost verdicts = verdict@;
        actions.append(&mut verdict);

        let mut proposal = self.propose_if_needed();
        let ghost proposals = proposal@;
        actions.append(&mut proposal);
        proof {
            assert(lack.after.kept_block_step(checked, actions_view(verdicts)));
            assert(actions_view(actions@) =~= actions_view(asked) + actions_view(verdicts)
                + actions_view(proposals));
        }
        actions
    }

    /// Asks for the chain, if it is not known, and for missing blocks, if there are any.
    fn ask_for_lacking(&mut self, now: u64, stamp: u64) -> (actions: Vec<Action>)
        requires
            old(self)@.well_formed(),
        ensures
            final(self)@ == old(self)@.lack_step(now, stamp).after,
            actions_view(actions@) == old(self)@.lack_step(now, stamp).actions,
            final(self)@.well_formed(),
    {
        let mut actions: Vec<Action> = Vec::new();
        // send request to get chain id if we have not got it
        if self.chain_id.is_none() {
            actions.push(auth_message(MsgType::MiscellaneousReq, OutMessage::MiscellaneousReq));
        }
        let ghost asked = actions@;
        // block hashes of some height we not have
        // we will send request for these height
        if !self.history_heights.is_init() {
            let mut missing = self.send_block_tx_hashes_req_at(true, now, stamp);
            actions.append(&mut missing);
        }
        assert(actions_view(actions@) =~= old(self)@.lack_step(now, stamp).actions);
        actions
    }

    /// Checks the block that was kept, if it is due.
    fn check_kept_block(&mut self) -> (actions: Vec<Action>)
        requires
            old(self)@.well_formed(),
            old(self)@.can_run_tasks(),
        ensures
            old(self)@.kept_block_step(final(self)@, actions_view(actions@)),
            final(self)@.well_formed(),
    {
        if self.is_ready() {
            if let Some(cache_request_id) = self.cache_block_request_id() {
                let cache_height: u64 = cache_request_id >> 16;
                if cache_height == self.history_heights.next_height() {
                    let cache_block_req = self.cache_block_req.take();
                    assert(self@ == (HandlerView { cache_block_req: None, ..old(self)@ }));
                    if let Some(blk_req) = cache_block_req {
                        return self.process_block_verify(blk_req);
                    }
                }
            }
        }
        let actions: Vec<Action> = Vec::new();
        assert(actions_view(actions@) =~= Seq::empty());
        actions
    }

    /// Proposes a block, if that is called for.
    fn propose_if_needed(&mut self) -> (actions: Vec<Action>)
        requires
            old(self)@.well_formed(),
        ensures
            final(self)@ == old(self)@.proposal_step().after,
            actions_view(actions@) == old(self)@.proposal_step().actions,
            final(self)@.well_formed(),
    {
        let mut actions: Vec<Action> = Vec::new();
        if self.is_need_proposal_new_block {
            // if not ready we will proposal empty blk by set block_gas_limit 0
            let block_gas_limit: u64 = if self.is_ready() {
                self.block_gas_limit
            } else {
                0
            };
            actions.push(
                Action::ProposeTxList {
                    height: self.history_heights.max_height() as usize,
                    block_gas_limit,
                    account_gas_limit: self.account_gas_limit.clone(),
                    check_quota: self.check_quota,
                },
            );
            // after proposal new block clear flag
            self.is_need_proposal_new_block = false;
        }
        assert(actions_view(actions@) =~= old(self)@.proposal_step().actions);
        actions
    }

    /// Deals with a message that arrived under `key`, while the pool holds `pool_len` transactions.
    pub fn handle_remote_msg(&mut self, key: RoutingKey, msg: InMessage, pool_len: usize)
     -> (actions: Vec<Action>)
        requires
            old(self)@.well_formed(),
            fits_key(key, msg@),
            is_expected(key) ==> old(self)@.can_deal_with(msg@, pool_len as nat),
        ensures
            old(self)@.message_step(
                key,
                msg@,
                pool_len as nat,
                final(self)@,
                actions_view(actions@),
            ),
            final(self)@.well_formed(),
    {
        let actions: Vec<Action> = Vec::new();
        assert(actions_view(actions@) =~= Seq::empty());
        if !expects(key) {
            return actions;
        }
        match msg {
            // we got this message when chain reach new height or response the BlockTxHashesReq
            InMessage::BlockTxHashes(block_tx_hashes) => self.deal_block_tx_hashes(
                &block_tx_hashes,
            ),
            InMessage::BlackList(black_list) => {
                self.deal_black_list(&black_list);
                actions
            },
            InMessage::VerifyBlockReq(blk_req) => self.deal_verify_block_req(blk_req),
            InMessage::Request(newtx_req) => {
                let is_local = key.sub_module == SubModules::Jsonrpc;
                self.deal_request(is_local, newtx_req, pool_len)
            },
            InMessage::Miscellaneous { chain_id } => {
                self.chain_id = Some(chain_id);
                actions
            },
            InMessage::SnapshotReq(snapshot_req) => self.deal_snapshot(&snapshot_req),
            InMessage::Other => actions,
        }
    }
}

} // verus!
