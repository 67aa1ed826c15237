//! Following the chain: new blocks, the black list, and snapshots.

use super::{publish_snapshot_resp, send_single_block_tx_hashes_req, MsgHandler};
use crate::actions::{actions_view, hash_set, Action};
use crate::bytes::H256;
use crate::clock::{clock_gave, now_millis, readings_come_from_the_clock};
use crate::crypto::{address_from_slice, h256_from_slice};
use crate::history::record_keeps_window;
use crate::messages::{
    all_of_len, byte_strings_view, BlackList, BlockTxHashes, Cmd, Resp, SnapshotReq, SnapshotResp,
};
use crate::sig_cache::cache_clear;
use crate::state::{
    block_tx_hashes_req, heights_between, missing_block_reqs, reported, reported_once, HandlerView,
    FIRST_CREDIT,
};
use vstd::prelude::*;

verus! {

broadcast use {readings_come_from_the_clock, vstd::std_specs::hash::group_hash_axioms};

/// The hashes that a list of byte strings holds.
fn hashes_of(list: &Vec<Vec<u8>>) -> (hashes: Vec<H256>)
    requires
        all_of_len(byte_strings_view(list@), 32),
    ensures
        hash_set(hashes@) == byte_strings_view(list@).to_set(),
{
    let ghost all = byte_strings_view(list@);
    let mut hashes: Vec<H256> = Vec::new();
    let mut i: usize = 0;
    while i < list.len()
        invariant
            i <= list.len(),
            all == byte_strings_view(list@),
            all_of_len(all, 32),
            hashes.len() == i,
            forall|j: int| 0 <= j < i ==> (#[trigger] hashes[j])@ == all[j],
        decreases list.len() - i,
    {
        assert(all[i as int].len() == 32);
        hashes.push(h256_from_slice(list[i].as_slice()));
        i += 1;
    }
    assert forall|h: Seq<u8>| hash_set(hashes@).contains(h) == all.to_set().contains(h) by {
        if all.contains(h) {
            let j = choose|j: int| 0 <= j < all.len() && all[j] == h;
            assert(hashes[j]@ == h);
        }
        if hash_set(hashes@).contains(h) {
            let j = choose|j: int| 0 <= j < hashes.len() && (#[trigger] hashes[j])@ == h;
            assert(all[j] == h);
        }
    }
    assert(hash_set(hashes@) =~= all.to_set());
    hashes
}

impl MsgHandler {
    /// The requests for the recent blocks that the node lacks.
    fn missing_block_reqs(&self) -> (actions: Vec<Action>)
        ensures
            actions_view(actions@) == missing_block_reqs(
                self@.history_hashes,
                self@.history.min_height,
                self@.history.max_height,
            ),
    {
        let min_height: u64 = self.history_heights.min_height();
        let max_height: u64 = self.history_heights.max_height();
        let mut actions: Vec<Action> = Vec::new();
        let mut i: u64 = min_height;
        assert(actions_view(actions@) =~= Seq::empty());
        while i < max_height
            invariant
                min_height <= i,
                i <= max_height || i == min_height,
                actions_view(actions@) == missing_block_reqs(self@.history_hashes, min_height, i),
            decreases max_height - i,
        {
            let ghost before = actions@;
            assert(self.history_hashes@.contains_key(i) == self@.history_hashes.contains_key(i));
            if !self.history_hashes.contains_key(&i) {
                actions.push(send_single_block_tx_hashes_req(i));
                assert(actions_view(actions@) =~= actions_view(before).push(
                    block_tx_hashes_req(i),
                ));
            }
            i += 1;
        }
        actions
    }

    /// Asks for the recent blocks that the node lacks.
    ///
    /// When it asks, and which time it notes, rests on the clock: it does what
    /// [`send_block_tx_hashes_req_at`](Self::send_block_tx_hashes_req_at) does for the moment of the
    /// call.
    pub fn send_block_tx_hashes_req(&mut self, check: bool) -> (actions: Vec<Action>)
        requires
            old(self)@.well_formed(),
        ensures
            exists|now: u64, stamp: u64|
                {
                    let step = old(self)@.ask_step(check, now, stamp);
                    &&& #[trigger] clock_gave(now)
                    &&& #[trigger] clock_gave(stamp)
                    &&& final(self)@ == step.after
                    &&& actions_view(actions@) == step.actions
                },
            final(self)@.well_formed(),
    {
        let now: u64 = now_millis();
        let stamp: u64 = now_millis();
        let actions = self.send_block_tx_hashes_req_at(check, now, stamp);
        assert(self@ == old(self)@.ask_step(check, now, stamp).after);
        actions
    }

    /// Asks for the recent blocks that the node lacks, at `now`, and notes `stamp` as the time. If
    /// `check` is set, it does so only if the last such request is old enough.
    pub fn send_block_tx_hashes_req_at(&mut self, check: bool, now: u64, stamp: u64) -> (actions:
        Vec<Action>)
        requires
            old(self)@.well_formed(),
        ensures
            final(self)@ == old(self)@.ask_step(check, now, stamp).after,
            actions_view(actions@) == old(self)@.ask_step(check, now, stamp).actions,
            final(self)@.well_formed(),
    {
        // we will send req for all height
        // so don't too frequent
        if check && self.history_heights.is_too_frequent_at(now) {
            let actions: Vec<Action> = Vec::new();
            assert(actions_view(actions@) =~= Seq::empty());
            return actions;
        }
        let actions = self.missing_block_reqs();
        self.history_heights.update_time_stamp_at(stamp);
        actions
    }

    /// Deals with the transactions of a block that the chain has reached, or that was asked for.
    pub fn deal_block_tx_hashes(&mut self, block_tx_hashes: &BlockTxHashes) -> (actions: Vec<Action>)
        requires
            old(self)@.well_formed(),
            block_tx_hashes@.well_formed(),
        ensures
            final(self)@ == old(self)@.block_hashes_step(block_tx_hashes@).after,
            actions_view(actions@) == old(self)@.block_hashes_step(block_tx_hashes@).actions,
            final(self)@.well_formed(),
    {
        let height: u64 = block_tx_hashes.height;
        let max_height: u64 = self.history_heights.max_height();
        // the empty chain first msg height is 0 with quota info
        if height > max_height || (max_height == 0 && height == 0) {
            // get latest quota info from chain
            self.check_quota = block_tx_hashes.check_quota;
            self.block_gas_limit = block_tx_hashes.block_gas_limit;
            self.account_gas_limit = block_tx_hashes.account_gas_limit.clone();
            // need to proposal new block
            self.is_need_proposal_new_block = true;
        }

        // update history_heights
        let old_min_height: u64 = self.history_heights.min_height();
        self.history_heights.update_height(height);
        let min_height: u64 = self.history_heights.min_height();

        // update tx pool
        let tx_hashes = hashes_of(&block_tx_hashes.tx_hashes);
        let mut actions: Vec<Action> = Vec::new();
        actions.push(Action::RemoveFromPool { tx_hashes: hashes_of(&block_tx_hashes.tx_hashes) });

        // update history_hashes
        let ghost moved = self@;
        let ghost blocks = self.history_hashes@;
        let mut i: u64 = old_min_height;
        assert(blocks =~= blocks.remove_keys(heights_between(old_min_height, i)));
        while i < min_height
            invariant
                old_min_height <= i,
                i <= min_height || i == old_min_height,
                self.history_hashes@ == blocks.remove_keys(heights_between(old_min_height, i)),
                self@ == (HandlerView { history_hashes: self@.history_hashes, ..moved }),
            decreases min_height - i,
        {
            self.history_hashes.remove(&i);
            assert(self.history_hashes@ =~= blocks.remove_keys(
                heights_between(old_min_height, (i + 1) as u64),
            ));
            i += 1;
        }
        proof {
            record_keeps_window(old(self)@.history, height);
            assert(heights_between(old_min_height, i) =~= heights_between(
                old_min_height,
                min_height,
            ));
            assert(self@.history_hashes =~= old(self)@.history_hashes.remove_keys(
                heights_between(old_min_height, min_height),
            ));
        }
        let ghost kept = self@.history_hashes;
        if !self.history_hashes.contains_key(&height) {
            self.history_hashes.insert(height, tx_hashes);
            assert(self@.history_hashes =~= kept.insert(height, hash_set(tx_hashes@)));
        }
        assert(self@ == old(self)@.block_hashes_step(block_tx_hashes@).after);
        assert(actions_view(actions@) =~= old(self)@.block_hashes_step(block_tx_hashes@).actions);
        actions
    }

    /// Takes accounts off the black list, and then notes which were reported.
    pub fn deal_black_list(&mut self, black_list: &BlackList)
        requires
            old(self)@.well_formed(),
            black_list@.well_formed(),
        ensures
            final(self)@ == old(self)@.black_list_after(black_list@),
            final(self)@.well_formed(),
    {
        let ghost state = self@;
        let ghost clear_list = black_list@.clear_list;
        let mut i: usize = 0;
        assert(state.black_list.remove_keys(clear_list.take(0).to_set()) =~= state.black_list);
        while i < black_list.clear_list.len()
            invariant
                i <= black_list.clear_list.len(),
                clear_list == black_list@.clear_list,
                black_list@.well_formed(),
                self@ == (HandlerView {
                    black_list: state.black_list.remove_keys(
                        clear_list.take(i as int).to_set(),
                    ),
                    ..state
                }),
            decreases black_list.clear_list.len() - i,
        {
            assert(clear_list[i as int].len() == 20);
            let account = address_from_slice(black_list.clear_list[i].as_slice());
            self.black_list_cache.remove(&account);
            proof {
                let before = clear_list.take(i as int);
                let after = clear_list.take(i + 1);
                assert(after =~= before.push(account@));
                assert(after.to_set() =~= before.to_set().insert(account@)) by {
                    broadcast use vstd::seq_lib::group_seq_properties;

                };
                assert(self@.black_list =~= state.black_list.remove_keys(after.to_set()));
            }
            i += 1;
        }
        assert(clear_list.take(i as int) =~= clear_list);
        let ghost cleared = self@;
        let ghost accounts = black_list@.black_list;
        let mut i: usize = 0;
        assert(accounts.take(0) =~= Seq::empty());
        while i < black_list.black_list.len()
            invariant
                i <= black_list.black_list.len(),
                accounts == black_list@.black_list,
                black_list@.well_formed(),
                cleared.well_formed(),
                self@ == (HandlerView {
                    black_list: reported(cleared.black_list, accounts.take(i as int)),
                    ..cleared
                }),
                self@.well_formed(),
            decreases black_list.black_list.len() - i,
        {
            assert(accounts[i as int].len() == 20);
            assert(accounts.take(i + 1).drop_last() =~= accounts.take(i as int));
            let account = address_from_slice(black_list.black_list[i].as_slice());
            let ghost before = self@.black_list;
            match self.black_list_cache.get(&account) {
                Some(credit) => {
                    if credit >= 0 {
                        self.black_list_cache.set(account, credit - 1);
                    }
                },
                None => {
                    self.black_list_cache.set(account, FIRST_CREDIT);
                },
            }
            assert(self@.black_list == reported_once(before, account@));
            i += 1;
        }
        assert(accounts.take(i as int) =~= accounts);
    }

    /// Deals with a step of a snapshot.
    pub fn deal_snapshot(&mut self, snapshot_req: &SnapshotReq) -> (actions: Vec<Action>)
        requires
            old(self)@.well_formed(),
        ensures
            final(self)@ == old(self)@.snapshot_step(*snapshot_req).after,
            actions_view(actions@) == old(self)@.snapshot_step(*snapshot_req).actions,
            final(self)@.well_formed(),
    {
        let mut actions: Vec<Action> = Vec::new();
        match snapshot_req.cmd {
            Cmd::Snapshot => {},
            Cmd::Begin => {
                self.is_snapshot = true;
                actions.push(
                    publish_snapshot_resp(SnapshotResp { resp: Resp::BeginAck, flag: true }),
                );
            },
            Cmd::Restore => {},
            Cmd::Clear => {
                actions.push(Action::ClearPool);
                cache_clear(&mut self.cache);
                self.history_heights.reset();
                self.cache_block_req = None;
                self.history_hashes.clear();
                self.black_list_cache.clear();
                actions.push(
                    publish_snapshot_resp(SnapshotResp { resp: Resp::ClearAck, flag: true }),
                );
            },
            Cmd::End => {
                actions.push(send_single_block_tx_hashes_req(snapshot_req.end_height));
                self.is_snapshot = false;
                actions.push(
                    publish_snapshot_resp(SnapshotResp { resp: Resp::EndAck, flag: true }),
                );
            },
        }
        assert(self@ =~= old(self)@.snapshot_step(*snapshot_req).after);
        assert(actions_view(actions@) =~= old(self)@.snapshot_step(*snapshot_req).actions);
        actions
    }
}

} // verus!
