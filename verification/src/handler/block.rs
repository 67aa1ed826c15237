//! Checking whole blocks.

use super::{publish_block_verification_result, MsgHandler};
use crate::actions::{actions_view, Action};
use crate::bytes::{same_bytes, H256};
use crate::crypto::{h256_from_slice, PUBKEY_BYTES_LEN};
use crate::laws::blocks::{unknown_has, verdict_ignores_cache};
use crate::messages::{Ret, VerifyBlockReq, VerifyTxReq, VerifyTxReqView};
use crate::sig_cache::{
    key_fits, lookup, put_all_keeps_well_formed, put_keeps_well_formed, remembered_key_fits,
};
use crate::signature::{
    check_signers, confirmed_entry, confirmed_view, refs_view, results_come_from_the_checks,
    signed_as_claimed,
};
use crate::state::{all_signed_as_claimed, first_unsigned, HandlerView};
use vstd::prelude::*;

verus! {

broadcast use results_come_from_the_checks;

/// Adding a request at the end adds it to the unknown ones exactly if nothing is remembered of it.
proof fn unknown_after_push(
    state: HandlerView,
    reqs: Seq<VerifyTxReqView>,
    n: int,
)
    requires
        0 <= n < reqs.len(),
    ensures
        state.unknown(reqs.take(n + 1)) == (if lookup(state.cache, reqs[n].tx_hash) is None {
            state.unknown(reqs.take(n)).push(reqs[n])
        } else {
            state.unknown(reqs.take(n))
        }),
{
    reveal(Seq::filter);
    assert(reqs.take(n + 1).drop_last() =~= reqs.take(n));
}

impl MsgHandler {
    /// Deals with a request to check a block.
    pub fn deal_verify_block_req(&mut self, blk_req: VerifyBlockReq) -> (actions: Vec<Action>)
        requires
            old(self)@.well_formed(),
            old(self)@.can_deal_with_block(blk_req@),
        ensures
            old(self)@.verify_block_step(blk_req@, final(self)@, actions_view(actions@)),
            final(self)@.well_formed(),
    {
        let actions: Vec<Action> = Vec::new();
        assert(actions_view(actions@) =~= Seq::empty());
        if blk_req.reqs.len() == 0 {
            return actions;
        }
        if !self.is_ready() {
            self.update_cache_block_req(blk_req);
            return actions;
        }
        self.process_block_verify(blk_req)
    }

    /// Checks the next block, or keeps the request to check another one for later.
    pub(crate) fn process_block_verify(&mut self, blk_req: VerifyBlockReq) -> (actions: Vec<Action>)
        requires
            old(self)@.well_formed(),
            old(self)@.has_next_height(),
            blk_req@.height() == old(self)@.next_height() ==> old(self)@.chain_id is Some
                && old(self)@.is_readable_block(blk_req@.reqs),
        ensures
            old(self)@.block_step(blk_req@, final(self)@, actions_view(actions@)),
            final(self)@.well_formed(),
    {
        let request_id: u64 = blk_req.id;
        let height: u64 = request_id >> 16;
        let mut actions: Vec<Action> = Vec::new();
        if self.history_heights.next_height() != height {
            self.update_cache_block_req(blk_req);
            assert(actions_view(actions@) =~= Seq::empty());
            return actions;
        }
        let ret = self.check_block(&blk_req);
        actions.push(publish_block_verification_result(request_id, ret));
        assert(actions_view(actions@) =~= seq![
            crate::state::block_verdict(request_id, old(self)@.block_ret(blk_req@.reqs)),
        ]);
        actions
    }

    /// Checks the transactions of a block.
    fn check_block(&mut self, blk_req: &VerifyBlockReq) -> (ret: Ret)
        requires
            old(self)@.well_formed(),
            old(self)@.has_next_height(),
            old(self)@.chain_id is Some,
            old(self)@.is_readable_block(blk_req@.reqs),
        ensures
            ret == old(self)@.block_ret(blk_req@.reqs),
            old(self)@.block_remembered(blk_req@.reqs, final(self)@),
            final(self)@.well_formed(),
    {
        let ghost reqs = blk_req@.reqs;
        let ghost state = self@;

        // for block verify, req must include signer
        let mut i: usize = 0;
        assert(reqs.skip(0) =~= reqs);
        while i < blk_req.reqs.len()
            invariant
                i <= blk_req.reqs.len(),
                self@ == state,
                state == old(self)@,
                state.well_formed(),
                reqs == blk_req@.reqs,
                state.is_readable_block(reqs),
                first_unsigned(reqs) == first_unsigned(reqs.skip(i as int)),
                forall|j: int| 0 <= j < i ==> (#[trigger] reqs[j]).signer.len() != 0,
            decreases blk_req.reqs.len() - i,
        {
            let req = &blk_req.reqs[i];
            assert(reqs[i as int] == req@);
            assert(reqs.skip(i as int).drop_first() =~= reqs.skip(i + 1));
            if req.signer.is_empty() {
                let tx_hash = h256_from_slice(req.tx_hash.as_slice());
                proof {
                    put_keeps_well_formed(state.cache, state.cache_capacity, tx_hash@, None);
                }
                self.save_ret_to_cache(tx_hash, None);
                return Ret::BadSig;
            }
            i += 1;
        }
        assert(reqs.skip(i as int) =~= Seq::empty());

        let mut no_cache: Vec<&VerifyTxReq> = Vec::new();
        let mut i: usize = 0;
        assert(refs_view(no_cache@) =~= state.unknown(reqs.take(0))) by {
            reveal(Seq::filter);
        }
        while i < blk_req.reqs.len()
            invariant
                i <= blk_req.reqs.len(),
                self@ == state,
                state == old(self)@,
                state.well_formed(),
                reqs == blk_req@.reqs,
                state.is_readable_block(reqs),
                first_unsigned(reqs) is None,
                refs_view(no_cache@) == state.unknown(reqs.take(i as int)),
                forall|j: int| 0 <= j < i ==> !state.contradicts_tx(#[trigger] reqs[j]),
            decreases blk_req.reqs.len() - i,
        {
            let req = &blk_req.reqs[i];
            assert(reqs[i as int] == req@);
            proof {
                unknown_after_push(state, reqs, i as int);
                assert forall|j: int| 0 <= j < i implies !state.contradicts_tx(
                    #[trigger] reqs.take(i as int)[j],
                ) by {
                    assert(!state.contradicts_tx(reqs[j]));
                }
                assert(!state.contradicts(reqs.take(i as int)));
            }
            let tx_hash = h256_from_slice(req.tx_hash.as_slice());
            match self.get_ret_from_cache(&tx_hash) {
                Some(Some(pubkey)) => {
                    if !same_bytes(req.signer.as_slice(), pubkey.as_slice()) {
                        assert(state.contradicts_tx(reqs[i as int]));
                        return Ret::BadSig;
                    }
                },
                Some(None) => {
                    assert(state.contradicts_tx(reqs[i as int]));
                    return Ret::BadSig;
                },
                None => {
                    let ghost before = no_cache@;
                    no_cache.push(req);
                    assert(refs_view(no_cache@) =~= refs_view(before).push(req@));
                },
            }
            i += 1;
        }
        assert(reqs.take(i as int) =~= reqs);
        assert(!state.contradicts(reqs));
        assert forall|j: int| 0 <= j < reqs.len() implies (#[trigger] reqs[j]).tx_hash.len()
            == 32 by {
            assert forall|k: int| 0 <= k < j implies !state.contradicts_tx(
                #[trigger] reqs.take(j)[k],
            ) by {
                assert(!state.contradicts_tx(reqs[k]));
            }
            assert(!state.contradicts(reqs.take(j)));
        }

        let no_cache_count: usize = no_cache.len();
        let ghost unknown = state.unknown(reqs);
        proof {
            assert forall|j: int| 0 <= j < unknown.len() implies (
            #[trigger] unknown[j]).well_formed() by {
                unknown_has(state, reqs, unknown[j]);
                let k = choose|k: int| 0 <= k < reqs.len() && reqs[k] == unknown[j];
                assert(reqs[k].hash.len() == 32);
            }
        }
        let confirmed = check_signers(no_cache);
        let ghost entries = confirmed_view(confirmed@);
        proof {
            if confirmed.len() == no_cache_count {
                assert forall|j: int| 0 <= j < unknown.len() implies signed_as_claimed(
                    #[trigger] unknown[j],
                ) by {}
                self.signers_are_keys(reqs, confirmed@);
            } else {
                assert(!all_signed_as_claimed(unknown));
                assert(entries.len() < unknown.len());
            }
        }
        self.finish_block_verify(blk_req, no_cache_count, confirmed)
    }

    /// Where nothing remembered speaks against the requests and all unknown ones were confirmed,
    /// every signer is a proper key.
    proof fn signers_are_keys(&self, reqs: Seq<VerifyTxReqView>, confirmed: Seq<(H256, Vec<u8>)>)
        requires
            self@.well_formed(),
            !self@.contradicts(reqs),
            confirmed_view(confirmed) == self@.unknown(reqs).map_values(
                |r: VerifyTxReqView| confirmed_entry(r),
            ),
            forall|j: int|
                0 <= j < confirmed.len() ==> (#[trigger] confirmed[j]).1.len() == PUBKEY_BYTES_LEN,
        ensures
            forall|i: int|
                0 <= i < reqs.len() ==> (#[trigger] reqs[i]).signer.len() == PUBKEY_BYTES_LEN,
    {
        let unknown = self@.unknown(reqs);
        assert(confirmed_view(confirmed).len() == unknown.len());
        assert forall|i: int| 0 <= i < reqs.len() implies (#[trigger] reqs[i]).signer.len()
            == PUBKEY_BYTES_LEN by {
            let hash = reqs[i].tx_hash;
            remembered_key_fits(self@.cache, hash);
            if lookup(self@.cache, hash) is Some {
                assert(!self@.contradicts_tx(reqs[i]));
            } else {
                unknown_has(self@, reqs, reqs[i]);
                let j = choose|j: int| 0 <= j < unknown.len() && unknown[j] == reqs[i];
                assert(confirmed_view(confirmed)[j] == confirmed_entry(unknown[j]));
                assert(confirmed[j].1.len() == PUBKEY_BYTES_LEN);
            }
        }
    }

    /// Finishes the check of a block, of whose transactions `checked` had their signatures checked
    /// and `confirmed` turned out to be signed as claimed: remembers those, and, if that was all of
    /// them, checks the rest of each transaction and then the quota of the block.
    pub fn finish_block_verify(
        &mut self,
        blk_req: &VerifyBlockReq,
        checked: usize,
        confirmed: Vec<(H256, Vec<u8>)>,
    ) -> (ret: Ret)
        requires
            confirmed.len() == checked ==> forall|i: int|
                0 <= i < blk_req.reqs.len() ==> old(self)@.can_check_tx(
                    #[trigger] blk_req@.reqs[i],
                ) && blk_req@.reqs[i].signer.len() == PUBKEY_BYTES_LEN,
        ensures
            final(self)@ == old(self)@.remember_all(confirmed_view(confirmed@)),
            ret == (if confirmed.len() == checked {
                old(self)@.signed_block_ret(blk_req@.reqs)
            } else {
                Ret::BadSig
            }),
            old(self)@.well_formed() && (forall|j: int|
                0 <= j < confirmed.len() ==> (#[trigger] confirmed[j]).1.len() == PUBKEY_BYTES_LEN)
                ==> final(self)@.well_formed(),
    {
        let ghost state = self@;
        let ghost reqs = blk_req@.reqs;
        let ghost entries = confirmed_view(confirmed@);
        let ghost keys_fit = forall|j: int|
            0 <= j < confirmed.len() ==> (#[trigger] confirmed[j]).1.len() == PUBKEY_BYTES_LEN;
        proof {
            if state.well_formed() && keys_fit {
                assert forall|j: int| 0 <= j < entries.len() implies key_fits(
                    (#[trigger] entries[j]).1,
                ) by {
                    assert(confirmed[j].1.len() == PUBKEY_BYTES_LEN);
                }
                put_all_keeps_well_formed(state.cache, state.cache_capacity, entries);
            }
        }
        let confirmed_len: usize = confirmed.len();
        self.remember_confirmed(confirmed);
        if confirmed_len != checked {
            return Ret::BadSig;
        }
        proof {
            verdict_ignores_cache(state, self@.cache, reqs);
        }

        // check valid_until_block and history block dup
        let mut i: usize = 0;
        assert(reqs.skip(0) =~= reqs);
        while i < blk_req.reqs.len()
            invariant
                i <= blk_req.reqs.len(),
                reqs == blk_req@.reqs,
                state == old(self)@,
                entries == confirmed_view(confirmed@),
                self@ == state.remember_all(entries),
                confirmed@.len() == checked,
                state.well_formed() && keys_fit ==> self@.well_formed(),
                keys_fit == forall|j: int|
                    0 <= j < confirmed@.len() ==> (#[trigger] confirmed@[j]).1.len()
                        == PUBKEY_BYTES_LEN,
                self@.signed_block_ret(reqs) == state.signed_block_ret(reqs),
                forall|j: int|
                    0 <= j < reqs.len() ==> self@.can_check_tx(#[trigger] reqs[j])
                        && reqs[j].signer.len() == PUBKEY_BYTES_LEN,
                self@.first_failure(reqs) == self@.first_failure(reqs.skip(i as int)),
            decreases blk_req.reqs.len() - i,
        {
            let req = &blk_req.reqs[i];
            assert(reqs[i as int] == req@);
            assert(reqs.skip(i as int).drop_first() =~= reqs.skip(i + 1));
            let ret = self.verify_tx_req(req);
            if ret != Ret::OK {
                return ret;
            }
            i += 1;
        }
        assert(reqs.skip(i as int) =~= Seq::empty());
        if !self.verify_block_quota(blk_req) {
            return Ret::QuotaNotEnough;
        }
        Ret::OK
    }

    /// Remembers the signers that were confirmed.
    fn remember_confirmed(&mut self, confirmed: Vec<(H256, Vec<u8>)>)
        ensures
            final(self)@ == old(self)@.remember_all(confirmed_view(confirmed@)),
    {
        let ghost state = self@;
        let ghost entries = confirmed_view(confirmed@);
        let mut i: usize = 0;
        assert(entries.take(0) =~= Seq::empty());
        while i < confirmed.len()
            invariant
                i <= confirmed.len(),
                entries == confirmed_view(confirmed@),
                self@ == state.remember_all(entries.take(i as int)),
            decreases confirmed.len() - i,
        {
            let (tx_hash, pubkey) = &confirmed[i];
            assert(entries.take(i + 1).drop_last() =~= entries.take(i as int));
            self.save_ret_to_cache(*tx_hash, Some(pubkey.clone()));
            i += 1;
        }
        assert(entries.take(i as int) =~= entries);
    }
}

} // verus!
