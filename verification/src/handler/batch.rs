//! Taking up new transactions in batches.

use super::request::refuse_request;
use super::MsgHandler;
use crate::actions::{actions_view, Action};
use crate::batch::{
    all_resolved, batch_pendings, candidates, findings, hash_of, is_latest, known_bad_refusals,
    open_hashes_fit, pending, pendings_view, pendings_well_formed, refusals, resolved,
    unsigned_refusals, PendingTx,
};
use crate::bytes::{opt_view, same_bytes, H256};
use crate::crypto::{h256_from_slice, PUBKEY_BYTES_LEN};
use crate::messages::{
    txs_view, NewTxRequest, NewTxRequestView, RequestView, Ret, VerifyTxReq,
};
use crate::sig_cache::{key_fits, lookup, put_all_keeps_well_formed, remembered_key_fits};
use crate::signature::{job_entry, results_view, verify_jobs};
use vstd::prelude::*;

verus! {

/// Refuses every transaction of a batch.
fn refuse_all(is_local: bool, txs: &Vec<NewTxRequest>, ret: Ret) -> (actions: Vec<Action>)
    ensures
        actions_view(actions@) == refusals(is_local, txs_view(txs@), ret),
{
    let ghost all = txs_view(txs@);
    let mut actions: Vec<Action> = Vec::new();
    let mut i: usize = 0;
    assert(actions_view(actions@) =~= refusals(is_local, all.take(0), ret));
    while i < txs.len()
        invariant
            i <= txs.len(),
            all == txs_view(txs@),
            actions_view(actions@) == refusals(is_local, all.take(i as int), ret),
        decreases txs.len() - i,
    {
        let ghost before = actions@;
        let mut refused = refuse_request(is_local, &txs[i].request_id, ret);
        let ghost news = refused@;
        actions.append(&mut refused);
        proof {
            assert(all.take(i + 1).drop_last() =~= all.take(i as int));
            assert(actions_view(before + news) =~= actions_view(before) + actions_view(news));
        }
        i += 1;
    }
    assert(all.take(i as int) =~= all);
    actions
}

/// Whether no later transaction of a batch has the hash of the one at `i`.
pub(super) fn is_latest_tx(txs: &Vec<NewTxRequest>, i: usize) -> (latest: bool)
    requires
        i < txs.len(),
    ensures
        latest == is_latest(txs_view(txs@), i as int),
{
    let mut j: usize = i + 1;
    while j < txs.len()
        invariant
            i < j <= txs.len(),
            forall|k: int|
                i < k < j ==> hash_of(#[trigger] txs_view(txs@)[k]) != hash_of(
                    txs_view(txs@)[i as int],
                ),
        decreases txs.len() - j,
    {
        if same_bytes(
            txs[j].un_tx.verify_req.tx_hash.as_slice(),
            txs[i].un_tx.verify_req.tx_hash.as_slice(),
        ) {
            assert(hash_of(txs_view(txs@)[j as int]) == hash_of(txs_view(txs@)[i as int]));
            return false;
        }
        j += 1;
    }
    true
}

/// What `results` say of the transaction with this hash.
fn result_for(results: &Vec<(H256, Option<Vec<u8>>)>, hash: &[u8]) -> (result: Option<
    Option<Vec<u8>>,
>)
    ensures
        lookup(results_view(results@), hash@) == (match result {
            Some(signer) => Some(opt_view(signer)),
            None => None,
        }),
{
    let ghost all = results_view(results@);
    let mut i: usize = results.len();
    assert(all.take(i as int) =~= all);
    while i > 0
        invariant
            i <= results.len(),
            all == results_view(results@),
            lookup(all, hash@) == lookup(all.take(i as int), hash@),
        decreases i,
    {
        assert(all.take(i as int).drop_last() =~= all.take(i - 1));
        i -= 1;
        assert(all[i as int] == (results[i as int].0@, opt_view(results[i as int].1)));
        if same_bytes(&results[i].0, hash) {
            return Some(results[i].1.clone());
        }
    }
    None
}

/// The signatures that are still to be checked.
fn open_jobs(pendings: &Vec<PendingTx>) -> (jobs: Vec<(H256, VerifyTxReq)>)
    requires
        pendings_well_formed(pendings_view(pendings@)),
        open_hashes_fit(pendings_view(pendings@)),
    ensures
        forall|i: int| 0 <= i < jobs.len() ==> (#[trigger] jobs[i]).1@.hash.len() == 32,
        jobs@.map_values(|j: (H256, VerifyTxReq)| job_entry(j)) == findings(
            pendings_view(pendings@),
        ),
{
    let ghost all = pendings_view(pendings@);
    let mut jobs: Vec<(H256, VerifyTxReq)> = Vec::new();
    let mut i: usize = 0;
    assert(jobs@.map_values(|j: (H256, VerifyTxReq)| job_entry(j)) =~= findings(all.take(0)));
    while i < pendings.len()
        invariant
            i <= pendings.len(),
            all == pendings_view(pendings@),
            pendings_well_formed(all),
            open_hashes_fit(all),
            forall|j: int| 0 <= j < jobs.len() ==> (#[trigger] jobs[j]).1@.hash.len() == 32,
            jobs@.map_values(|j: (H256, VerifyTxReq)| job_entry(j)) == findings(
                all.take(i as int),
            ),
        decreases pendings.len() - i,
    {
        let pending = &pendings[i];
        let ghost before = jobs@;
        assert(all[i as int] == pending@);
        assert(all.take(i + 1).drop_last() =~= all.take(i as int));
        if pending.signer.is_none() {
            let req = pending.tx.un_tx.tx_verify_req_msg();
            let tx_hash = h256_from_slice(req.tx_hash.as_slice());
            jobs.push((tx_hash, req));
            assert(jobs@.map_values(|j: (H256, VerifyTxReq)| job_entry(j)) =~= before.map_values(
                |j: (H256, VerifyTxReq)| job_entry(j),
            ).push(job_entry(jobs@[jobs@.len() - 1])));
        }
        i += 1;
    }
    assert(all.take(i as int) =~= all);
    jobs
}

impl MsgHandler {
    /// Sorts the transactions of a batch: those whose signatures are remembered as bad are refused,
    /// and of the others each is kept once.
    fn sort_batch(&self, is_local: bool, txs: &Vec<NewTxRequest>) -> (sorted: (
        Vec<Action>,
        Vec<PendingTx>,
    ))
        requires
            self@.well_formed(),
            self@.is_readable_batch(txs_view(txs@)),
        ensures
            actions_view(sorted.0@) == known_bad_refusals(
                self@.cache,
                is_local,
                txs_view(txs@),
            ),
            pendings_view(sorted.1@) == batch_pendings(self@.cache, txs_view(txs@)),
            pendings_well_formed(pendings_view(sorted.1@)),
            open_hashes_fit(pendings_view(sorted.1@)),
    {
        let ghost all = txs_view(txs@);
        let ghost cache = self@.cache;
        let mut actions: Vec<Action> = Vec::new();
        let mut pendings: Vec<PendingTx> = Vec::new();
        let mut i: usize = 0;
        assert(actions_view(actions@) =~= known_bad_refusals(cache, is_local, all.take(0)));
        assert(pendings_view(pendings@) =~= candidates(cache, all, 0).map_values(
            |t: NewTxRequestView| pending(cache, t),
        ));
        while i < txs.len()
            invariant
                i <= txs.len(),
                all == txs_view(txs@),
                cache == self@.cache,
                self@.well_formed(),
                self@.is_readable_batch(all),
                actions_view(actions@) == known_bad_refusals(cache, is_local, all.take(i as int)),
                pendings_view(pendings@) == candidates(cache, all, i as nat).map_values(
                    |t: NewTxRequestView| pending(cache, t),
                ),
                pendings_well_formed(pendings_view(pendings@)),
                open_hashes_fit(pendings_view(pendings@)),
            decreases txs.len() - i,
        {
            let tx = &txs[i];
            let ghost actions_before = actions@;
            let ghost before = pendings@;
            let ghost view_before = pendings_view(pendings@);
            proof {
                assert(all[i as int] == tx@);
                assert(self@.is_readable_tx(all[i as int], is_latest(all, i as int)));
                assert(all.take(i + 1).drop_last() =~= all.take(i as int));
                assert(all.take(i + 1).last() == tx@);
                remembered_key_fits(cache, hash_of(tx@));
            }
            let tx_hash = h256_from_slice(tx.un_tx.verify_req.tx_hash.as_slice());
            let remembered = self.get_ret_from_cache(&tx_hash);
            if let Some(None) = remembered {
                let mut refused = refuse_request(is_local, &tx.request_id, Ret::BadSig);
                let ghost news = refused@;
                actions.append(&mut refused);
                assert(actions_view(actions_before + news) =~= actions_view(actions_before)
                    + actions_view(news));
            } else if is_latest_tx(txs, i) {
                let signer = match remembered {
                    Some(signer) => signer,
                    None => None,
                };
                pendings.push(PendingTx { tx: tx.clone(), signer });
                proof {
                    let last = pendings@[pendings@.len() - 1]@;
                    assert(pendings_view(pendings@) =~= view_before.push(last));
                    assert(last == pending(cache, tx@));
                    let picked = candidates(cache, all, i as nat);
                    assert(picked.push(tx@).map_values(|t: NewTxRequestView| pending(cache, t))
                        =~= picked.map_values(|t: NewTxRequestView| pending(cache, t)).push(last));
                    let view = pendings_view(pendings@);
                    assert forall|j: int| 0 <= j < view.len() implies hash_of(
                        (#[trigger] view[j]).tx,
                    ).len() == 32 && key_fits(view[j].signer) && (view[j].signer is None
                        ==> view[j].tx.un_tx.verify_req.hash.len() == 32) by {
                        if j < before.len() {
                            assert(view[j] == view_before[j]);
                        }
                    }
                }
            }
            i += 1;
        }
        assert(all.take(i as int) =~= all);
        (actions, pendings)
    }

    /// Deals with the transactions of a batch once their signatures were checked.
    pub fn finish_batch(
        &mut self,
        is_local: bool,
        pendings: Vec<PendingTx>,
        results: Vec<(H256, Option<Vec<u8>>)>,
    ) -> (actions: Vec<Action>)
        requires
            old(self)@.well_formed(),
            pendings_well_formed(pendings_view(pendings@)),
            forall|i: int|
                0 <= i < pendings.len() ==> old(self)@.can_check_fields(
                    (#[trigger] pendings_view(pendings@)[i]).tx.un_tx.verify_req,
                ),
            forall|i: int|
                0 <= i < results.len() ==> key_fits((#[trigger] results_view(results@)[i]).1),
        ensures
            final(self)@ == old(self)@.checked_batch(
                is_local,
                pendings_view(pendings@),
                results_view(results@),
            ).after,
            actions_view(actions@) == old(self)@.checked_batch(
                is_local,
                pendings_view(pendings@),
                results_view(results@),
            ).actions,
            final(self)@.well_formed(),
    {
        let ghost state = self@;
        let ghost all = pendings_view(pendings@);
        let ghost found = results_view(results@);
        let ghost known = all_resolved(all, found);
        let mut actions: Vec<Action> = Vec::new();
        let mut signers: Vec<Option<Vec<u8>>> = Vec::new();
        let mut i: usize = 0;
        assert(actions_view(actions@) =~= unsigned_refusals(is_local, known.take(0)));
        while i < pendings.len()
            invariant
                i <= pendings.len(),
                all == pendings_view(pendings@),
                found == results_view(results@),
                known == all_resolved(all, found),
                pendings_well_formed(all),
                forall|j: int|
                    0 <= j < results.len() ==> key_fits((#[trigger] found[j]).1),
                signers.len() == i,
                forall|j: int|
                    0 <= j < i ==> opt_view(#[trigger] signers[j]) == known[j].signer && key_fits(
                        known[j].signer,
                    ),
                actions_view(actions@) == unsigned_refusals(is_local, known.take(i as int)),
            decreases pendings.len() - i,
        {
            let pending = &pendings[i];
            let ghost actions_before = actions@;
            proof {
                assert(all[i as int] == pending@);
                assert(known[i as int] == resolved(pending@, found));
                assert(known.take(i + 1).drop_last() =~= known.take(i as int));
                assert(known.take(i + 1).last() == known[i as int]);
                remembered_key_fits(found, hash_of(pending.tx@));
            }
            let hash = pending.tx.un_tx.verify_req.tx_hash.as_slice();
            let signer = match result_for(&results, hash) {
                Some(signer) => signer,
                None => pending.signer.clone(),
            };
            if signer.is_none() {
                let mut refused = refuse_request(is_local, &pending.tx.request_id, Ret::BadSig);
                let ghost news = refused@;
                actions.append(&mut refused);
                assert(actions_view(actions_before + news) =~= actions_view(actions_before)
                    + actions_view(news));
            }
            signers.push(signer);
            i += 1;
        }
        let ghost refused = actions_view(actions@);
        assert(known.take(i as int) =~= known);
        let mut i: usize = 0;
        assert(refused + self@.admissions(is_local, known.take(0)) =~= refused);
        while i < pendings.len()
            invariant
                i <= pendings.len(),
                all == pendings_view(pendings@),
                known == all_resolved(all, found),
                self@ == state,
                state == old(self)@,
                state.well_formed(),
                pendings_well_formed(all),
                forall|j: int|
                    0 <= j < all.len() ==> state.can_check_fields(
                        (#[trigger] all[j]).tx.un_tx.verify_req,
                    ),
                signers.len() == pendings.len(),
                forall|j: int|
                    0 <= j < signers.len() ==> opt_view(#[trigger] signers[j]) == known[j].signer
                        && key_fits(known[j].signer),
                actions_view(actions@) == refused + state.admissions(
                    is_local,
                    known.take(i as int),
                ),
            decreases pendings.len() - i,
        {
            let pending = &pendings[i];
            let ghost actions_before = actions@;
            proof {
                assert(all[i as int] == pending@);
                assert(known[i as int].tx == pending.tx@);
                assert(known.take(i + 1).drop_last() =~= known.take(i as int));
                assert(known.take(i + 1).last() == known[i as int]);
            }
            if let Some(signer) = &signers[i] {
                let mut taken = self.take_up(is_local, &pending.tx, signer.clone());
                let ghost news = taken@;
                actions.append(&mut taken);
                assert(actions_view(actions_before + news) =~= actions_view(actions_before)
                    + actions_view(news));
                assert(actions_view(actions@) =~= refused + state.admissions(
                    is_local,
                    known.take(i + 1),
                ));
            }
            i += 1;
        }
        assert(known.take(i as int) =~= known);
        self.remember_results(results);
        actions
    }

    /// Remembers the signature checks of a batch.
    fn remember_results(&mut self, results: Vec<(H256, Option<Vec<u8>>)>)
        requires
            old(self)@.well_formed(),
            forall|i: int|
                0 <= i < results.len() ==> key_fits((#[trigger] results_view(results@)[i]).1),
        ensures
            final(self)@ == old(self)@.remember_all(results_view(results@)),
            final(self)@.well_formed(),
    {
        let ghost state = self@;
        let ghost entries = results_view(results@);
        let mut i: usize = 0;
        assert(entries.take(0) =~= Seq::empty());
        while i < results.len()
            invariant
                i <= results.len(),
                entries == results_view(results@),
                self@ == state.remember_all(entries.take(i as int)),
            decreases results.len() - i,
        {
            let (tx_hash, signer) = &results[i];
            assert(entries.take(i + 1).drop_last() =~= entries.take(i as int));
            self.save_ret_to_cache(*tx_hash, signer.clone());
            i += 1;
        }
        assert(entries.take(i as int) =~= entries);
        proof {
            put_all_keeps_well_formed(state.cache, state.cache_capacity, entries);
        }
    }

    /// Deals with a batch of new transactions.
    pub(super) fn deal_batch(&mut self, is_local: bool, txs: Vec<NewTxRequest>, pool_len: usize)
     -> (actions: Vec<Action>)
        requires
            old(self)@.well_formed(),
            old(self)@.can_deal_with_request(
                RequestView::Batch(txs_view(txs@)),
                pool_len as nat,
            ),
        ensures
            final(self)@ == old(self)@.batch_step(
                is_local,
                txs_view(txs@),
                pool_len as nat,
            ).after,
            actions_view(actions@) == old(self)@.batch_step(
                is_local,
                txs_view(txs@),
                pool_len as nat,
            ).actions,
            final(self)@.well_formed(),
    {
        if !self.is_ready() {
            return refuse_all(is_local, &txs, Ret::NotReady);
        }
        if self.is_flow_control(txs.len(), pool_len) {
            return refuse_all(is_local, &txs, Ret::Busy);
        }
        let (mut actions, pendings) = self.sort_batch(is_local, &txs);
        let ghost refused = actions@;
        let results = verify_jobs(open_jobs(&pendings));
        assert forall|i: int| 0 <= i < results.len() implies key_fits(
            (#[trigger] results_view(results@)[i]).1,
        ) by {
            assert(results[i].1 matches Some(key) ==> key.len() == PUBKEY_BYTES_LEN);
        }
        let mut rest = self.finish_batch(is_local, pendings, results);
        let ghost news = rest@;
        actions.append(&mut rest);
        assert(actions_view(refused + news) =~= actions_view(refused) + actions_view(news));
        actions
    }
}

} // verus!
