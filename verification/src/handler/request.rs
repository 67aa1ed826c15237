//! Taking up new transactions.

use super::{forward_request, publish_tx_failed_result, publish_tx_success_result, verify_request};
use super::MsgHandler;
use crate::actions::{actions_view, Action, SignedTransaction};
use crate::bytes::{opt_view, Address};
use crate::crypto::{h256_from_slice, pubkey_address, PUBKEY_BYTES_LEN};
use crate::messages::{NewTxRequest, Request, RequestView, Ret, VerifyTxReq};
use crate::sig_cache::{put_keeps_well_formed, remembered_key_fits};
use crate::signature::verify_tx_sig;
use crate::state::{pooled, refusal, settled};
use vstd::prelude::*;

verus! {

/// Refuses a client's request; a request that another node passed on is not answered.
pub fn refuse_request(is_local: bool, request_id: &Vec<u8>, ret: Ret) -> (actions: Vec<Action>)
    ensures
        actions_view(actions@) == refusal(is_local, request_id@, ret),
{
    let mut actions: Vec<Action> = Vec::new();
    if is_local {
        actions.push(publish_tx_failed_result(request_id.clone(), ret));
    }
    assert(actions_view(actions@) =~= refusal(is_local, request_id@, ret));
    actions
}

/// Hands a transaction to the pool if it passed its checks, or else refuses it.
pub fn settle_request(
    is_local: bool,
    request: &NewTxRequest,
    signer: Vec<u8>,
    ret: Ret,
) -> (actions: Vec<Action>)
    ensures
        actions_view(actions@) == settled(is_local, request@, signer@, ret),
{
    if ret != Ret::OK {
        return refuse_request(is_local, &request.request_id, ret);
    }
    let signed_tx = SignedTransaction {
        transaction_with_sig: request.un_tx.clone(),
        signer,
        tx_hash: request.un_tx.verify_req.tx_hash.clone(),
    };
    let mut actions: Vec<Action> = Vec::new();
    actions.push(Action::AddToPool { signed_tx, request: request.clone() });
    assert(actions_view(actions@) =~= settled(is_local, request@, signer@, ret));
    actions
}

/// Tells the client and the other nodes whether the pool has taken up a transaction: `added` is
/// false where the pool held it already.
pub fn pool_result(is_local: bool, request: NewTxRequest, added: bool) -> (actions: Vec<Action>)
    requires
        request@.un_tx.verify_req.tx_hash.len() == 32,
    ensures
        actions_view(actions@) == pooled(is_local, request@, added),
{
    let mut actions: Vec<Action> = Vec::new();
    if is_local {
        let ret = if added {
            Ret::OK
        } else {
            Ret::Dup
        };
        let tx_hash = h256_from_slice(request.un_tx.verify_req.tx_hash.as_slice());
        actions.push(publish_tx_success_result(request.request_id.clone(), ret, tx_hash));
    }
    if added {
        // new tx need forward to other nodes
        actions.push(forward_request(request));
    }
    assert(actions_view(actions@) =~= pooled(is_local, request@, added));
    actions
}

impl MsgHandler {
    /// Checks the chain, the nonce, the value, the lifetime, the novelty and the quota of a
    /// transaction that the account at `sender` signed, and then whether the account is on the black
    /// list.
    pub fn tx_verdict(&self, req: &VerifyTxReq, sender: &Address) -> (ret: Ret)
        requires
            self@.can_check_fields(req@),
        ensures
            ret == self@.tx_ret(req@, sender@),
    {
        let ret = self.verify_tx_fields(req);
        if ret != Ret::OK {
            return ret;
        }
        if !self.tx_quota_allows(req.quota, sender) {
            return Ret::QuotaNotEnough;
        }
        self.black_list_verdict(sender)
    }

    /// Checks a request that the account at `sender` signed against the black list, then its
    /// recipient, then the transaction itself.
    pub fn admission_verdict(&self, request: &NewTxRequest, sender: &Address) -> (ret: Ret)
        requires
            self@.can_check_fields(request@.un_tx.verify_req),
        ensures
            ret == self@.admission_ret(request@, sender@),
    {
        let ret = self.black_list_verdict(sender);
        if ret != Ret::OK {
            return ret;
        }
        let ret = verify_request(request);
        if ret != Ret::OK {
            return ret;
        }
        self.tx_verdict(&request.un_tx.verify_req, sender)
    }

    /// Checks a request that `signer` signed, and hands it to the pool or refuses it.
    pub fn take_up(&self, is_local: bool, request: &NewTxRequest, signer: Vec<u8>) -> (actions: Vec<
        Action,
    >)
        requires
            self@.can_check_fields(request@.un_tx.verify_req),
            signer.len() == PUBKEY_BYTES_LEN,
        ensures
            actions_view(actions@) == self@.admission(is_local, request@, signer@),
    {
        let sender = pubkey_address(signer.as_slice());
        let ret = self.admission_verdict(request, &sender);
        settle_request(is_local, request, signer, ret)
    }

    /// Deals with one new transaction of which nothing was remembered, once its signature was
    /// checked.
    pub fn finish_single(&mut self, is_local: bool, request: &NewTxRequest, signer: Option<Vec<u8>>)
     -> (actions: Vec<Action>)
        requires
            old(self)@.well_formed(),
            request@.un_tx.verify_req.tx_hash.len() == 32,
            signer matches Some(key) ==> key.len() == PUBKEY_BYTES_LEN
                && old(self)@.can_check_fields(request@.un_tx.verify_req),
        ensures
            final(self)@ == old(self)@.checked_single(is_local, request@, opt_view(signer)).after,
            actions_view(actions@) == old(self)@.checked_single(
                is_local,
                request@,
                opt_view(signer),
            ).actions,
            final(self)@.well_formed(),
    {
        let tx_hash = h256_from_slice(request.un_tx.verify_req.tx_hash.as_slice());
        proof {
            put_keeps_well_formed(
                self@.cache,
                self@.cache_capacity,
                tx_hash@,
                opt_view(signer),
            );
        }
        let actions = match &signer {
            Some(key) => self.take_up(is_local, request, key.clone()),
            None => refuse_request(is_local, &request.request_id, Ret::BadSig),
        };
        self.save_ret_to_cache(tx_hash, signer);
        actions
    }

    /// Deals with a request for new transactions, while the pool holds `pool_len` of them.
    pub fn deal_request(&mut self, is_local: bool, newtx_req: Request, pool_len: usize) -> (actions:
        Vec<Action>)
        requires
            old(self)@.well_formed(),
            old(self)@.can_deal_with_request(newtx_req@, pool_len as nat),
        ensures
            final(self)@ == old(self)@.request_step(is_local, newtx_req@, pool_len as nat).after,
            actions_view(actions@) == old(self)@.request_step(
                is_local,
                newtx_req@,
                pool_len as nat,
            ).actions,
            final(self)@.well_formed(),
    {
        match newtx_req {
            Request::Batch(txs) => self.deal_batch(is_local, txs, pool_len),
            Request::UnTx(tx) => self.deal_single(is_local, tx, pool_len),
            Request::Other => {
                let actions: Vec<Action> = Vec::new();
                assert(actions_view(actions@) =~= Seq::empty());
                actions
            },
        }
    }

    /// Deals with one new transaction.
    fn deal_single(&mut self, is_local: bool, request: NewTxRequest, pool_len: usize) -> (actions:
        Vec<Action>)
        requires
            old(self)@.well_formed(),
            old(self)@.can_deal_with_request(RequestView::UnTx(request@), pool_len as nat),
        ensures
            final(self)@ == old(self)@.single_step(is_local, request@, pool_len as nat).after,
            actions_view(actions@) == old(self)@.single_step(
                is_local,
                request@,
                pool_len as nat,
            ).actions,
            final(self)@.well_formed(),
    {
        if !self.is_ready() {
            return refuse_request(is_local, &request.request_id, Ret::NotReady);
        }
        if self.is_flow_control(1, pool_len) {
            return refuse_request(is_local, &request.request_id, Ret::Busy);
        }
        let req = request.un_tx.tx_verify_req_msg();
        let tx_hash = h256_from_slice(req.tx_hash.as_slice());
        // verify with cache
        match self.get_ret_from_cache(&tx_hash) {
            Some(Some(pubkey)) => {
                proof {
                    remembered_key_fits(self@.cache, tx_hash@);
                }
                self.take_up(is_local, &request, pubkey)
            },
            Some(None) => {
                let mut actions: Vec<Action> = Vec::new();
                actions.push(publish_tx_failed_result(request.request_id, Ret::BadSig));
                assert(actions_view(actions@) =~= seq![
                    crate::state::tx_failed(request.request_id@, Ret::BadSig),
                ]);
                actions
            },
            None => {
                let signer = match verify_tx_sig(&req) {
                    Ok(pubkey) => Some(pubkey),
                    Err(_) => None,
                };
                self.finish_single(is_local, &request, signer)
            },
        }
    }
}

} // verus!
