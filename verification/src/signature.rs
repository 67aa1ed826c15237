//! Whose signature a transaction carries.

use crate::bytes::{opt_view, same_bytes, H256};
use crate::crypto::{
    h256_from_slice, recover, recovered_pubkey, PUBKEY_BYTES_LEN, SIGNATURE_BYTES_LEN,
};
use crate::messages::{Crypto, VerifyTxReq, VerifyTxReqView};
use crate::sig_cache::Entry;
use rayon::iter::{IntoParallelIterator, ParallelIterator};
use vstd::prelude::*;

verus! {

/// The public key that signed the transaction, where its signature gives one.
pub open spec fn signer_of(req: VerifyTxReqView) -> Option<Seq<u8>> {
    if req.signature.len() == SIGNATURE_BYTES_LEN && req.crypto == Crypto::SECP {
        recovered_pubkey(req.signature, req.hash)
    } else {
        None
    }
}

/// The transaction carries the signature of the signer that it names.
pub open spec fn signed_as_claimed(req: VerifyTxReqView) -> bool {
    signer_of(req) == Some(req.signer)
}

/// Finds the public key that signed a transaction. There is none if the signature is of the wrong
/// length, of an unknown scheme, or not a signature over the hash. Which chain the transaction is for
/// is checked by [`verify_tx_req`](crate::handler::MsgHandler::verify_tx_req).
pub fn verify_tx_sig(req: &VerifyTxReq) -> (signer: Result<Vec<u8>, ()>)
    requires
        req@.hash.len() == 32,
    ensures
        match signer {
            Ok(key) => signer_of(req@) == Some(key@) && key.len() == PUBKEY_BYTES_LEN,
            Err(_) => signer_of(req@) is None,
        },
{
    let hash = h256_from_slice(req.hash.as_slice());
    if req.signature.len() != SIGNATURE_BYTES_LEN {
        return Err(());
    }
    match req.crypto {
        Crypto::SECP => match recover(req.signature.as_slice(), &hash) {
            Ok(key) => Ok(key),
            Err(_) => Err(()),
        },
        Crypto::Other => Err(()),
    }
}

/// What is learnt from a signature check: the hash and the signer, if the signature gave a key and
/// it is that of the signer that the transaction names.
pub fn confirm_signer(req: &VerifyTxReq, recovered: Result<Vec<u8>, ()>) -> (confirmed: Option<
    (H256, Vec<u8>),
>)
    requires
        req@.tx_hash.len() == 32,
    ensures
        confirmed is Some <==> recovered is Ok && recovered->Ok_0@ == req@.signer,
        confirmed matches Some(c) ==> c.0@ == req@.tx_hash && c.1@ == req@.signer,
{
    match recovered {
        Ok(key) => {
            if same_bytes(req.signer.as_slice(), key.as_slice()) {
                Some((h256_from_slice(req.tx_hash.as_slice()), key))
            } else {
                None
            }
        },
        Err(_) => None,
    }
}

/// Checks that a transaction carries the signature of the signer that it names.
pub fn check_signer(req: &VerifyTxReq) -> (confirmed: Option<(H256, Vec<u8>)>)
    requires
        req@.well_formed(),
    ensures
        confirmed is Some <==> signed_as_claimed(req@),
        confirmed matches Some(c) ==> c.0@ == req@.tx_hash && c.1@ == req@.signer && c.1.len()
            == PUBKEY_BYTES_LEN,
{
    confirm_signer(req, verify_tx_sig(req))
}

/// The cache entry by which the confirmed signer of a transaction is remembered.
pub open spec fn confirmed_entry(req: VerifyTxReqView) -> Entry {
    (req.tx_hash, Some(req.signer))
}

/// The cache entries that a list of confirmed signers stands for.
pub open spec fn confirmed_view(confirmed: Seq<(H256, Vec<u8>)>) -> Seq<Entry> {
    confirmed.map_values(|c: (H256, Vec<u8>)| (c.0@, Some(c.1@)))
}

/// The views of a list of borrowed requests.
pub open spec fn refs_view(reqs: Seq<&VerifyTxReq>) -> Seq<VerifyTxReqView> {
    reqs.map_values(|r: &VerifyTxReq| r@)
}

/// `entries` remember the signers of some of `reqs`, all of them signed as claimed, in the order
/// of `reqs`.
pub open spec fn is_selection(entries: Seq<Entry>, reqs: Seq<VerifyTxReqView>) -> bool {
    exists|at: Seq<int>| #[trigger] selects(at, entries, reqs)
}

/// `entries` remember the signers of the requests at the positions `at`.
pub open spec fn selects(at: Seq<int>, entries: Seq<Entry>, reqs: Seq<VerifyTxReqView>) -> bool {
    &&& at.len() == entries.len()
    &&& forall|j: int|
        0 <= j < at.len() ==> {
            &&& 0 <= #[trigger] at[j] < reqs.len()
            &&& signed_as_claimed(reqs[at[j]])
            &&& entries[j] == confirmed_entry(reqs[at[j]])
        }
    &&& forall|j: int, k: int| 0 <= j < k < at.len() ==> at[j] < at[k]
}

/// Runs [`check_signer`] over `reqs` with `rayon`'s `into_par_iter`, `map`, `while_some` and
/// `collect`.
///
/// Claimed of them: what is collected keeps the order of the requests and holds only signers that
/// were confirmed; every request is in it if all were confirmed; and if some request was not, the
/// result is short, while which of the other requests are in it is left to the threads.
#[verifier::external_body]
pub(crate) fn check_signers(reqs: Vec<&VerifyTxReq>) -> (confirmed: Vec<(H256, Vec<u8>)>)
    requires
        forall|i: int| 0 <= i < reqs.len() ==> (#[trigger] refs_view(reqs@)[i]).well_formed(),
    ensures
        is_selection(confirmed_view(confirmed@), refs_view(reqs@)),
        (forall|i: int| 0 <= i < reqs.len() ==> signed_as_claimed(#[trigger] refs_view(reqs@)[i]))
            ==> confirmed_view(confirmed@) == refs_view(reqs@).map_values(
            |r: VerifyTxReqView| confirmed_entry(r),
        ),
        (exists|i: int|
            0 <= i < reqs.len() && !signed_as_claimed(#[trigger] refs_view(reqs@)[i]))
            ==> confirmed.len() < reqs.len(),
        forall|j: int|
            0 <= j < confirmed.len() ==> (#[trigger] confirmed[j]).1.len() == PUBKEY_BYTES_LEN,
{
    reqs.into_par_iter().map(|req| check_signer(req)).while_some().collect()
}

/// The signature checks of `reqs` gave these `entries`: they came out of a call of `check_signers`, and
/// none was added or left out.
pub closed spec fn checks_gave(reqs: Seq<VerifyTxReqView>, entries: Seq<Entry>) -> bool {
    exists|refs: Vec<&VerifyTxReq>, confirmed: Vec<(H256, Vec<u8>)>|
        {
            &&& #[trigger] call_ensures(check_signers, (refs,), confirmed)
            &&& refs_view(refs@) == reqs
            &&& confirmed_view(confirmed@) == entries
        }
}

/// What a call of `check_signers` returns are the results of its checks.
pub(crate) broadcast proof fn results_come_from_the_checks(
    refs: Vec<&VerifyTxReq>,
    confirmed: Vec<(H256, Vec<u8>)>,
)
    requires
        #[trigger] call_ensures(check_signers, (refs,), confirmed),
    ensures
        checks_gave(refs_view(refs@), confirmed_view(confirmed@)),
{
}

/// Finds the signer of one transaction of a batch.
pub fn verify_job(job: (H256, VerifyTxReq)) -> (result: (H256, Option<Vec<u8>>))
    requires
        job.1@.hash.len() == 32,
    ensures
        result.0@ == job.0@,
        opt_view(result.1) == signer_of(job.1@),
        result.1 matches Some(key) ==> key.len() == PUBKEY_BYTES_LEN,
{
    match verify_tx_sig(&job.1) {
        Ok(key) => (job.0, Some(key)),
        Err(_) => (job.0, None),
    }
}

/// The cache entries that the results for a batch stand for.
pub open spec fn results_view(results: Seq<(H256, Option<Vec<u8>>)>) -> Seq<Entry> {
    results.map_values(|r: (H256, Option<Vec<u8>>)| (r.0@, opt_view(r.1)))
}

/// The cache entry by which the result of a job is remembered.
pub open spec fn job_entry(job: (H256, VerifyTxReq)) -> Entry {
    (job.0@, signer_of(job.1@))
}

/// Runs [`verify_job`] over `jobs` with `rayon`'s `into_par_iter`, `map` and `collect`.
///
/// Claimed of them: there is one result for each job, in the order of the jobs.
#[verifier::external_body]
pub(crate) fn verify_jobs(jobs: Vec<(H256, VerifyTxReq)>) -> (results: Vec<
    (H256, Option<Vec<u8>>),
>)
    requires
        forall|i: int| 0 <= i < jobs.len() ==> (#[trigger] jobs[i]).1@.hash.len() == 32,
    ensures
        results_view(results@) == jobs@.map_values(|j: (H256, VerifyTxReq)| job_entry(j)),
        forall|i: int|
            0 <= i < results.len() ==> ((#[trigger] results[i]).1 matches Some(key) ==> key.len()
                == PUBKEY_BYTES_LEN),
{
    jobs.into_par_iter().map(|job| verify_job(job)).collect()
}

} // verus!
