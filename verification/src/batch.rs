//! Batches of new transactions.

use crate::actions::ActionView;
use crate::bytes::opt_view;
use crate::messages::{NewTxRequest, NewTxRequestView, Ret};
use crate::sig_cache::{key_fits, lookup, lookup_after_push, Entry};
use crate::signature::signer_of;
use crate::state::refusal;
use vstd::prelude::*;

verus! {

/// A transaction of a batch whose signature is not known to be bad, and its signer, if that is
/// known.
#[derive(Debug, PartialEq, Eq)]
pub struct PendingTx {
    pub tx: NewTxRequest,
    pub signer: Option<Vec<u8>>,
}

#[verifier::ext_equal]
pub struct PendingTxView {
    pub tx: NewTxRequestView,
    pub signer: Option<Seq<u8>>,
}

impl View for PendingTx {
    type V = PendingTxView;

    open spec fn view(&self) -> PendingTxView {
        PendingTxView { tx: self.tx@, signer: opt_view(self.signer) }
    }
}

/// The views of a list of transactions.
pub open spec fn pendings_view(list: Seq<PendingTx>) -> Seq<PendingTxView> {
    list.map_values(|p: PendingTx| p@)
}

/// Every transaction has a proper transaction hash, and the signers that are known are proper keys.
pub open spec fn pendings_well_formed(pendings: Seq<PendingTxView>) -> bool {
    forall|i: int|
        0 <= i < pendings.len() ==> hash_of((#[trigger] pendings[i]).tx).len() == 32 && key_fits(
            pendings[i].signer,
        )
}

/// The signatures that are still to be checked can be: each such transaction has a proper hash that
/// was signed.
pub open spec fn open_hashes_fit(pendings: Seq<PendingTxView>) -> bool {
    forall|i: int|
        0 <= i < pendings.len() && (#[trigger] pendings[i]).signer is None
            ==> pendings[i].tx.un_tx.verify_req.hash.len() == 32
}

/// The hash by which a transaction is known.
pub open spec fn hash_of(tx: NewTxRequestView) -> Seq<u8> {
    tx.un_tx.verify_req.tx_hash
}

/// No later transaction of the batch has the hash of the one at `i`.
pub open spec fn is_latest(txs: Seq<NewTxRequestView>, i: int) -> bool {
    forall|j: int| i < j < txs.len() ==> hash_of(#[trigger] txs[j]) != hash_of(txs[i])
}

/// The first `n` transactions of a batch, but without those whose signatures are remembered as bad,
/// and with only the last one of those that share a hash.
pub open spec fn candidates(
    cache: Seq<Entry>,
    txs: Seq<NewTxRequestView>,
    n: nat,
) -> Seq<NewTxRequestView>
    decreases n,
{
    if n == 0 {
        Seq::empty()
    } else {
        let before = candidates(cache, txs, (n - 1) as nat);
        let tx = txs[n - 1];
        if lookup(cache, hash_of(tx)) != Some(None::<Seq<u8>>) && is_latest(txs, n - 1) {
            before.push(tx)
        } else {
            before
        }
    }
}

/// A transaction with what is remembered of its signer.
pub open spec fn pending(cache: Seq<Entry>, tx: NewTxRequestView) -> PendingTxView {
    PendingTxView {
        tx,
        signer: match lookup(cache, hash_of(tx)) {
            Some(signer) => signer,
            None => None,
        },
    }
}

/// What checking the signatures of those of `pendings` that have no signer yet brings to light.
pub open spec fn findings(pendings: Seq<PendingTxView>) -> Seq<Entry>
    decreases pendings.len(),
{
    if pendings.len() == 0 {
        Seq::empty()
    } else {
        let before = findings(pendings.drop_last());
        let tx = pendings.last().tx;
        if pendings.last().signer is None {
            before.push((hash_of(tx), signer_of(tx.un_tx.verify_req)))
        } else {
            before
        }
    }
}

/// A transaction once the signatures were checked: its signer is the one that was found for its
/// hash, or else the one that was known before.
pub open spec fn resolved(pending: PendingTxView, results: Seq<Entry>) -> PendingTxView {
    match lookup(results, hash_of(pending.tx)) {
        Some(signer) => PendingTxView { signer, ..pending },
        None => pending,
    }
}

pub open spec fn all_resolved(
    pendings: Seq<PendingTxView>,
    results: Seq<Entry>,
) -> Seq<PendingTxView> {
    pendings.map_values(|p: PendingTxView| resolved(p, results))
}

/// The refusals of those of `txs` whose signatures are remembered as bad.
pub open spec fn known_bad_refusals(
    cache: Seq<Entry>,
    is_local: bool,
    txs: Seq<NewTxRequestView>,
) -> Seq<ActionView>
    decreases txs.len(),
{
    if txs.len() == 0 {
        Seq::empty()
    } else {
        let before = known_bad_refusals(cache, is_local, txs.drop_last());
        if lookup(cache, hash_of(txs.last())) == Some(None::<Seq<u8>>) {
            before + refusal(is_local, txs.last().request_id, Ret::BadSig)
        } else {
            before
        }
    }
}

/// The refusals of all of `txs`.
pub open spec fn refusals(is_local: bool, txs: Seq<NewTxRequestView>, ret: Ret) -> Seq<ActionView>
    decreases txs.len(),
{
    if txs.len() == 0 {
        Seq::empty()
    } else {
        refusals(is_local, txs.drop_last(), ret) + refusal(is_local, txs.last().request_id, ret)
    }
}

/// The refusals of those of `pendings` that have no signer.
pub open spec fn unsigned_refusals(
    is_local: bool,
    pendings: Seq<PendingTxView>,
) -> Seq<ActionView>
    decreases pendings.len(),
{
    if pendings.len() == 0 {
        Seq::empty()
    } else {
        let before = unsigned_refusals(is_local, pendings.drop_last());
        if pendings.last().signer is None {
            before + refusal(is_local, pendings.last().tx.request_id, Ret::BadSig)
        } else {
            before
        }
    }
}

/// The transactions of a batch that are to be dealt with, each with what is remembered of its
/// signer.
pub open spec fn batch_pendings(cache: Seq<Entry>, txs: Seq<NewTxRequestView>) -> Seq<
    PendingTxView,
> {
    candidates(cache, txs, txs.len()).map_values(|t: NewTxRequestView| pending(cache, t))
}

/// No two of `txs` share a hash.
pub open spec fn hashes_differ(txs: Seq<NewTxRequestView>) -> bool {
    forall|i: int, j: int|
        0 <= i < j < txs.len() ==> hash_of(#[trigger] txs[i]) != hash_of(#[trigger] txs[j])
}

/// The candidates of a batch are among its transactions, and no two of them share a hash.
pub proof fn candidates_are_distinct(cache: Seq<Entry>, txs: Seq<NewTxRequestView>, n: nat)
    requires
        n <= txs.len(),
    ensures
        hashes_differ(candidates(cache, txs, n)),
        forall|a: int|
            0 <= a < candidates(cache, txs, n).len() ==> exists|k: int|
                0 <= k < n && is_latest(txs, k) && #[trigger] txs[k] == #[trigger] candidates(
                    cache,
                    txs,
                    n,
                )[a] && lookup(cache, hash_of(txs[k])) != Some(None::<Seq<u8>>),
    decreases n,
{
    if n > 0 {
        candidates_are_distinct(cache, txs, (n - 1) as nat);
        let before = candidates(cache, txs, (n - 1) as nat);
        let after = candidates(cache, txs, n);
        assert forall|a: int| 0 <= a < after.len() implies exists|k: int|
            0 <= k < n && is_latest(txs, k) && #[trigger] txs[k] == #[trigger] after[a] && lookup(
                cache,
                hash_of(txs[k]),
            ) != Some(None::<Seq<u8>>) by {
            if a < before.len() {
                assert(after[a] == before[a]);
            } else {
                assert(txs[n - 1] == after[a]);
            }
        }
        assert forall|i: int, j: int| 0 <= i < j < after.len() implies hash_of(#[trigger] after[i])
            != hash_of(#[trigger] after[j]) by {
            assert(after[i] == before[i]);
            if j < before.len() {
                assert(after[j] == before[j]);
            } else {
                let k = choose|k: int|
                    0 <= k < n - 1 && is_latest(txs, k) && #[trigger] txs[k] == before[i];
                assert(hash_of(txs[n - 1]) != hash_of(txs[k]));
            }
        }
    }
}

/// Nothing is found for a hash that none of the transactions has.
pub(crate) proof fn findings_are_of_txs(pendings: Seq<PendingTxView>, hash: Seq<u8>)
    requires
        forall|i: int| 0 <= i < pendings.len() ==> hash_of((#[trigger] pendings[i]).tx) != hash,
    ensures
        lookup(findings(pendings), hash) is None,
    decreases pendings.len(),
{
    if pendings.len() > 0 {
        let rest = pendings.drop_last();
        let last = pendings.last();
        assert forall|i: int| 0 <= i < rest.len() implies hash_of((#[trigger] rest[i]).tx)
            != hash by {
            assert(rest[i] == pendings[i]);
        }
        findings_are_of_txs(rest, hash);
        assert(hash_of(pendings[pendings.len() - 1].tx) != hash);
        lookup_after_push(
            findings(rest),
            (hash_of(last.tx), signer_of(last.tx.un_tx.verify_req)),
            hash,
        );
    }
}

/// Among transactions with different hashes, what is found for each that has no signer yet is its
/// own signer, and nothing is found for the others.
pub(crate) proof fn findings_of_tx(pendings: Seq<PendingTxView>, i: int)
    requires
        forall|a: int, b: int|
            0 <= a < b < pendings.len() ==> hash_of((#[trigger] pendings[a]).tx) != hash_of(
                (#[trigger] pendings[b]).tx,
            ),
        0 <= i < pendings.len(),
    ensures
        lookup(findings(pendings), hash_of(pendings[i].tx)) == (if pendings[i].signer is None {
            Some(signer_of(pendings[i].tx.un_tx.verify_req))
        } else {
            None
        }),
    decreases pendings.len(),
{
    let rest = pendings.drop_last();
    let last = pendings.last();
    let hash = hash_of(pendings[i].tx);
    assert forall|a: int, b: int| 0 <= a < b < rest.len() implies hash_of((#[trigger] rest[a]).tx)
        != hash_of((#[trigger] rest[b]).tx) by {
        assert(rest[a] == pendings[a] && rest[b] == pendings[b]);
    }
    lookup_after_push(
        findings(rest),
        (hash_of(last.tx), signer_of(last.tx.un_tx.verify_req)),
        hash,
    );
    if i < rest.len() {
        assert(rest[i] == pendings[i]);
        assert(hash_of(pendings[i].tx) != hash_of(pendings[pendings.len() - 1].tx));
        findings_of_tx(rest, i);
    } else {
        assert forall|a: int| 0 <= a < rest.len() implies hash_of((#[trigger] rest[a]).tx)
            != hash by {
            assert(rest[a] == pendings[a]);
            assert(hash_of(pendings[a].tx) != hash_of(pendings[i].tx));
        }
        findings_are_of_txs(rest, hash);
    }
}

/// No two transactions of a batch that are dealt with share a hash.
pub(crate) proof fn pendings_have_different_hashes(cache: Seq<Entry>, txs: Seq<NewTxRequestView>)
    ensures
        ({
            let pendings = batch_pendings(cache, txs);
            forall|a: int, b: int|
                0 <= a < b < pendings.len() ==> hash_of((#[trigger] pendings[a]).tx) != hash_of(
                    (#[trigger] pendings[b]).tx,
                )
        }),
{
    let pendings = batch_pendings(cache, txs);
    let picked = candidates(cache, txs, txs.len());
    candidates_are_distinct(cache, txs, txs.len());
    assert forall|a: int, b: int| 0 <= a < b < pendings.len() implies hash_of(
        (#[trigger] pendings[a]).tx,
    ) != hash_of((#[trigger] pendings[b]).tx) by {
        assert(pendings[a].tx == picked[a] && pendings[b].tx == picked[b]);
    }
}

/// Once the signatures of a batch were checked, every transaction that is dealt with has the signer
/// that is remembered for its hash, or else the one that its own signature gives.
pub proof fn batch_signers_are_own(cache: Seq<Entry>, txs: Seq<NewTxRequestView>, i: int)
    requires
        0 <= i < batch_pendings(cache, txs).len(),
    ensures
        ({
            let pendings = batch_pendings(cache, txs);
            let known = all_resolved(pendings, findings(pendings));
            let tx = candidates(cache, txs, txs.len())[i];
            known[i] == (PendingTxView {
                tx,
                signer: match lookup(cache, hash_of(tx)) {
                    Some(signer) => signer,
                    None => signer_of(tx.un_tx.verify_req),
                },
            })
        }),
{
    let pendings = batch_pendings(cache, txs);
    let picked = candidates(cache, txs, txs.len());
    candidates_are_distinct(cache, txs, txs.len());
    pendings_have_different_hashes(cache, txs);
    findings_of_tx(pendings, i);
    assert(pendings[i].tx == picked[i]);
}

} // verus!
