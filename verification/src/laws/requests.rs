//! What holds of requests for new transactions.

use crate::actions::{
    ActionView, OutMessageView, ResponseContentView, ResponseView, SignedTransactionView,
};
use crate::batch::{
    all_resolved, batch_pendings, batch_signers_are_own, candidates, candidates_are_distinct,
    findings, findings_are_of_txs, findings_of_tx, hash_of, hashes_differ, is_latest,
    known_bad_refusals, pending, pendings_have_different_hashes, refusals, unsigned_refusals,
    PendingTxView,
};
use crate::crypto::address_of;
use crate::laws::blocks::put_all_with_room;
use crate::messages::{NewTxRequestView, RequestView, Ret};
use crate::routing::{MsgType, RoutingKey, SubModules};
use crate::sig_cache::{lookup, put, put_all, put_is_found, Entry};
use crate::signature::signer_of;
use crate::state::{pooled, refusal, settled, tx_failed, tx_succeeded, HandlerView};
use vstd::prelude::*;

verus! {

/// The transactions that a request is about.
pub open spec fn txs_of(request: RequestView) -> Seq<NewTxRequestView> {
    match request {
        RequestView::Batch(txs) => txs,
        RequestView::UnTx(tx) => seq![tx],
        RequestView::Other => Seq::empty(),
    }
}

/// The signer of a transaction: the one that is remembered for its hash, or else the one that its
/// signature gives.
pub open spec fn known_signer(state: HandlerView, tx: NewTxRequestView) -> Option<Seq<u8>> {
    match lookup(state.cache, hash_of(tx)) {
        Some(signer) => signer,
        None => signer_of(tx.un_tx.verify_req),
    }
}

/// The transaction is handed to the pool, as signed by `signer`.
pub open spec fn pool_action(tx: NewTxRequestView, signer: Seq<u8>) -> ActionView {
    ActionView::AddToPool {
        signed_tx: SignedTransactionView {
            transaction_with_sig: tx.un_tx,
            signer,
            tx_hash: hash_of(tx),
        },
        request: tx,
    }
}

/// The outcome for a transaction of a request.
pub open spec fn tx_outcome(
    state: HandlerView,
    request: RequestView,
    pool_len: nat,
    tx: NewTxRequestView,
) -> Ret {
    if !state.is_ready() {
        Ret::NotReady
    } else if state.is_flow_control(txs_of(request).len(), pool_len) {
        Ret::Busy
    } else {
        match known_signer(state, tx) {
            Some(signer) => state.admission_ret(tx, address_of(signer)),
            None => Ret::BadSig,
        }
    }
}

/// The answer to a client: the transaction is handed to the pool if its outcome is good, and is
/// refused with its outcome if not.
pub open spec fn answer_to_client(
    state: HandlerView,
    request: RequestView,
    pool_len: nat,
    tx: NewTxRequestView,
) -> ActionView {
    let ret = tx_outcome(state, request, pool_len, tx);
    if ret == Ret::OK {
        pool_action(tx, known_signer(state, tx)->0)
    } else {
        tx_failed(tx.request_id, ret)
    }
}

/// What refusing a list of transactions comes to.
proof fn refusals_are_one_each(is_local: bool, txs: Seq<NewTxRequestView>, ret: Ret)
    ensures
        refusals(is_local, txs, ret).len() == if is_local {
            txs.len()
        } else {
            0
        },
        is_local ==> forall|i: int|
            0 <= i < txs.len() ==> #[trigger] refusals(is_local, txs, ret)[i] == tx_failed(
                txs[i].request_id,
                ret,
            ),
    decreases txs.len(),
{
    if txs.len() > 0 {
        refusals_are_one_each(is_local, txs.drop_last(), ret);
    }
}

/// A node that is not ready refuses every transaction of its own clients, each once and in order,
/// answers no other node, and changes nothing.
pub proof fn not_ready_refuses_all(
    state: HandlerView,
    is_local: bool,
    request: RequestView,
    pool_len: nat,
)
    requires
        !state.is_ready(),
    ensures
        state.request_step(is_local, request, pool_len).after == state,
        state.request_step(is_local, request, pool_len).actions == (if is_local {
            Seq::new(
                txs_of(request).len(),
                |i: int| tx_failed(txs_of(request)[i].request_id, Ret::NotReady),
            )
        } else {
            Seq::empty()
        }),
{
    refusals_are_one_each(is_local, txs_of(request), Ret::NotReady);
    let actions = state.request_step(is_local, request, pool_len).actions;
    if is_local {
        assert(actions =~= Seq::new(
            txs_of(request).len(),
            |i: int| tx_failed(txs_of(request)[i].request_id, Ret::NotReady),
        ));
    } else {
        assert(actions =~= Seq::empty());
    }
}

/// A node whose pool has no room for a request refuses every transaction in it, each once and in
/// order, answers no other node, and changes nothing.
pub proof fn full_pool_refuses_all(
    state: HandlerView,
    is_local: bool,
    request: RequestView,
    pool_len: nat,
)
    requires
        state.is_ready(),
        state.is_flow_control(txs_of(request).len(), pool_len),
    ensures
        state.request_step(is_local, request, pool_len).after == state,
        state.request_step(is_local, request, pool_len).actions == (if is_local {
            Seq::new(
                txs_of(request).len(),
                |i: int| tx_failed(txs_of(request)[i].request_id, Ret::Busy),
            )
        } else {
            Seq::empty()
        }),
{
    refusals_are_one_each(is_local, txs_of(request), Ret::Busy);
    let actions = state.request_step(is_local, request, pool_len).actions;
    if is_local {
        assert(actions =~= Seq::new(
            txs_of(request).len(),
            |i: int| tx_failed(txs_of(request)[i].request_id, Ret::Busy),
        ));
    } else {
        assert(actions =~= Seq::empty());
    }
}

/// Which actions are among the refusals of bad signatures that are remembered.
proof fn known_bad_has(
    cache: Seq<Entry>,
    is_local: bool,
    txs: Seq<NewTxRequestView>,
    action: ActionView,
)
    ensures
        known_bad_refusals(cache, is_local, txs).contains(action) <==> exists|i: int|
            0 <= i < txs.len() && lookup(cache, hash_of(#[trigger] txs[i])) == Some(None::<Seq<u8>>)
                && refusal(is_local, txs[i].request_id, Ret::BadSig).contains(action),
    decreases txs.len(),
{
    broadcast use vstd::seq_lib::group_seq_properties;

    if txs.len() > 0 {
        let rest = txs.drop_last();
        known_bad_has(cache, is_local, rest, action);
        assert forall|i: int| 0 <= i < rest.len() implies rest[i] == #[trigger] txs[i] by {}
        assert(txs[txs.len() - 1] == txs.last());
        if known_bad_refusals(cache, is_local, rest).contains(action) {
            let i = choose|i: int|
                0 <= i < rest.len() && lookup(cache, hash_of(#[trigger] rest[i])) == Some(
                    None::<Seq<u8>>,
                ) && refusal(is_local, rest[i].request_id, Ret::BadSig).contains(action);
            assert(txs[i] == rest[i]);
        }
    }
}

/// Which actions are among the refusals of transactions without a signer.
proof fn unsigned_has(is_local: bool, pendings: Seq<PendingTxView>, action: ActionView)
    ensures
        unsigned_refusals(is_local, pendings).contains(action) <==> exists|i: int|
            0 <= i < pendings.len() && (#[trigger] pendings[i]).signer is None && refusal(
                is_local,
                pendings[i].tx.request_id,
                Ret::BadSig,
            ).contains(action),
    decreases pendings.len(),
{
    broadcast use vstd::seq_lib::group_seq_properties;

    if pendings.len() > 0 {
        let rest = pendings.drop_last();
        unsigned_has(is_local, rest, action);
        assert(pendings[pendings.len() - 1] == pendings.last());
        if unsigned_refusals(is_local, rest).contains(action) {
            let i = choose|i: int|
                0 <= i < rest.len() && (#[trigger] rest[i]).signer is None && refusal(
                    is_local,
                    rest[i].tx.request_id,
                    Ret::BadSig,
                ).contains(action);
            assert(pendings[i] == rest[i]);
        }
        assert forall|i: int| 0 <= i < rest.len() implies rest[i] == #[trigger] pendings[i] by {}
    }
}

/// Which actions are among what becomes of transactions with a signer.
proof fn admissions_have(
    state: HandlerView,
    is_local: bool,
    pendings: Seq<PendingTxView>,
    action: ActionView,
)
    ensures
        state.admissions(is_local, pendings).contains(action) <==> exists|i: int|
            0 <= i < pendings.len() && (#[trigger] pendings[i]).signer is Some && state.admission(
                is_local,
                pendings[i].tx,
                pendings[i].signer->0,
            ).contains(action),
    decreases pendings.len(),
{
    broadcast use vstd::seq_lib::group_seq_properties;

    if pendings.len() > 0 {
        let rest = pendings.drop_last();
        admissions_have(state, is_local, rest, action);
        assert(pendings[pendings.len() - 1] == pendings.last());
        if state.admissions(is_local, rest).contains(action) {
            let i = choose|i: int|
                0 <= i < rest.len() && (#[trigger] rest[i]).signer is Some && state.admission(
                    is_local,
                    rest[i].tx,
                    rest[i].signer->0,
                ).contains(action);
            assert(pendings[i] == rest[i]);
        }
        assert forall|i: int| 0 <= i < rest.len() implies rest[i] == #[trigger] pendings[i] by {}
    }
}

/// A transaction of a batch that is neither remembered as bad nor replaced by a later one is dealt
/// with.
proof fn candidates_have(cache: Seq<Entry>, txs: Seq<NewTxRequestView>, n: nat, i: int)
    requires
        0 <= i < n <= txs.len(),
        lookup(cache, hash_of(txs[i])) != Some(None::<Seq<u8>>),
        is_latest(txs, i),
    ensures
        candidates(cache, txs, n).contains(txs[i]),
    decreases n,
{
    let before = candidates(cache, txs, (n - 1) as nat);
    let after = candidates(cache, txs, n);
    if i < n - 1 {
        candidates_have(cache, txs, (n - 1) as nat, i);
        let k = choose|k: int| 0 <= k < before.len() && before[k] == txs[i];
        assert(after[k] == txs[i]);
    } else {
        assert(after[after.len() - 1] == txs[i]);
    }
}

/// The transactions of a batch once their signatures were checked.
spec fn checked_pendings(state: HandlerView, txs: Seq<NewTxRequestView>) -> Seq<PendingTxView> {
    let pendings = batch_pendings(state.cache, txs);
    all_resolved(pendings, findings(pendings))
}

/// Each transaction of a batch that is dealt with has its known signer.
proof fn checked_pendings_are(state: HandlerView, txs: Seq<NewTxRequestView>)
    ensures
        checked_pendings(state, txs).len() == candidates(state.cache, txs, txs.len()).len(),
        forall|k: int|
            0 <= k < checked_pendings(state, txs).len() ==> {
                let tx = candidates(state.cache, txs, txs.len())[k];
                #[trigger] checked_pendings(state, txs)[k] == (PendingTxView {
                    tx,
                    signer: known_signer(state, tx),
                })
            },
        forall|k: int|
            0 <= k < checked_pendings(state, txs).len() ==> exists|i: int|
                0 <= i < txs.len() && #[trigger] txs[i] == (#[trigger] checked_pendings(
                    state,
                    txs,
                )[k]).tx,
{
    let known = checked_pendings(state, txs);
    let picked = candidates(state.cache, txs, txs.len());
    assert forall|k: int| 0 <= k < known.len() implies #[trigger] known[k] == (PendingTxView {
        tx: picked[k],
        signer: known_signer(state, picked[k]),
    }) by {
        batch_signers_are_own(state.cache, txs, k);
    }
    candidates_are_distinct(state.cache, txs, txs.len());
    assert forall|k: int| 0 <= k < known.len() implies exists|i: int|
        0 <= i < txs.len() && #[trigger] txs[i] == (#[trigger] known[k]).tx by {
        assert(known[k].tx == picked[k]);
    }
}

/// Only checked transactions reach the pool: the node was ready and had room, the transaction is one
/// that was asked for, it is handed over as signed by its known signer, and it passed every check.
pub proof fn only_checked_txs_are_pooled(
    state: HandlerView,
    is_local: bool,
    request: RequestView,
    pool_len: nat,
    action: ActionView,
)
    requires
        state.request_step(is_local, request, pool_len).actions.contains(action),
        action is AddToPool,
    ensures
        state.is_ready(),
        !state.is_flow_control(txs_of(request).len(), pool_len),
        ({
            let tx = action->AddToPool_request;
            let signer = known_signer(state, tx);
            &&& txs_of(request).contains(tx)
            &&& signer is Some
            &&& action == pool_action(tx, signer->0)
            &&& state.admission_ret(tx, address_of(signer->0)) == Ret::OK
        }),
{
    broadcast use vstd::seq_lib::group_seq_properties;

    match request {
        RequestView::Batch(txs) => {
            if !state.is_ready() {
                not_ready_refuses_all(state, is_local, request, pool_len);
            } else if state.is_flow_control(txs.len(), pool_len) {
                full_pool_refuses_all(state, is_local, request, pool_len);
            } else {
                let known = checked_pendings(state, txs);
                checked_pendings_are(state, txs);
                known_bad_has(state.cache, is_local, txs, action);
                unsigned_has(is_local, known, action);
                admissions_have(state, is_local, known, action);
                let k = choose|k: int|
                    0 <= k < known.len() && (#[trigger] known[k]).signer is Some && state.admission(
                        is_local,
                        known[k].tx,
                        known[k].signer->0,
                    ).contains(action);
                assert(action == pool_action(known[k].tx, known[k].signer->0));
                let i = choose|i: int| 0 <= i < txs.len() && txs[i] == known[k].tx;
                assert(txs.contains(txs[i]));
            }
        },
        RequestView::UnTx(tx) => {
            assert(seq![tx][0] == tx);
            assert(seq![tx].contains(tx));
        },
        RequestView::Other => {},
    }
}

/// Good transactions reach the pool: where the node is ready and has room, a transaction whose
/// signer is known and that passes every check is handed to the pool, unless a later one of the
/// batch has its hash.
pub proof fn good_txs_are_pooled(
    state: HandlerView,
    is_local: bool,
    request: RequestView,
    pool_len: nat,
    i: int,
)
    requires
        state.is_ready(),
        !state.is_flow_control(txs_of(request).len(), pool_len),
        0 <= i < txs_of(request).len(),
        is_latest(txs_of(request), i),
        known_signer(state, txs_of(request)[i]) is Some,
        state.admission_ret(
            txs_of(request)[i],
            address_of(known_signer(state, txs_of(request)[i])->0),
        ) == Ret::OK,
    ensures
        state.request_step(is_local, request, pool_len).actions.contains(
            pool_action(txs_of(request)[i], known_signer(state, txs_of(request)[i])->0),
        ),
{
    broadcast use vstd::seq_lib::group_seq_properties;

    let tx = txs_of(request)[i];
    let signer = known_signer(state, tx)->0;
    let action = pool_action(tx, signer);
    let admitted = state.admission(is_local, tx, signer);
    assert(admitted[0] == action);
    match request {
        RequestView::Batch(txs) => {
            let known = checked_pendings(state, txs);
            let picked = candidates(state.cache, txs, txs.len());
            checked_pendings_are(state, txs);
            candidates_have(state.cache, txs, txs.len(), i);
            let k = choose|k: int| 0 <= k < picked.len() && picked[k] == tx;
            assert(known[k].signer is Some);
            admissions_have(state, is_local, known, action);
        },
        RequestView::UnTx(_) => {},
        RequestView::Other => {},
    }
}

/// No other node is ever answered, but for one thing: a single transaction whose signature is
/// remembered as bad.
pub proof fn other_nodes_are_not_answered(
    state: HandlerView,
    request: RequestView,
    pool_len: nat,
    action: ActionView,
)
    requires
        state.request_step(false, request, pool_len).actions.contains(action),
    ensures
        action is AddToPool || (request matches RequestView::UnTx(tx) && lookup(
            state.cache,
            hash_of(tx),
        ) == Some(None::<Seq<u8>>) && action == tx_failed(tx.request_id, Ret::BadSig)),
{
    broadcast use vstd::seq_lib::group_seq_properties;

    match request {
        RequestView::Batch(txs) => {
            if !state.is_ready() {
                not_ready_refuses_all(state, false, request, pool_len);
            } else if state.is_flow_control(txs.len(), pool_len) {
                full_pool_refuses_all(state, false, request, pool_len);
            } else {
                let known = checked_pendings(state, txs);
                known_bad_has(state.cache, false, txs, action);
                unsigned_has(false, known, action);
                admissions_have(state, false, known, action);
            }
        },
        RequestView::UnTx(tx) => {},
        RequestView::Other => {},
    }
}

/// A single transaction whose signature is remembered as bad is refused as such by a node that looks
/// into it, whoever asked.
pub proof fn remembered_bad_signature_is_always_answered(
    state: HandlerView,
    is_local: bool,
    tx: NewTxRequestView,
    pool_len: nat,
)
    requires
        state.is_ready(),
        !state.is_flow_control(1, pool_len),
        lookup(state.cache, tx.un_tx.verify_req.tx_hash) == Some(None::<Seq<u8>>),
    ensures
        state.request_step(is_local, RequestView::UnTx(tx), pool_len).actions == seq![
            ActionView::Publish {
                key: RoutingKey { sub_module: SubModules::Auth, msg_type: MsgType::Response },
                message: OutMessageView::Response(
                    ResponseView {
                        request_id: tx.request_id,
                        content: ResponseContentView::TxError { error_msg: "BadSig"@ },
                    },
                ),
            },
        ],
        state.request_step(is_local, RequestView::UnTx(tx), pool_len).after == state,
{
}

/// Every transaction of a client of this node is answered according to its outcome: it is refused, or
/// handed to the pool; unless, in a batch, a later one has its hash.
pub proof fn every_client_is_answered(
    state: HandlerView,
    request: RequestView,
    pool_len: nat,
    i: int,
)
    requires
        0 <= i < txs_of(request).len(),
        is_latest(txs_of(request), i),
    ensures
        state.request_step(true, request, pool_len).actions.contains(
            answer_to_client(state, request, pool_len, txs_of(request)[i]),
        ),
{
    broadcast use vstd::seq_lib::group_seq_properties;

    let tx = txs_of(request)[i];
    let step = state.request_step(true, request, pool_len);
    let signer = known_signer(state, tx);
    let ret = tx_outcome(state, request, pool_len, tx);
    let action = answer_to_client(state, request, pool_len, tx);
    if !state.is_ready() {
        not_ready_refuses_all(state, true, request, pool_len);
        assert(step.actions[i] == action);
    } else if state.is_flow_control(txs_of(request).len(), pool_len) {
        full_pool_refuses_all(state, true, request, pool_len);
        assert(step.actions[i] == action);
    } else if ret == Ret::OK {
        good_txs_are_pooled(state, true, request, pool_len, i);
    } else {
        assert(refusal(true, tx.request_id, ret)[0] == action);
        assert(refusal(true, tx.request_id, ret).contains(action));
        match request {
            RequestView::Batch(txs) => {
                let known = checked_pendings(state, txs);
                let picked = candidates(state.cache, txs, txs.len());
                known_bad_has(state.cache, true, txs, action);
                if lookup(state.cache, hash_of(tx)) == Some(None::<Seq<u8>>) {
                    assert(lookup(state.cache, hash_of(txs[i])) == Some(None::<Seq<u8>>));
                } else {
                    checked_pendings_are(state, txs);
                    candidates_have(state.cache, txs, txs.len(), i);
                    let k = choose|k: int| 0 <= k < picked.len() && picked[k] == tx;
                    assert(known[k].tx == tx && known[k].signer == signer);
                    unsigned_has(true, known, action);
                    admissions_have(state, true, known, action);
                }
            },
            RequestView::UnTx(_) => {},
            RequestView::Other => {},
        }
    }
}

/// A batch of one transaction is dealt with as a request for that one, but that another node whose
/// transaction has a signature that is remembered as bad is answered only in the second case.
pub proof fn batch_of_one_is_a_single_request(
    state: HandlerView,
    is_local: bool,
    tx: NewTxRequestView,
    pool_len: nat,
)
    requires
        is_local || lookup(state.cache, hash_of(tx)) != Some(None::<Seq<u8>>),
    ensures
        state.batch_step(is_local, seq![tx], pool_len) == state.single_step(is_local, tx, pool_len),
{
    let txs = seq![tx];
    let cache = state.cache;
    assert(txs.drop_last() =~= Seq::empty());
    assert(txs.last() == tx);
    refusals_of_one(is_local, tx, Ret::NotReady);
    refusals_of_one(is_local, tx, Ret::Busy);
    assert(is_latest(txs, 0));
    reveal_with_fuel(candidates, 2);
    reveal_with_fuel(known_bad_refusals, 2);
    let pendings = batch_pendings(cache, txs);
    if lookup(cache, hash_of(tx)) == Some(None::<Seq<u8>>) {
        assert(candidates(cache, txs, 1) =~= Seq::empty());
        assert(pendings =~= Seq::empty());
        let known = all_resolved(pendings, findings(pendings));
        assert(known =~= Seq::empty());
        assert(state.remember_all(findings(pendings)) == state);
    } else {
        assert(candidates(cache, txs, 1) =~= seq![tx]);
        let one = pending(cache, tx);
        assert(pendings =~= seq![one]);
        assert(pendings.drop_last() =~= Seq::empty());
        batch_signers_are_own(cache, txs, 0);
        let found = findings(pendings);
        let known = all_resolved(pendings, found);
        assert(known.len() == 1);
        assert(known.drop_last() =~= Seq::empty());
        assert(findings(pendings.drop_last()) =~= Seq::empty());
        assert(unsigned_refusals(is_local, known.drop_last()) =~= Seq::empty());
        assert(state.admissions(is_local, known.drop_last()) =~= Seq::empty());
        assert(known_bad_refusals(cache, is_local, txs) =~= Seq::empty());
        if lookup(cache, hash_of(tx)) is None {
            assert(found =~= seq![(hash_of(tx), signer_of(tx.un_tx.verify_req))]);
            assert(found.drop_last() =~= Seq::empty());
            assert(put_all(cache, state.cache_capacity, found.drop_last())
                == cache);
        } else {
            assert(found =~= Seq::empty());
        }
    }
    let batch = state.batch_step(is_local, txs, pool_len);
    let single = state.single_step(is_local, tx, pool_len);
    assert(batch.actions =~= single.actions);
    assert(batch.after =~= single.after);
}

/// Refusing one transaction.
proof fn refusals_of_one(is_local: bool, tx: NewTxRequestView, ret: Ret)
    ensures
        refusals(is_local, seq![tx], ret) == refusal(is_local, tx.request_id, ret),
{
    refusals_are_one_each(is_local, seq![tx], ret);
    assert(refusals(is_local, seq![tx], ret) =~= refusal(is_local, tx.request_id, ret));
}

/// How many actions the parts of a batch bring: of each transaction at most one, and exactly one
/// where a client of this node asked and no two transactions share a hash.
proof fn batch_parts_count(state: HandlerView, is_local: bool, txs: Seq<NewTxRequestView>, n: nat)
    requires
        n <= txs.len(),
    ensures
        known_bad_refusals(state.cache, is_local, txs.take(n as int)).len() + candidates(
            state.cache,
            txs,
            n,
        ).len() <= n,
        is_local && hashes_differ(txs) ==> known_bad_refusals(
            state.cache,
            is_local,
            txs.take(n as int),
        ).len() + candidates(state.cache, txs, n).len() == n,
    decreases n,
{
    if n > 0 {
        batch_parts_count(state, is_local, txs, (n - 1) as nat);
        assert(txs.take(n as int).drop_last() =~= txs.take(n - 1));
    }
}

/// How many actions the checked transactions of a batch bring.
proof fn pending_parts_count(state: HandlerView, is_local: bool, pendings: Seq<PendingTxView>)
    ensures
        unsigned_refusals(is_local, pendings).len() + state.admissions(is_local, pendings).len()
            <= pendings.len(),
        is_local ==> unsigned_refusals(is_local, pendings).len() + state.admissions(
            is_local,
            pendings,
        ).len() == pendings.len(),
    decreases pendings.len(),
{
    if pendings.len() > 0 {
        pending_parts_count(state, is_local, pendings.drop_last());
    }
}

/// A request brings at most one action for each transaction; exactly one where a client of this node
/// asked and no two transactions share a hash.
pub proof fn one_action_for_each_tx(
    state: HandlerView,
    is_local: bool,
    request: RequestView,
    pool_len: nat,
)
    ensures
        state.request_step(is_local, request, pool_len).actions.len() <= txs_of(request).len(),
        is_local && hashes_differ(txs_of(request)) ==> state.request_step(
            is_local,
            request,
            pool_len,
        ).actions.len() == txs_of(request).len(),
{
    match request {
        RequestView::Batch(txs) => {
            refusals_are_one_each(is_local, txs, Ret::NotReady);
            refusals_are_one_each(is_local, txs, Ret::Busy);
            batch_parts_count(state, is_local, txs, txs.len());
            assert(txs.take(txs.len() as int) =~= txs);
            pending_parts_count(state, is_local, checked_pendings(state, txs));
        },
        RequestView::UnTx(_) => {},
        RequestView::Other => {},
    }
}

/// The pool never outgrows its limit: where anything is handed to the pool, what it holds and all
/// that is handed over stay within the limit together.
pub proof fn pool_stays_within_its_limit(
    state: HandlerView,
    is_local: bool,
    request: RequestView,
    pool_len: nat,
    action: ActionView,
)
    requires
        state.request_step(is_local, request, pool_len).actions.contains(action),
        action is AddToPool,
        state.tx_pool_limit != 0,
    ensures
        pool_len + state.request_step(is_local, request, pool_len).actions.len()
            <= state.tx_pool_limit,
{
    only_checked_txs_are_pooled(state, is_local, request, pool_len, action);
    one_action_for_each_tx(state, is_local, request, pool_len);
}

/// A request is passed on to the other nodes exactly if the pool has newly taken up its transaction,
/// and a client of this node is told which it was.
pub proof fn forwarded_iff_newly_added(is_local: bool, request: NewTxRequestView, added: bool)
    ensures
        pooled(is_local, request, added).contains(ActionView::ForwardRequest { request }) <==> added,
        is_local ==> pooled(is_local, request, added).first() == tx_succeeded(
            request.request_id,
            if added {
                Ret::OK
            } else {
                Ret::Dup
            },
            hash_of(request),
        ),
        !is_local && !added ==> pooled(is_local, request, added) == Seq::<ActionView>::empty(),
{
    let actions = pooled(is_local, request, added);
    if added {
        assert(actions[actions.len() - 1] == (ActionView::ForwardRequest { request }));
    }
}

/// Asking again for one transaction brings the same actions, unless the signature was first found
/// bad in a request of another node: the second time it is remembered as bad, and answered.
pub proof fn asking_again_brings_the_same(
    state: HandlerView,
    is_local: bool,
    tx: NewTxRequestView,
    pool_len: nat,
)
    requires
        is_local || known_signer(state, tx) is Some,
    ensures
        state.single_step(is_local, tx, pool_len).after.single_step(is_local, tx, pool_len).actions
            == state.single_step(is_local, tx, pool_len).actions,
{
    if lookup(state.cache, hash_of(tx)) is None && state.cache_capacity > 0 {
        put_is_found(
            state.cache,
            state.cache_capacity,
            hash_of(tx),
            signer_of(tx.un_tx.verify_req),
        );
    }
}

/// A signature is checked once: after a request for one transaction of which nothing was remembered,
/// what its signature gave is remembered, where there is room to remember anything.
pub proof fn signature_is_remembered(
    state: HandlerView,
    is_local: bool,
    tx: NewTxRequestView,
    pool_len: nat,
)
    requires
        state.is_ready(),
        !state.is_flow_control(1, pool_len),
        lookup(state.cache, hash_of(tx)) is None,
        state.cache_capacity > 0,
    ensures
        lookup(state.single_step(is_local, tx, pool_len).after.cache, hash_of(tx)) == Some(
            signer_of(tx.un_tx.verify_req),
        ),
{
    put_is_found(
        state.cache,
        state.cache_capacity,
        hash_of(tx),
        signer_of(tx.un_tx.verify_req),
    );
}

/// An account that is forbidden gets no transaction into the pool.
pub proof fn forbidden_accounts_are_kept_out(
    state: HandlerView,
    is_local: bool,
    request: RequestView,
    pool_len: nat,
    action: ActionView,
)
    requires
        state.request_step(is_local, request, pool_len).actions.contains(action),
        action is AddToPool,
    ensures
        state.black_list_ret(address_of(action->AddToPool_signed_tx.signer)) == Ret::OK,
{
    only_checked_txs_are_pooled(state, is_local, request, pool_len, action);
}

/// Each transaction of a client is answered for what it is: where nothing stands against it, it is
/// handed to the pool with the signer that is remembered for its hash or that its signature gives;
/// otherwise the client is told the first thing that does. In a batch this is so of a transaction
/// whose hash no later one has.
pub proof fn clients_are_told_why(
    state: HandlerView,
    request: RequestView,
    pool_len: nat,
    i: int,
)
    requires
        0 <= i < txs_of(request).len(),
        forall|j: int|
            i < j < txs_of(request).len() ==> (#[trigger] txs_of(
                request,
            )[j]).un_tx.verify_req.tx_hash != txs_of(request)[i].un_tx.verify_req.tx_hash,
    ensures
        ({
            let tx = txs_of(request)[i];
            let tx_hash = tx.un_tx.verify_req.tx_hash;
            let signer = match lookup(state.cache, tx_hash) {
                Some(signer) => signer,
                None => signer_of(tx.un_tx.verify_req),
            };
            let is_ready = state.chain_id is Some && state.history.is_init && !state.is_snapshot;
            let is_full = state.tx_pool_limit != 0 && txs_of(request).len() + pool_len
                > state.tx_pool_limit;
            let ret = if !is_ready {
                Ret::NotReady
            } else if is_full {
                Ret::Busy
            } else if signer is None {
                Ret::BadSig
            } else {
                state.admission_ret(tx, address_of(signer->0))
            };
            state.request_step(true, request, pool_len).actions.contains(
                if ret == Ret::OK {
                    ActionView::AddToPool {
                        signed_tx: SignedTransactionView {
                            transaction_with_sig: tx.un_tx,
                            signer: signer->0,
                            tx_hash,
                        },
                        request: tx,
                    }
                } else {
                    ActionView::Publish {
                        key: RoutingKey {
                            sub_module: SubModules::Auth,
                            msg_type: MsgType::Response,
                        },
                        message: OutMessageView::Response(
                            ResponseView {
                                request_id: tx.request_id,
                                content: ResponseContentView::TxError { error_msg: ret.text() },
                            },
                        ),
                    }
                },
            )
        }),
{
    assert(is_latest(txs_of(request), i)) by {
        let txs = txs_of(request);
        assert forall|j: int| i < j < txs.len() implies hash_of(#[trigger] txs[j]) != hash_of(
            txs[i],
        ) by {}
    }
    every_client_is_answered(state, request, pool_len, i);
}

/// What clients are told, by name.
pub proof fn outcomes_have_their_names(ret: Ret)
    ensures
        ret.text() == (match ret {
            Ret::OK => "OK"@,
            Ret::BadSig => "BadSig"@,
            Ret::NotReady => "NotReady"@,
            Ret::Busy => "Busy"@,
            Ret::BadChainId => "BadChainId"@,
            Ret::InvalidNonce => "InvalidNonce"@,
            Ret::InvalidValue => "InvalidValue"@,
            Ret::InvalidUntilBlock => "InvalidUntilBlock"@,
            Ret::Dup => "Dup"@,
            Ret::QuotaNotEnough => "QuotaNotEnough"@,
            Ret::Forbidden => "Forbidden"@,
        }),
{
}

/// A client is answered about its own transactions only: everything that follows its request is the
/// answer to one of them.
pub proof fn clients_are_answered_about_their_own(
    state: HandlerView,
    request: RequestView,
    pool_len: nat,
    action: ActionView,
)
    requires
        state.request_step(true, request, pool_len).actions.contains(action),
    ensures
        exists|i: int|
            0 <= i < txs_of(request).len() && action == answer_to_client(
                state,
                request,
                pool_len,
                #[trigger] txs_of(request)[i],
            ),
{
    broadcast use vstd::seq_lib::group_seq_properties;

    let actions = state.request_step(true, request, pool_len).actions;
    match request {
        RequestView::Batch(txs) => {
            let at = choose|at: int| 0 <= at < actions.len() && actions[at] == action;
            if !state.is_ready() {
                not_ready_refuses_all(state, true, request, pool_len);
                assert(action == answer_to_client(state, request, pool_len, txs[at]));
            } else if state.is_flow_control(txs.len(), pool_len) {
                full_pool_refuses_all(state, true, request, pool_len);
                assert(action == answer_to_client(state, request, pool_len, txs[at]));
            } else {
                let known = checked_pendings(state, txs);
                checked_pendings_are(state, txs);
                known_bad_has(state.cache, true, txs, action);
                unsigned_has(true, known, action);
                admissions_have(state, true, known, action);
                if known_bad_refusals(state.cache, true, txs).contains(action) {
                    let i = choose|i: int|
                        0 <= i < txs.len() && lookup(state.cache, hash_of(#[trigger] txs[i]))
                            == Some(None::<Seq<u8>>) && refusal(
                            true,
                            txs[i].request_id,
                            Ret::BadSig,
                        ).contains(action);
                    assert(action == answer_to_client(state, request, pool_len, txs[i]));
                } else if unsigned_refusals(true, known).contains(action) {
                    let k = choose|k: int|
                        0 <= k < known.len() && (#[trigger] known[k]).signer is None && refusal(
                            true,
                            known[k].tx.request_id,
                            Ret::BadSig,
                        ).contains(action);
                    let i = choose|i: int| 0 <= i < txs.len() && txs[i] == known[k].tx;
                    assert(action == answer_to_client(state, request, pool_len, txs[i]));
                } else {
                    let k = choose|k: int|
                        0 <= k < known.len() && (#[trigger] known[k]).signer is Some
                            && state.admission(
                            true,
                            known[k].tx,
                            known[k].signer->0,
                        ).contains(action);
                    let i = choose|i: int| 0 <= i < txs.len() && txs[i] == known[k].tx;
                    assert(action == answer_to_client(state, request, pool_len, txs[i]));
                }
            }
        },
        RequestView::UnTx(tx) => {
            assert(txs_of(request)[0] == tx);
            assert(action == answer_to_client(state, request, pool_len, txs_of(request)[0]));
        },
        RequestView::Other => {},
    }
}

/// What follows once the pool was asked: a client of this node is told that its transaction was taken
/// up, or that the pool has it already, under the id of its request and by the hash of the
/// transaction; and exactly a transaction that was taken up is passed on to the other nodes, as it
/// came.
pub proof fn pool_result_is_told_and_passed_on(
    is_local: bool,
    request: NewTxRequestView,
    added: bool,
)
    ensures
        ({
            let actions = pooled(is_local, request, added);
            let told = ActionView::Publish {
                key: RoutingKey { sub_module: SubModules::Auth, msg_type: MsgType::Response },
                message: OutMessageView::Response(
                    ResponseView {
                        request_id: request.request_id,
                        content: ResponseContentView::TxState {
                            tx_hash: request.un_tx.verify_req.tx_hash,
                            status: if added {
                                "OK"@
                            } else {
                                "Dup"@
                            },
                        },
                    },
                ),
            };
            let passed_on = ActionView::ForwardRequest { request };
            &&& is_local && added ==> actions == seq![told, passed_on]
            &&& is_local && !added ==> actions == seq![told]
            &&& !is_local && added ==> actions == seq![passed_on]
            &&& !is_local && !added ==> actions.len() == 0
        }),
{
    let actions = pooled(is_local, request, added);
    let passed_on = ActionView::ForwardRequest { request };
    if is_local {
        if added {
            assert(actions =~= seq![actions[0], passed_on]);
        } else {
            assert(actions =~= seq![actions[0]]);
        }
    } else if added {
        assert(actions =~= seq![passed_on]);
    }
}

/// A request changes nothing but what is remembered of signatures, and not even that where it is not
/// looked into. What is remembered of a transaction that was dealt with is its signer, or that it has
/// none, and what is remembered of any other hash is as before; where there is room to remember all.
pub proof fn requests_only_remember_signatures(
    state: HandlerView,
    is_local: bool,
    request: RequestView,
    pool_len: nat,
    hash: Seq<u8>,
)
    ensures
        ({
            let after = state.request_step(is_local, request, pool_len).after;
            let txs = txs_of(request);
            let looks = state.chain_id is Some && state.history.is_init && !state.is_snapshot && (
            state.tx_pool_limit == 0 || txs.len() + pool_len <= state.tx_pool_limit);
            &&& after == (HandlerView { cache: after.cache, ..state })
            &&& !looks ==> after == state
            &&& looks && state.cache.len() + txs.len() <= state.cache_capacity ==> {
                &&& forall|i: int|
                    0 <= i < txs.len() && (#[trigger] txs[i]).un_tx.verify_req.tx_hash == hash && (
                    forall|j: int|
                        i < j < txs.len() ==> (#[trigger] txs[j]).un_tx.verify_req.tx_hash
                            != txs[i].un_tx.verify_req.tx_hash) ==> lookup(after.cache, hash)
                        == Some(
                        match lookup(state.cache, hash) {
                            Some(signer) => signer,
                            None => signer_of(txs[i].un_tx.verify_req),
                        },
                    )
                &&& (forall|i: int|
                    0 <= i < txs.len() ==> (#[trigger] txs[i]).un_tx.verify_req.tx_hash != hash)
                    ==> lookup(after.cache, hash) == lookup(state.cache, hash)
            }
        }),
{
    let after = state.request_step(is_local, request, pool_len).after;
    let txs = txs_of(request);
    match request {
        RequestView::Batch(txs) => {
            let picked = candidates(state.cache, txs, txs.len());
            let pendings = batch_pendings(state.cache, txs);
            let found = findings(pendings);
            candidates_are_distinct(state.cache, txs, txs.len());
            findings_are_few(pendings);
            batch_parts_count(state, is_local, txs, txs.len());
            if state.is_ready() && !state.is_flow_control(txs.len(), pool_len) && state.cache.len()
                + txs.len() <= state.cache_capacity {
                put_all_with_room(state.cache, state.cache_capacity, found, hash);
                assert forall|i: int|
                    0 <= i < txs.len() && (#[trigger] txs[i]).un_tx.verify_req.tx_hash == hash && (
                    forall|j: int|
                        i < j < txs.len() ==> (#[trigger] txs[j]).un_tx.verify_req.tx_hash
                            != txs[i].un_tx.verify_req.tx_hash) implies lookup(after.cache, hash)
                    == Some(
                    match lookup(state.cache, hash) {
                        Some(signer) => signer,
                        None => signer_of(txs[i].un_tx.verify_req),
                    },
                ) by {
                    assert forall|j: int| i < j < txs.len() implies hash_of(#[trigger] txs[j])
                        != hash_of(txs[i]) by {}
                    assert(is_latest(txs, i));
                    if lookup(state.cache, hash) == Some(None::<Seq<u8>>) {
                        nothing_is_found_for_known_hashes(state.cache, txs, hash);
                    } else {
                        candidates_have(state.cache, txs, txs.len(), i);
                        let k = choose|k: int| 0 <= k < picked.len() && picked[k] == txs[i];
                        assert(pendings[k].tx == txs[i]);
                        pendings_have_different_hashes(state.cache, txs);
                        findings_of_tx(pendings, k);
                    }
                }
                if forall|i: int|
                    0 <= i < txs.len() ==> (#[trigger] txs[i]).un_tx.verify_req.tx_hash != hash {
                    assert forall|k: int| 0 <= k < pendings.len() implies hash_of(
                        (#[trigger] pendings[k]).tx,
                    ) != hash by {
                        assert(pendings[k].tx == picked[k]);
                        let i = choose|i: int|
                            0 <= i < txs.len() && is_latest(txs, i) && #[trigger] txs[i]
                                == picked[k];
                        assert(txs[i].un_tx.verify_req.tx_hash != hash);
                    }
                    findings_are_of_txs(pendings, hash);
                }
            }
        },
        RequestView::UnTx(tx) => {
            assert(txs[0] == tx);
            if state.is_ready() && !state.is_flow_control(1, pool_len) && lookup(
                state.cache,
                hash_of(tx),
            ) is None {
                let entry = (hash_of(tx), signer_of(tx.un_tx.verify_req));
                let one = seq![entry];
                assert(one.drop_last() =~= Seq::empty());
                if state.cache.len() + 1 <= state.cache_capacity {
                    put_all_with_room(state.cache, state.cache_capacity, one, hash);
                    reveal_with_fuel(put_all, 2);
                    reveal_with_fuel(lookup, 2);
                    assert(one.last() == entry);
                }
            }
        },
        RequestView::Other => {},
    }
}

/// No more is found than transactions are checked.
proof fn findings_are_few(pendings: Seq<PendingTxView>)
    ensures
        findings(pendings).len() <= pendings.len(),
    decreases pendings.len(),
{
    if pendings.len() > 0 {
        findings_are_few(pendings.drop_last());
    }
}

/// Nothing is found for a hash under which a bad signature is remembered.
proof fn nothing_is_found_for_known_hashes(
    cache: Seq<Entry>,
    txs: Seq<NewTxRequestView>,
    hash: Seq<u8>,
)
    requires
        lookup(cache, hash) == Some(None::<Seq<u8>>),
    ensures
        lookup(findings(batch_pendings(cache, txs)), hash) is None,
{
    let pendings = batch_pendings(cache, txs);
    let picked = candidates(cache, txs, txs.len());
    candidates_are_distinct(cache, txs, txs.len());
    assert forall|k: int| 0 <= k < pendings.len() implies hash_of((#[trigger] pendings[k]).tx)
        != hash by {
        assert(pendings[k].tx == picked[k]);
        let i = choose|i: int|
            0 <= i < txs.len() && is_latest(txs, i) && #[trigger] txs[i] == picked[k] && lookup(
                cache,
                hash_of(txs[i]),
            ) != Some(None::<Seq<u8>>);
        assert(hash_of(txs[i]) != hash);
    }
    findings_are_of_txs(pendings, hash);
}

/// A transaction that was checked is handed to the pool, with its signer, if its outcome is good, and
/// if not, a client of this node is told its outcome and another node is told nothing.
pub proof fn checked_tx_is_settled(
    is_local: bool,
    request: NewTxRequestView,
    signer: Seq<u8>,
    ret: Ret,
)
    ensures
        ({
            let refused = ActionView::Publish {
                key: RoutingKey { sub_module: SubModules::Auth, msg_type: MsgType::Response },
                message: OutMessageView::Response(
                    ResponseView {
                        request_id: request.request_id,
                        content: ResponseContentView::TxError { error_msg: ret.text() },
                    },
                ),
            };
            &&& refusal(is_local, request.request_id, ret) == (if is_local {
                seq![refused]
            } else {
                Seq::empty()
            })
            &&& settled(is_local, request, signer, ret) == (if ret == Ret::OK {
                seq![
                    ActionView::AddToPool {
                        signed_tx: SignedTransactionView {
                            transaction_with_sig: request.un_tx,
                            signer,
                            tx_hash: request.un_tx.verify_req.tx_hash,
                        },
                        request,
                    },
                ]
            } else if is_local {
                seq![refused]
            } else {
                Seq::empty()
            })
        }),
{
}

/// A request that someone signed is settled by the outcome of its checks for the signer's account.
pub proof fn admission_settles_by_outcome(
    state: HandlerView,
    is_local: bool,
    request: NewTxRequestView,
    signer: Seq<u8>,
)
    ensures
        state.admission(is_local, request, signer) == settled(
            is_local,
            request,
            signer,
            state.admission_ret(request, address_of(signer)),
        ),
{
}

/// Once the signature of a single transaction was checked, what it gave is remembered, and nothing
/// else changes; a transaction with a signer is settled for it, and one without is refused as badly
/// signed.
pub proof fn checked_single_is_settled(
    state: HandlerView,
    is_local: bool,
    tx: NewTxRequestView,
    signer: Option<Seq<u8>>,
)
    ensures
        ({
            let step = state.checked_single(is_local, tx, signer);
            &&& step.after == (HandlerView { cache: step.after.cache, ..state })
            &&& step.after.cache == put(
                state.cache,
                state.cache_capacity,
                tx.un_tx.verify_req.tx_hash,
                signer,
            )
            &&& signer matches Some(key) ==> step.actions == settled(
                is_local,
                tx,
                key,
                state.admission_ret(tx, address_of(key)),
            )
            &&& signer is None ==> step.actions == refusal(is_local, tx.request_id, Ret::BadSig)
        }),
{
}

/// Once the signatures of a batch were checked, all results are remembered, and nothing else changes;
/// the signer of each transaction is the one that was found for its hash, or else the one that was
/// known before; each transaction with a signer is settled for it, each one without is refused as
/// badly signed, and nothing else is done.
pub proof fn checked_batch_is_settled(
    state: HandlerView,
    is_local: bool,
    pendings: Seq<PendingTxView>,
    results: Seq<Entry>,
    action: ActionView,
)
    ensures
        ({
            let step = state.checked_batch(is_local, pendings, results);
            let signer = |p: PendingTxView|
                match lookup(results, p.tx.un_tx.verify_req.tx_hash) {
                    Some(found) => found,
                    None => p.signer,
                };
            let answer = |p: PendingTxView|
                match signer(p) {
                    Some(key) => settled(
                        is_local,
                        p.tx,
                        key,
                        state.admission_ret(p.tx, address_of(key)),
                    ),
                    None => refusal(is_local, p.tx.request_id, Ret::BadSig),
                };
            &&& step.after == (HandlerView { cache: step.after.cache, ..state })
            &&& step.after.cache == put_all(state.cache, state.cache_capacity, results)
            &&& step.actions.contains(action) <==> exists|i: int|
                0 <= i < pendings.len() && answer(#[trigger] pendings[i]).contains(action)
            &&& step.actions.len() <= pendings.len()
            &&& is_local ==> step.actions.len() == pendings.len()
        }),
{
    broadcast use vstd::seq_lib::group_seq_properties;

    let known = all_resolved(pendings, results);
    unsigned_has(is_local, known, action);
    admissions_have(state, is_local, known, action);
    pending_parts_count(state, is_local, known);
    let signer = |p: PendingTxView|
        match lookup(results, p.tx.un_tx.verify_req.tx_hash) {
            Some(found) => found,
            None => p.signer,
        };
    let answer = |p: PendingTxView|
        match signer(p) {
            Some(key) => settled(is_local, p.tx, key, state.admission_ret(p.tx, address_of(key))),
            None => refusal(is_local, p.tx.request_id, Ret::BadSig),
        };
    assert forall|i: int| 0 <= i < pendings.len() implies (#[trigger] known[i]).tx
        == pendings[i].tx && known[i].signer == signer(pendings[i]) by {}
    let step = state.checked_batch(is_local, pendings, results);
    if step.actions.contains(action) {
        if unsigned_refusals(is_local, known).contains(action) {
            let i = choose|i: int|
                0 <= i < known.len() && (#[trigger] known[i]).signer is None && refusal(
                    is_local,
                    known[i].tx.request_id,
                    Ret::BadSig,
                ).contains(action);
            assert(answer(pendings[i]).contains(action));
        } else {
            let i = choose|i: int|
                0 <= i < known.len() && (#[trigger] known[i]).signer is Some && state.admission(
                    is_local,
                    known[i].tx,
                    known[i].signer->0,
                ).contains(action);
            assert(answer(pendings[i]).contains(action));
        }
    }
    if exists|i: int| 0 <= i < pendings.len() && answer(#[trigger] pendings[i]).contains(action) {
        let i = choose|i: int|
            0 <= i < pendings.len() && answer(#[trigger] pendings[i]).contains(action);
        assert(known[i].tx == pendings[i].tx);
    }
}

} // verus!
