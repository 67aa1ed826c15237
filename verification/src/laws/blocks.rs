//! What holds of the checks of whole blocks.

use crate::actions::{ActionView, OutMessageView};
use crate::crypto::{address_of, lower_hex};
use crate::messages::{Ret, VerifyBlockReqView, VerifyTxReqView};
use crate::quota::{block_quota_fits, total, total_of};
use crate::routing::{MsgType, SubModules};
use crate::sig_cache::{
    lookup, lookup_after_push, lookup_after_removal, lookup_finds_entry, lookup_in_rest, put,
    put_all, put_is_found, without, Entry,
};
use crate::signature::{checks_gave, confirmed_entry, is_selection, selects, signed_as_claimed};
use crate::state::{
    all_signed_as_claimed, block_verdict, first_unsigned, spendings_of, HandlerView,
};
use vstd::prelude::*;

verus! {

/// Every request names a signer exactly if none is found that does not.
proof fn none_unsigned(reqs: Seq<VerifyTxReqView>)
    ensures
        first_unsigned(reqs) is None <==> forall|i: int|
            0 <= i < reqs.len() ==> (#[trigger] reqs[i]).signer.len() != 0,
    decreases reqs.len(),
{
    if reqs.len() > 0 {
        let rest = reqs.drop_first();
        none_unsigned(rest);
        if first_unsigned(reqs) is None {
            assert forall|i: int| 0 <= i < reqs.len() implies (#[trigger] reqs[i]).signer.len()
                != 0 by {
                if i > 0 {
                    assert(rest[i - 1] == reqs[i]);
                }
            }
        } else if reqs.first().signer.len() != 0 {
            let i = choose|i: int| 0 <= i < rest.len() && (#[trigger] rest[i]).signer.len() == 0;
            assert(reqs[i + 1] == rest[i]);
        }
    }
}

/// No request fails its checks exactly if each passes them.
proof fn none_fails(state: HandlerView, reqs: Seq<VerifyTxReqView>)
    ensures
        state.first_failure(reqs) == Ret::OK <==> forall|i: int|
            0 <= i < reqs.len() ==> state.tx_req_ret(#[trigger] reqs[i]) == Ret::OK,
    decreases reqs.len(),
{
    if reqs.len() > 0 {
        let rest = reqs.drop_first();
        none_fails(state, rest);
        if state.first_failure(reqs) == Ret::OK {
            assert forall|i: int| 0 <= i < reqs.len() implies state.tx_req_ret(#[trigger] reqs[i])
                == Ret::OK by {
                if i > 0 {
                    assert(rest[i - 1] == reqs[i]);
                }
            }
        } else if state.tx_req_ret(reqs.first()) == Ret::OK {
            let i = choose|i: int|
                0 <= i < rest.len() && state.tx_req_ret(#[trigger] rest[i]) != Ret::OK;
            assert(reqs[i + 1] == rest[i]);
        }
    }
}

/// The unknown requests are exactly those of whose signatures nothing is remembered.
pub(crate) proof fn unknown_has(state: HandlerView, reqs: Seq<VerifyTxReqView>, req: VerifyTxReqView)
    ensures
        state.unknown(reqs).contains(req) <==> reqs.contains(req) && lookup(
            state.cache,
            req.tx_hash,
        ) is None,
{
    let open_req = |r: VerifyTxReqView| lookup(state.cache, r.tx_hash) is None;
    if state.unknown(reqs).contains(req) {
        let j = choose|j: int| 0 <= j < state.unknown(reqs).len() && state.unknown(reqs)[j] == req;
        reqs.lemma_filter_pred(open_req, j);
        reqs.lemma_filter_contains_rev(open_req, req);
    }
    if reqs.contains(req) && open_req(req) {
        let i = choose|i: int| 0 <= i < reqs.len() && reqs[i] == req;
        reqs.lemma_filter_contains(open_req, i);
    }
}

/// Why the signature of one transaction of a block is taken to be good: it is remembered as that of
/// the signer that the transaction names, or nothing is remembered and it is that signer's.
pub open spec fn sig_is_good(state: HandlerView, req: VerifyTxReqView) -> bool {
    match lookup(state.cache, req.tx_hash) {
        Some(known) => known == Some(req.signer),
        None => signed_as_claimed(req),
    }
}

/// The signatures of a block are good exactly if each transaction names a signer and its signature
/// is taken to be good.
proof fn sigs_are_good_each(state: HandlerView, reqs: Seq<VerifyTxReqView>)
    ensures
        state.block_sigs_good(reqs) <==> forall|i: int|
            0 <= i < reqs.len() ==> (#[trigger] reqs[i]).signer.len() != 0 && sig_is_good(
                state,
                reqs[i],
            ),
{
    none_unsigned(reqs);
    let unknown = state.unknown(reqs);
    if state.block_sigs_good(reqs) {
        assert forall|i: int| 0 <= i < reqs.len() implies sig_is_good(
            state,
            #[trigger] reqs[i],
        ) by {
            assert(!state.contradicts_tx(reqs[i]));
            if lookup(state.cache, reqs[i].tx_hash) is None {
                unknown_has(state, reqs, reqs[i]);
                let j = choose|j: int| 0 <= j < unknown.len() && unknown[j] == reqs[i];
                assert(signed_as_claimed(unknown[j]));
            }
        }
    } else if forall|i: int| 0 <= i < reqs.len() ==> sig_is_good(state, #[trigger] reqs[i]) {
        assert forall|j: int| 0 <= j < unknown.len() implies signed_as_claimed(
            #[trigger] unknown[j],
        ) by {
            unknown_has(state, reqs, unknown[j]);
            let i = choose|i: int| 0 <= i < reqs.len() && reqs[i] == unknown[j];
            assert(sig_is_good(state, reqs[i]));
        }
    }
}

/// A block is found good exactly if every transaction in it names its signer, carries that signer's
/// signature and passes its own checks, the black list among them, and all together stay within the
/// quota.
pub proof fn good_blocks_are_good_throughout(state: HandlerView, reqs: Seq<VerifyTxReqView>)
    ensures
        state.block_ret(reqs) == Ret::OK <==> {
            &&& forall|i: int|
                0 <= i < reqs.len() ==> {
                    &&& (#[trigger] reqs[i]).signer.len() != 0
                    &&& sig_is_good(state, reqs[i])
                    &&& state.tx_req_ret(reqs[i]) == Ret::OK
                }
            &&& state.block_quota_fits(spendings_of(reqs))
        },
{
    sigs_are_good_each(state, reqs);
    none_fails(state, reqs);
}

/// A block that holds a transaction of a recent block is never found good.
pub proof fn block_with_dup_is_refused(state: HandlerView, reqs: Seq<VerifyTxReqView>, i: int)
    requires
        0 <= i < reqs.len(),
        state.is_dup(reqs[i].tx_hash),
    ensures
        state.block_ret(reqs) != Ret::OK,
{
    good_blocks_are_good_throughout(state, reqs);
}

/// A block that holds a transaction of a forbidden account is never found good.
pub proof fn block_of_forbidden_account_is_refused(
    state: HandlerView,
    reqs: Seq<VerifyTxReqView>,
    i: int,
)
    requires
        0 <= i < reqs.len(),
        state.black_list_ret(address_of(reqs[i].signer)) == Ret::Forbidden,
    ensures
        state.block_ret(reqs) != Ret::OK,
{
    good_blocks_are_good_throughout(state, reqs);
}

/// Only a signature that was remembered as bad, or is bad, or is missing, makes a block's answer
/// one of a bad signature.
pub proof fn bad_sig_has_a_cause(state: HandlerView, reqs: Seq<VerifyTxReqView>)
    ensures
        state.block_ret(reqs) == Ret::BadSig <==> exists|i: int|
            0 <= i < reqs.len() && ((#[trigger] reqs[i]).signer.len() == 0 || !sig_is_good(
                state,
                reqs[i],
            )),
{
    sigs_are_good_each(state, reqs);
    failures_are_not_bad_sigs(state, reqs);
}

/// The checks that follow those of the signatures never find a bad signature.
proof fn failures_are_not_bad_sigs(state: HandlerView, reqs: Seq<VerifyTxReqView>)
    ensures
        state.first_failure(reqs) != Ret::BadSig,
    decreases reqs.len(),
{
    if reqs.len() > 0 {
        failures_are_not_bad_sigs(state, reqs.drop_first());
    }
}

/// What is remembered under a hash after an entry was written is the new entry, or what was
/// remembered before, or nothing.
proof fn put_adds_or_forgets(
    entries: Seq<Entry>,
    capacity: nat,
    hash: Seq<u8>,
    value: Option<Seq<u8>>,
    other: Seq<u8>,
)
    ensures
        ({
            let found = lookup(put(entries, capacity, hash, value), other);
            ||| found is None
            ||| found == lookup(entries, other)
            ||| other == hash && found == Some(value)
        }),
{
    lookup_after_removal(entries, hash, other);
    lookup_after_push(
        without(entries, hash),
        (hash, value),
        other,
    );
    lookup_after_push(entries, (hash, value), other);
    if entries.len() > 0 {
        lookup_after_push(entries.drop_first(), (hash, value), other);
        lookup_in_rest(entries, other);
    }
}

/// What is remembered under a hash after several entries were written is one of them, or what was
/// remembered before, or nothing.
proof fn put_all_adds_or_forgets(
    entries: Seq<Entry>,
    capacity: nat,
    news: Seq<Entry>,
    hash: Seq<u8>,
)
    ensures
        ({
            let found = lookup(put_all(entries, capacity, news), hash);
            ||| found is None
            ||| found == lookup(entries, hash)
            ||| exists|i: int| 0 <= i < news.len() && #[trigger] news[i] == (hash, found->0)
        }),
    decreases news.len(),
{
    if news.len() > 0 {
        let before = news.drop_last();
        put_all_adds_or_forgets(entries, capacity, before, hash);
        let mid = put_all(entries, capacity, before);
        put_adds_or_forgets(mid, capacity, news.last().0, news.last().1, hash);
        let found = lookup(put_all(entries, capacity, news), hash);
        if found is Some {
            if found == lookup(mid, hash) {
                if found != lookup(entries, hash) {
                    let i = choose|i: int|
                        0 <= i < before.len() && #[trigger] before[i] == (hash, found->0);
                    assert(news[i] == (hash, found->0));
                }
            } else {
                assert(news[news.len() - 1] == (hash, found->0));
            }
        }
    }
}

/// A block that is asked about again right away is answered as before, if every transaction in it is
/// signed as claimed, no two of them share a hash, and nothing that was remembered spoke against one.
pub proof fn block_is_answered_as_before(
    state: HandlerView,
    reqs: Seq<VerifyTxReqView>,
    after: HandlerView,
)
    requires
        state.block_sigs_good(reqs),
        all_signed_as_claimed(reqs),
        forall|i: int, j: int|
            0 <= i < j < reqs.len() ==> (#[trigger] reqs[i]).tx_hash != (
            #[trigger] reqs[j]).tx_hash,
        state.block_remembered(reqs, after),
    ensures
        after.block_ret(reqs) == state.block_ret(reqs),
{
    let unknown = state.unknown(reqs);
    let news = unknown.map_values(|r: VerifyTxReqView| confirmed_entry(r));
    assert forall|i: int| 0 <= i < reqs.len() implies !after.contradicts_tx(#[trigger] reqs[i]) by {
        let hash = reqs[i].tx_hash;
        assert(!state.contradicts_tx(reqs[i]));
        put_all_adds_or_forgets(state.cache, state.cache_capacity, news, hash);
        let found = lookup(after.cache, hash);
        if found is Some && found != lookup(state.cache, hash) {
            let j = choose|j: int| 0 <= j < news.len() && #[trigger] news[j] == (hash, found->0);
            assert(news[j] == confirmed_entry(unknown[j]));
            unknown_has(state, reqs, unknown[j]);
            let k = choose|k: int| 0 <= k < reqs.len() && reqs[k] == unknown[j];
            assert(reqs[k].tx_hash == reqs[i].tx_hash);
            assert(k == i);
        }
    }
    assert forall|j: int| 0 <= j < after.unknown(reqs).len() implies signed_as_claimed(
        #[trigger] after.unknown(reqs)[j],
    ) by {
        unknown_has(after, reqs, after.unknown(reqs)[j]);
        let i = choose|i: int| 0 <= i < reqs.len() && reqs[i] == after.unknown(reqs)[j];
        assert(signed_as_claimed(reqs[i]));
    }
    verdict_ignores_cache(state, after.cache, reqs);
}

/// What is remembered has no bearing on the verdict over a block whose signatures are good.
pub proof fn verdict_ignores_cache(state: HandlerView, cache: Seq<Entry>, reqs: Seq<VerifyTxReqView>)
    ensures
        state.with_cache(cache).first_failure(reqs) == state.first_failure(reqs),
        state.with_cache(cache).signed_block_ret(reqs) == state.signed_block_ret(reqs),
    decreases reqs.len(),
{
    if reqs.len() > 0 {
        verdict_ignores_cache(state, cache, reqs.drop_first());
        assert(state.with_cache(cache).tx_req_ret(reqs.first()) == state.tx_req_ret(reqs.first()));
    }
}

/// Of the request that was kept, the new one and the lowest id of the next block, the highest
/// decides: a request is kept only if its id is the highest, and none is kept only if the next
/// block's is.
pub proof fn highest_block_request_is_kept(state: HandlerView, req: VerifyBlockReqView)
    ensures
        match state.kept_block_req(req) {
            Some(kept) => {
                &&& kept == req || Some(kept) == state.cache_block_req
                &&& kept.id >= req.id
                &&& kept.id >= state.next_request_id()
                &&& state.cache_block_req matches Some(old) ==> kept.id >= old.id
            },
            None => {
                &&& state.next_request_id() >= req.id
                &&& state.cache_block_req matches Some(old) ==> state.next_request_id() > old.id
            },
        },
{
}

/// The ids of requests order them by height: the lowest id of a height gives back the height, and a
/// request for a higher block has a higher id.
pub proof fn request_ids_follow_heights(height: u64, id: u64)
    requires
        height < 0x1_0000_0000_0000,
    ensures
        (height << 16) >> 16 == height,
        id >> 16 == height <==> height << 16 <= id <= (height << 16) + 0xffff,
        id >> 16 > height <==> id > (height << 16) + 0xffff,
{
    assert((height << 16) >> 16 == height) by (bit_vector)
        requires
            height < 0x1_0000_0000_0000,
    ;
    assert(id >> 16 == height <==> height << 16 <= id && id <= (height << 16) + 0xffff)
        by (bit_vector)
        requires
            height < 0x1_0000_0000_0000,
    ;
    assert(id >> 16 > height <==> id > (height << 16) + 0xffff) by (bit_vector)
        requires
            height < 0x1_0000_0000_0000,
    ;
}

/// A request for a block beyond the next one is not lost: it is kept, or a higher one is.
pub proof fn early_block_request_is_kept(state: HandlerView, req: VerifyBlockReqView)
    requires
        state.has_next_height(),
        state.next_height() < 0x1_0000_0000_0000,
        req.height() > state.next_height(),
    ensures
        state.kept_block_req(req) matches Some(kept) && kept.id >= req.id,
        state.block_step(req, state.keep_block_req(req), Seq::<ActionView>::empty()),
{
    request_ids_follow_heights(state.next_height(), req.id);
}

/// A kept block that is due is answered, and no longer kept.
pub proof fn due_block_is_answered(state: HandlerView, after: HandlerView, actions: Seq<ActionView>)
    requires
        state.kept_block_is_due(),
        state.kept_block_step(after, actions),
    ensures
        after.cache_block_req is None,
        actions == seq![
            block_verdict(
                state.cache_block_req->0.id,
                state.block_ret(state.cache_block_req->0.reqs),
            ),
        ],
{
    let taken = HandlerView { cache_block_req: None, ..state };
    let reqs = state.cache_block_req->0.reqs;
    assert(taken.unknown(reqs) == state.unknown(reqs));
    kept_block_has_no_bearing(state, reqs);
}

/// The block that is kept has no bearing on the checks.
pub(crate) proof fn kept_block_has_no_bearing(state: HandlerView, reqs: Seq<VerifyTxReqView>)
    ensures
        ({
            let taken = HandlerView { cache_block_req: None, ..state };
            &&& taken.first_failure(reqs) == state.first_failure(reqs)
            &&& taken.contradicts(reqs) == state.contradicts(reqs)
        }),
    decreases reqs.len(),
{
    let taken = HandlerView { cache_block_req: None, ..state };
    if reqs.len() > 0 {
        kept_block_has_no_bearing(state, reqs.drop_first());
    }
    assert forall|i: int| 0 <= i < reqs.len() implies taken.contradicts_tx(#[trigger] reqs[i])
        == state.contradicts_tx(reqs[i]) by {}
}

/// A ready node that is asked about the next block answers at once and once: under the id of the
/// request, all of it, and with the outcome for its transactions. It keeps nothing.
pub proof fn next_block_is_answered_under_its_id(
    state: HandlerView,
    req: VerifyBlockReqView,
    after: HandlerView,
    actions: Seq<ActionView>,
)
    requires
        state.history.max_height < u64::MAX,
        state.verify_block_step(req, after, actions),
        req.reqs.len() > 0,
        state.chain_id is Some,
        state.history.is_init,
        !state.is_snapshot,
        req.id >> 16 == state.history.max_height + 1,
    ensures
        actions.len() == 1,
        actions[0] matches ActionView::Publish { key, message } && {
            &&& key.sub_module == SubModules::Auth
            &&& key.msg_type == MsgType::VerifyBlockResp
            &&& message matches OutMessageView::VerifyBlockResp { id, ret } && id == req.id && ret
                == state.block_ret(req.reqs)
        },
        after == (HandlerView { cache: after.cache, ..state }),
{
}

/// An empty block request leads to nothing. One for another block than the next, or to a node that is
/// not ready, is not answered: only the request that is kept can change.
pub proof fn other_blocks_are_not_answered(
    state: HandlerView,
    req: VerifyBlockReqView,
    after: HandlerView,
    actions: Seq<ActionView>,
)
    requires
        state.history.max_height < u64::MAX,
        state.verify_block_step(req, after, actions),
        req.reqs.len() == 0 || state.chain_id is None || !state.history.is_init || state.is_snapshot
            || req.id >> 16 != state.history.max_height + 1,
    ensures
        actions.len() == 0,
        after == (HandlerView { cache_block_req: after.cache_block_req, ..state }),
        req.reqs.len() == 0 ==> after == state,
        req.reqs.len() > 0 ==> after.cache_block_req == state.kept_block_req(req),
{
}

/// Which request is kept, said of the ids: with one kept already, the new one if its id is higher and
/// not below the lowest id of the next block; else none, if that lowest id is above the kept one's;
/// else the kept one. With none kept, the new one if its id is above that lowest id.
pub proof fn kept_request_follows_the_ids(state: HandlerView, req: VerifyBlockReqView)
    requires
        state.history.max_height < u64::MAX,
    ensures
        ({
            let next: u64 = ((state.history.max_height + 1) as u64) << 16;
            &&& state.cache_block_req is None ==> state.kept_block_req(req) == if req.id > next {
                Some(req)
            } else {
                None
            }
            &&& state.cache_block_req matches Some(kept) ==> {
                &&& req.id > kept.id && req.id >= next ==> state.kept_block_req(req) == Some(req)
                &&& !(req.id > kept.id && req.id >= next) && next > kept.id
                    ==> state.kept_block_req(req) is None
                &&& !(req.id > kept.id && req.id >= next) && next <= kept.id
                    ==> state.kept_block_req(req) == Some(kept)
            }
            &&& state.keep_block_req(req) == (HandlerView {
                cache_block_req: state.kept_block_req(req),
                ..state
            })
        }),
{
}

/// In a block whose signatures are good, the first transaction that fails its checks decides, with
/// its own outcome.
pub proof fn first_failing_tx_decides(state: HandlerView, reqs: Seq<VerifyTxReqView>, i: int)
    requires
        forall|j: int|
            0 <= j < reqs.len() ==> (#[trigger] reqs[j]).signer.len() != 0 && sig_is_good(
                state,
                reqs[j],
            ),
        0 <= i < reqs.len(),
        forall|j: int| 0 <= j < i ==> state.tx_req_ret(#[trigger] reqs[j]) == Ret::OK,
        state.tx_req_ret(reqs[i]) != Ret::OK,
    ensures
        state.block_ret(reqs) == state.tx_req_ret(reqs[i]),
{
    sigs_are_good_each(state, reqs);
    first_failure_is_at(state, reqs, i);
}

/// Once the signatures of a block are settled, the first transaction that fails its checks decides,
/// and if none does, the quota of the block.
pub proof fn rest_of_a_block_check_decides(
    state: HandlerView,
    reqs: Seq<VerifyTxReqView>,
    i: int,
)
    ensures
        0 <= i < reqs.len() && (forall|j: int|
            0 <= j < i ==> state.tx_req_ret(#[trigger] reqs[j]) == Ret::OK) && state.tx_req_ret(
            reqs[i],
        ) != Ret::OK ==> state.signed_block_ret(reqs) == state.tx_req_ret(reqs[i]),
        (forall|j: int|
            0 <= j < reqs.len() ==> state.tx_req_ret(#[trigger] reqs[j]) == Ret::OK)
            ==> state.signed_block_ret(reqs) == (if block_quota_fits(
            spendings_of(reqs),
            state.block_gas_limit,
            state.check_quota,
            state.account_gas_limit,
        ) {
            Ret::OK
        } else {
            Ret::QuotaNotEnough
        }),
        spendings_of(reqs).len() == reqs.len(),
        0 <= i < reqs.len() ==> spendings_of(reqs)[i] == (
            address_of(reqs[i].signer),
            reqs[i].quota,
        ),
{
    none_fails(state, reqs);
    if 0 <= i < reqs.len() && (forall|j: int|
        0 <= j < i ==> state.tx_req_ret(#[trigger] reqs[j]) == Ret::OK) && state.tx_req_ret(reqs[i])
        != Ret::OK {
        first_failure_is_at(state, reqs, i);
    }
}

proof fn first_failure_is_at(state: HandlerView, reqs: Seq<VerifyTxReqView>, i: int)
    requires
        0 <= i < reqs.len(),
        forall|j: int| 0 <= j < i ==> state.tx_req_ret(#[trigger] reqs[j]) == Ret::OK,
        state.tx_req_ret(reqs[i]) != Ret::OK,
    ensures
        state.first_failure(reqs) == state.tx_req_ret(reqs[i]),
    decreases i,
{
    if i > 0 {
        assert(state.tx_req_ret(reqs[0]) == Ret::OK);
        let rest = reqs.drop_first();
        assert forall|j: int| 0 <= j < i - 1 implies state.tx_req_ret(#[trigger] rest[j])
            == Ret::OK by {
            assert(rest[j] == reqs[j + 1]);
        }
        assert(rest[i - 1] == reqs[i]);
        first_failure_is_at(state, rest, i - 1);
    }
}

/// A block whose transactions are each good is refused for its quota exactly if, together, they ask
/// for more than the block has, or those of one account for more than the account has.
pub proof fn quota_of_a_block_decides_last(state: HandlerView, reqs: Seq<VerifyTxReqView>)
    requires
        forall|i: int|
            0 <= i < reqs.len() ==> (#[trigger] reqs[i]).signer.len() != 0 && sig_is_good(
                state,
                reqs[i],
            ) && state.tx_req_ret(reqs[i]) == Ret::OK,
    ensures
        ({
            let sum = |l: Seq<VerifyTxReqView>|
                l.fold_left(0int, |sum: int, r: VerifyTxReqView| sum + r.quota);
            let of = |account: Seq<u8>|
                reqs.filter(|r: VerifyTxReqView| address_of(r.signer) == account);
            let limit = |account: Seq<u8>|
                if state.account_gas_limit.specific_gas_limit.contains_key(lower_hex(account)) {
                    state.account_gas_limit.specific_gas_limit[lower_hex(account)]
                } else {
                    state.account_gas_limit.common_gas_limit
                };
            let fits = sum(reqs) <= state.block_gas_limit && (state.check_quota
                ==> forall|account: Seq<u8>| #[trigger] sum(of(account)) <= limit(account));
            state.block_ret(reqs) == if fits {
                Ret::OK
            } else {
                Ret::QuotaNotEnough
            }
        }),
{
    sigs_are_good_each(state, reqs);
    none_fails(state, reqs);
    let sum = |l: Seq<VerifyTxReqView>|
        l.fold_left(0int, |sum: int, r: VerifyTxReqView| sum + r.quota);
    let of = |account: Seq<u8>| reqs.filter(|r: VerifyTxReqView| address_of(r.signer) == account);
    let limit = |account: Seq<u8>|
        if state.account_gas_limit.specific_gas_limit.contains_key(lower_hex(account)) {
            state.account_gas_limit.specific_gas_limit[lower_hex(account)]
        } else {
            state.account_gas_limit.common_gas_limit
        };
    sums_are_totals(reqs, Seq::empty());
    assert forall|account: Seq<u8>| #[trigger] sum(of(account)) == total_of(
        spendings_of(reqs),
        account,
    ) by {
        sums_are_totals(reqs, account);
    }
    assert forall|account: Seq<u8>| limit(account) == #[trigger] state.account_gas_limit.limit_of(
        account,
    ) by {}
    if state.check_quota && forall|account: Seq<u8>| #[trigger] sum(of(account)) <= limit(account) {
        assert forall|account: Seq<u8>| #[trigger] total_of(spendings_of(reqs), account)
            <= state.account_gas_limit.limit_of(account) by {
            assert(sum(of(account)) <= limit(account));
        }
    }
}

proof fn sums_are_totals(reqs: Seq<VerifyTxReqView>, account: Seq<u8>)
    ensures
        reqs.fold_left(0int, |sum: int, r: VerifyTxReqView| sum + r.quota) == total(
            spendings_of(reqs),
        ),
        reqs.filter(|r: VerifyTxReqView| address_of(r.signer) == account).fold_left(
            0int,
            |sum: int, r: VerifyTxReqView| sum + r.quota,
        ) == total_of(spendings_of(reqs), account),
    decreases reqs.len(),
{
    reveal(Seq::filter);
    if reqs.len() > 0 {
        let rest = reqs.drop_last();
        sums_are_totals(rest, account);
        assert(spendings_of(reqs).drop_last() =~= spendings_of(rest));
        let f = |sum: int, r: VerifyTxReqView| sum + r.quota;
        let p = |r: VerifyTxReqView| address_of(r.signer) == account;
        if p(reqs.last()) {
            let mine = rest.filter(p).push(reqs.last());
            assert(reqs.filter(p) == mine);
            assert(mine.drop_last() =~= rest.filter(p));
        }
    }
}

/// What is remembered under a hash after several entries were written where there is room for all: the
/// last of them under the hash, or what was remembered before.
pub(crate) proof fn put_all_with_room(
    entries: Seq<Entry>,
    capacity: nat,
    news: Seq<Entry>,
    hash: Seq<u8>,
)
    requires
        entries.len() + news.len() <= capacity,
    ensures
        lookup(put_all(entries, capacity, news), hash) == (match lookup(news, hash) {
            Some(value) => Some(value),
            None => lookup(entries, hash),
        }),
        put_all(entries, capacity, news).len() <= entries.len() + news.len(),
    decreases news.len(),
{
    if news.len() > 0 {
        let before = news.drop_last();
        let mid = put_all(entries, capacity, before);
        let (last, value) = news.last();
        put_all_with_room(entries, capacity, before, hash);
        lookup_after_push(mid, (last, value), hash);
        lookup_after_push(without(mid, last), (last, value), hash);
        lookup_after_removal(mid, last, hash);
        removal_shortens(mid, last);
    }
}

proof fn removal_shortens(entries: Seq<Entry>, hash: Seq<u8>)
    ensures
        without(entries, hash).len() <= entries.len(),
        lookup(entries, hash) is Some ==> without(entries, hash).len() < entries.len(),
    decreases entries.len(),
{
    reveal(Seq::filter);
    if entries.len() > 0 {
        removal_shortens(entries.drop_last(), hash);
    }
}

/// After a block whose signatures are good, the signer of each of its transactions is remembered,
/// where there is room for all and no two of them share a hash; and nothing else has changed.
pub proof fn good_signers_are_remembered(
    state: HandlerView,
    reqs: Seq<VerifyTxReqView>,
    after: HandlerView,
    i: int,
)
    requires
        state.block_remembered(reqs, after),
        state.cache.len() + reqs.len() <= state.cache_capacity,
        forall|j: int|
            0 <= j < reqs.len() ==> (#[trigger] reqs[j]).signer.len() != 0 && sig_is_good(
                state,
                reqs[j],
            ),
        forall|j: int, k: int|
            0 <= j < k < reqs.len() ==> (#[trigger] reqs[j]).tx_hash != (
            #[trigger] reqs[k]).tx_hash,
        0 <= i < reqs.len(),
    ensures
        lookup(after.cache, reqs[i].tx_hash) == Some(Some(reqs[i].signer)),
        after == (HandlerView { cache: after.cache, ..state }),
{
    sigs_are_good_each(state, reqs);
    let unknown = state.unknown(reqs);
    let news = unknown.map_values(|r: VerifyTxReqView| confirmed_entry(r));
    let hash = reqs[i].tx_hash;
    reqs.lemma_filter_len(|r: VerifyTxReqView| lookup(state.cache, r.tx_hash) is None);
    put_all_with_room(state.cache, state.cache_capacity, news, hash);
    lookup_finds_entry(news, hash);
    if lookup(news, hash) is Some {
        let j = choose|j: int| 0 <= j < news.len() && #[trigger] news[j] == (
            hash,
            lookup(news, hash)->0,
        );
        assert(news[j] == confirmed_entry(unknown[j]));
        unknown_has(state, reqs, unknown[j]);
        let k = choose|k: int| 0 <= k < reqs.len() && reqs[k] == unknown[j];
        assert(reqs[k].tx_hash == hash);
        assert(k == i);
    } else if lookup(state.cache, hash) is None {
        unknown_has(state, reqs, reqs[i]);
        let j = choose|j: int| 0 <= j < unknown.len() && unknown[j] == reqs[i];
        assert(news[j] == confirmed_entry(unknown[j]));
    }
}

/// Whatever the outcome for a block, checking it never makes up a signer: a key that is remembered
/// after it was remembered before, or is that of a transaction of the block which is signed as
/// claimed. And a transaction without a signer is remembered as bad, where anything can be.
pub proof fn remembered_signers_are_true(
    state: HandlerView,
    reqs: Seq<VerifyTxReqView>,
    after: HandlerView,
    hash: Seq<u8>,
)
    requires
        state.block_remembered(reqs, after),
    ensures
        after == (HandlerView { cache: after.cache, ..state }),
        ({
            let found = lookup(after.cache, hash);
            found is Some && found->0 is Some && found != lookup(state.cache, hash)
                ==> exists|i: int|
                0 <= i < reqs.len() && (#[trigger] reqs[i]).tx_hash == hash && Some(reqs[i].signer)
                    == found->0 && signed_as_claimed(reqs[i])
        }),
        forall|i: int|
            #![trigger reqs[i]]
            0 <= i < reqs.len() && reqs[i].signer.len() == 0 && (forall|j: int|
                0 <= j < i ==> (#[trigger] reqs[j]).signer.len() != 0) && state.cache_capacity > 0
                ==> lookup(after.cache, reqs[i].tx_hash) == Some(None::<Seq<u8>>),
        (exists|i: int|
            0 <= i < reqs.len() && (#[trigger] reqs[i]).signer.len() != 0 && lookup(
                state.cache,
                reqs[i].tx_hash,
            ) is Some && lookup(state.cache, reqs[i].tx_hash) != Some(Some(reqs[i].signer))) && (
        forall|i: int| 0 <= i < reqs.len() ==> (#[trigger] reqs[i]).signer.len() != 0) ==> after
            == state,
{
    none_unsigned(reqs);
    let unknown = state.unknown(reqs);
    let found = lookup(after.cache, hash);
    if first_unsigned(reqs) is Some {
        put_adds_or_forgets(
            state.cache,
            state.cache_capacity,
            first_unsigned(reqs)->0,
            None,
            hash,
        );
        if state.cache_capacity > 0 {
            put_is_found(state.cache, state.cache_capacity, first_unsigned(reqs)->0, None);
        }
        assert forall|i: int|
            #![trigger reqs[i]]
            0 <= i < reqs.len() && reqs[i].signer.len() == 0 && (forall|j: int|
                0 <= j < i ==> (#[trigger] reqs[j]).signer.len() != 0) implies first_unsigned(reqs)
            == Some(reqs[i].tx_hash) by {
            first_unsigned_is_at(reqs, i);
        }
    } else if state.contradicts(reqs) {
    } else {
        let confirmed = if all_signed_as_claimed(unknown) {
            unknown.map_values(|r: VerifyTxReqView| confirmed_entry(r))
        } else {
            choose|confirmed: Seq<Entry>|
                {
                    &&& #[trigger] is_selection(confirmed, unknown)
                    &&& checks_gave(unknown, confirmed)
                    &&& confirmed.len() < unknown.len()
                    &&& after == state.remember_all(confirmed)
                }
        };
        put_all_adds_or_forgets(state.cache, state.cache_capacity, confirmed, hash);
        if found is Some && found->0 is Some && found != lookup(state.cache, hash) {
            let j = choose|j: int| 0 <= j < confirmed.len() && #[trigger] confirmed[j] == (
                hash,
                found->0,
            );
            let k = if all_signed_as_claimed(unknown) {
                j
            } else {
                (choose|at: Seq<int>| #[trigger] selects(at, confirmed, unknown))[j]
            };
            assert(0 <= k < unknown.len() && signed_as_claimed(unknown[k]) && confirmed[j]
                == confirmed_entry(unknown[k]));
            unknown_has(state, reqs, unknown[k]);
            let i = choose|i: int| 0 <= i < reqs.len() && reqs[i] == unknown[k];
            assert(reqs[i].tx_hash == hash);
        }
        assert forall|i: int| 0 <= i < reqs.len() implies !(lookup(
            state.cache,
            (#[trigger] reqs[i]).tx_hash,
        ) is Some && lookup(state.cache, reqs[i].tx_hash) != Some(Some(reqs[i].signer))) by {
            assert(!state.contradicts_tx(reqs[i]));
        }
    }
}

proof fn first_unsigned_is_at(reqs: Seq<VerifyTxReqView>, i: int)
    requires
        0 <= i < reqs.len(),
        reqs[i].signer.len() == 0,
        forall|j: int| 0 <= j < i ==> (#[trigger] reqs[j]).signer.len() != 0,
    ensures
        first_unsigned(reqs) == Some(reqs[i].tx_hash),
    decreases i,
{
    if i > 0 {
        let rest = reqs.drop_first();
        assert(reqs[0].signer.len() != 0);
        assert forall|j: int| 0 <= j < i - 1 implies (#[trigger] rest[j]).signer.len() != 0 by {
            assert(rest[j] == reqs[j + 1]);
        }
        assert(rest[i - 1] == reqs[i]);
        first_unsigned_is_at(rest, i - 1);
    }
}

} // verus!
