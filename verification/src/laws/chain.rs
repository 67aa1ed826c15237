//! What holds while the service follows the chain.

use crate::actions::ActionView;
use crate::history::{record_keeps_window, BLOCKLIMIT, REQUEST_INTERVAL};
use crate::messages::{
    BlackListView, BlockTxHashesView, Cmd, InMessageView, Ret, SnapshotReq, VerifyTxReqView,
};
use crate::routing::RoutingKey;
use crate::state::{
    block_tx_hashes_req, heights_between, missing_block_reqs, reported, HandlerView, FIRST_CREDIT,
};
use vstd::prelude::*;

verus! {

/// The state after the transactions of several blocks became known, in the order given.
pub open spec fn after_blocks(state: HandlerView, blocks: Seq<BlockTxHashesView>) -> HandlerView
    decreases blocks.len(),
{
    if blocks.len() == 0 {
        state
    } else {
        after_blocks(state, blocks.drop_last()).block_hashes_step(blocks.last()).after
    }
}

/// Learning of a block keeps the state well formed and never lowers the height.
pub proof fn block_keeps_well_formed(state: HandlerView, block: BlockTxHashesView)
    requires
        state.well_formed(),
    ensures
        state.block_hashes_step(block).after.well_formed(),
        state.block_hashes_step(block).after.history.max_height >= state.history.max_height,
{
    record_keeps_window(state.history, block.height);
}

/// Once a block is known, every transaction in it counts as a duplicate, and no request with its
/// hash passes the checks.
pub proof fn block_txs_become_dups(state: HandlerView, block: BlockTxHashesView, tx_hash: Seq<u8>)
    requires
        state.well_formed(),
        !state.history_hashes.contains_key(block.height),
        block.tx_hashes.contains(tx_hash),
    ensures
        state.block_hashes_step(block).after.is_dup(tx_hash),
        forall|req: VerifyTxReqView|
            req.tx_hash == tx_hash ==> #[trigger] state.block_hashes_step(block).after.tx_req_ret(req)
                != Ret::OK,
{
    let after = state.block_hashes_step(block).after;
    assert(after.history_hashes.contains_key(block.height));
    assert(after.history_hashes[block.height].contains(tx_hash));
}

/// The block of `height` is known to hold the transaction, or the chain has outgrown `last`.
spec fn is_spent(state: HandlerView, height: u64, tx_hash: Seq<u8>, last: u64) -> bool {
    ||| state.history_hashes.contains_key(height) && state.history_hashes[height].contains(tx_hash)
    ||| state.history.max_height >= last
}

/// Learning of another block leaves a spent transaction spent.
proof fn spent_stays_spent(
    state: HandlerView,
    height: u64,
    tx_hash: Seq<u8>,
    last: u64,
    block: BlockTxHashesView,
)
    requires
        state.well_formed(),
        is_spent(state, height, tx_hash, last),
        last < height + BLOCKLIMIT,
    ensures
        is_spent(state.block_hashes_step(block).after, height, tx_hash, last),
{
    let after = state.block_hashes_step(block).after;
    record_keeps_window(state.history, block.height);
    if state.history.max_height < last {
        let min_height = state.history.record(block.height).min_height;
        let dropped = heights_between(state.history.min_height, min_height);
        if dropped.contains(height) {
            assert(after.history.max_height >= last);
        } else {
            assert(after.history_hashes.contains_key(height));
        }
    }
}

/// No replay: a transaction that entered the next block within its lifetime passes no check
/// afterwards, whichever blocks become known later.
pub proof fn no_replay(
    state: HandlerView,
    block: BlockTxHashesView,
    later: Seq<BlockTxHashesView>,
    req: VerifyTxReqView,
)
    requires
        state.well_formed(),
        state.has_next_height(),
        block.height == state.next_height(),
        block.tx_hashes.contains(req.tx_hash),
        req.valid_until_block < state.next_height() + BLOCKLIMIT,
        after_blocks(state.block_hashes_step(block).after, later).has_next_height(),
    ensures
        after_blocks(state.block_hashes_step(block).after, later).well_formed(),
        after_blocks(state.block_hashes_step(block).after, later).tx_req_ret(req) != Ret::OK,
{
    let first = state.block_hashes_step(block).after;
    block_keeps_well_formed(state, block);
    assert(!state.history.heights.contains(block.height));
    assert(!state.history_hashes.contains_key(block.height));
    block_txs_become_dups(state, block, req.tx_hash);
    assert(is_spent(first, block.height, req.tx_hash, req.valid_until_block));
    all_later_stay_spent(first, block.height, req.tx_hash, req.valid_until_block, later);
    let after = after_blocks(first, later);
    if after.history.max_height < req.valid_until_block {
        assert(after.history_hashes.contains_key(block.height));
        assert(after.is_dup(req.tx_hash));
    }
}

/// A spent transaction stays spent, whichever blocks become known later.
proof fn all_later_stay_spent(
    state: HandlerView,
    height: u64,
    tx_hash: Seq<u8>,
    last: u64,
    later: Seq<BlockTxHashesView>,
)
    requires
        state.well_formed(),
        is_spent(state, height, tx_hash, last),
        last < height + BLOCKLIMIT,
    ensures
        after_blocks(state, later).well_formed(),
        is_spent(after_blocks(state, later), height, tx_hash, last),
    decreases later.len(),
{
    if later.len() > 0 {
        all_later_stay_spent(state, height, tx_hash, last, later.drop_last());
        let before = after_blocks(state, later.drop_last());
        spent_stays_spent(before, height, tx_hash, last, later.last());
        block_keeps_well_formed(before, later.last());
    }
}

/// Only a new height brings new limits and a proposal; an old block changes neither.
pub proof fn only_new_heights_bring_limits(state: HandlerView, block: BlockTxHashesView)
    requires
        state.well_formed(),
    ensures
        ({
            let after = state.block_hashes_step(block).after;
            if state.is_new_height(block.height) {
                &&& after.check_quota == block.check_quota
                &&& after.block_gas_limit == block.block_gas_limit
                &&& after.account_gas_limit == block.account_gas_limit
                &&& after.is_need_proposal_new_block
            } else {
                &&& after.check_quota == state.check_quota
                &&& after.block_gas_limit == state.block_gas_limit
                &&& after.account_gas_limit == state.account_gas_limit
                &&& after.is_need_proposal_new_block == state.is_need_proposal_new_block
                &&& after.history.max_height == state.history.max_height
            }
        }),
{
}

/// A new height is proposed exactly once, and with no room for transactions if the node is not
/// ready.
pub proof fn new_height_is_proposed_once(state: HandlerView, block: BlockTxHashesView)
    requires
        state.well_formed(),
        state.is_new_height(block.height),
    ensures
        ({
            let known = state.block_hashes_step(block).after;
            let step = known.proposal_step();
            &&& step.actions.len() == 1
            &&& step.actions[0] matches ActionView::ProposeTxList { block_gas_limit, .. }
                && block_gas_limit == if known.is_ready() {
                    block.block_gas_limit
                } else {
                    0
                }
            &&& step.after.proposal_step().actions.len() == 0
            &&& step.after.proposal_step().after == step.after
        }),
{
}

/// Every request among those for missing blocks is for one that is missing, and each missing one is
/// asked for.
pub(crate) proof fn missing_are_asked_for(blocks: Map<u64, Set<Seq<u8>>>, from: u64, to: u64, height: u64)
    ensures
        missing_block_reqs(blocks, from, to).contains(block_tx_hashes_req(height)) <==> from
            <= height < to && !blocks.contains_key(height),
    decreases to - from,
{
    if from < to {
        let last = (to - 1) as u64;
        let before = missing_block_reqs(blocks, from, last);
        let after = missing_block_reqs(blocks, from, to);
        let wanted = block_tx_hashes_req(height);
        missing_are_asked_for(blocks, from, last, height);
        if !blocks.contains_key(last) {
            if before.contains(wanted) {
                let i = choose|i: int| 0 <= i < before.len() && before[i] == wanted;
                assert(after[i] == wanted);
            }
            if after.contains(wanted) {
                let i = choose|i: int| 0 <= i < after.len() && after[i] == wanted;
                if i < before.len() {
                    assert(before[i] == wanted);
                } else {
                    assert(block_tx_hashes_req(last) == wanted);
                }
            }
            if height == last {
                assert(after[after.len() - 1] == wanted);
            }
        }
    }
}

/// A node that asks for missing blocks asks for exactly those recent heights that it has not
/// recorded.
pub proof fn asks_for_what_is_missing(state: HandlerView, now: u64, stamp: u64, height: u64)
    requires
        state.well_formed(),
        !state.history.too_frequent(now),
    ensures
        state.ask_step(true, now, stamp).actions.contains(block_tx_hashes_req(height))
            <==> state.history.min_height <= height < state.history.max_height
            && !state.history.heights.contains(height),
{
    missing_are_asked_for(
        state.history_hashes,
        state.history.min_height,
        state.history.max_height,
        height,
    );
}

/// A node that has asked for missing blocks does not ask again before the interval has passed.
pub proof fn asks_once_in_an_interval(state: HandlerView, now: u64, stamp: u64, again: u64, next: u64)
    requires
        !state.history.too_frequent(now),
        again < stamp + REQUEST_INTERVAL,
    ensures
        ({
            let asked = state.ask_step(true, now, stamp).after;
            &&& asked.ask_step(true, again, next).after == asked
            &&& asked.ask_step(true, again, next).actions == Seq::<ActionView>::empty()
        }),
{
}

/// How often `account` is in `accounts`.
pub open spec fn times(accounts: Seq<Seq<u8>>, account: Seq<u8>) -> nat
    decreases accounts.len(),
{
    if accounts.len() == 0 {
        0
    } else {
        times(accounts.drop_last(), account) + if accounts.last() == account {
            1nat
        } else {
            0
        }
    }
}

/// The credit that is left after `n` reports.
pub open spec fn credit_after(n: nat) -> int {
    if n > FIRST_CREDIT + 2 {
        -1
    } else {
        FIRST_CREDIT + 1 - n
    }
}

/// An account that was not on the black list is on it once it is reported, with a credit that
/// depends only on how often it was reported, whichever other accounts were reported in between.
pub proof fn reports_use_up_credit(
    black_list: Map<Seq<u8>, i8>,
    accounts: Seq<Seq<u8>>,
    account: Seq<u8>,
)
    requires
        !black_list.contains_key(account),
    ensures
        ({
            let after = reported(black_list, accounts);
            let n = times(accounts, account);
            &&& after.contains_key(account) <==> n > 0
            &&& n > 0 ==> after[account] == credit_after(n)
        }),
    decreases accounts.len(),
{
    if accounts.len() > 0 {
        reports_use_up_credit(black_list, accounts.drop_last(), account);
    }
}

/// An account that was not on the black list is forbidden from its fifth report on, and not before.
pub proof fn fifth_report_forbids(state: HandlerView, news: BlackListView, account: Seq<u8>)
    requires
        !state.black_list.contains_key(account),
    ensures
        state.black_list_after(news).black_list_ret(account) == (if times(news.black_list, account)
            >= FIRST_CREDIT + 2 {
            Ret::Forbidden
        } else {
            Ret::OK
        }),
{
    reports_use_up_credit(
        state.black_list.remove_keys(news.clear_list.to_set()),
        news.black_list,
        account,
    );
}

/// An account that is cleared, and not reported along with that, is no longer forbidden.
pub proof fn clearing_lifts_the_ban(state: HandlerView, news: BlackListView, account: Seq<u8>)
    requires
        news.clear_list.contains(account),
        times(news.black_list, account) == 0,
    ensures
        state.black_list_after(news).black_list_ret(account) == Ret::OK,
        !state.black_list_after(news).black_list.contains_key(account),
{
    reports_use_up_credit(
        state.black_list.remove_keys(news.clear_list.to_set()),
        news.black_list,
        account,
    );
}

/// A forbidden account stays forbidden however often it is reported, until it is cleared.
pub proof fn forbidden_until_cleared(state: HandlerView, news: BlackListView, account: Seq<u8>)
    requires
        state.black_list_ret(account) == Ret::Forbidden,
        !news.clear_list.contains(account),
    ensures
        state.black_list_after(news).black_list_ret(account) == Ret::Forbidden,
{
    reports_keep_ban(
        state.black_list.remove_keys(news.clear_list.to_set()),
        news.black_list,
        account,
    );
}

proof fn reports_keep_ban(
    black_list: Map<Seq<u8>, i8>,
    accounts: Seq<Seq<u8>>,
    account: Seq<u8>,
)
    requires
        black_list.contains_key(account),
        black_list[account] < 0,
    ensures
        reported(black_list, accounts).contains_key(account),
        reported(black_list, accounts)[account] < 0,
    decreases accounts.len(),
{
    if accounts.len() > 0 {
        reports_keep_ban(black_list, accounts.drop_last(), account);
    }
}

/// From the beginning of a snapshot to its end the node is not ready, whatever other steps are
/// taken; after the end it is as ready as its chain and its history allow.
pub proof fn snapshot_suspends(state: HandlerView, req: SnapshotReq)
    ensures
        req.cmd == Cmd::Begin ==> !state.snapshot_step(req).after.is_ready(),
        state.is_snapshot && req.cmd != Cmd::End ==> !state.snapshot_step(req).after.is_ready(),
        req.cmd == Cmd::End ==> (state.snapshot_step(req).after.is_ready() <==>
            state.history.is_init && state.chain_id is Some),
{
}

/// A snapshot that was begun lasts, and the node is not ready, until a message ends it: no other
/// message does.
pub proof fn snapshot_lasts_until_its_end(
    state: HandlerView,
    key: RoutingKey,
    message: InMessageView,
    pool_len: nat,
    after: HandlerView,
    actions: Seq<ActionView>,
)
    requires
        state.is_snapshot,
        state.message_step(key, message, pool_len, after, actions),
        !(message matches InMessageView::SnapshotReq(req) && req.cmd == Cmd::End),
    ensures
        after.is_snapshot,
        !after.is_ready(),
{
}

/// The chain of a node changes only by a message that names it.
pub proof fn chain_id_is_only_set_by_its_message(
    state: HandlerView,
    key: RoutingKey,
    message: InMessageView,
    pool_len: nat,
    after: HandlerView,
    actions: Seq<ActionView>,
)
    requires
        state.message_step(key, message, pool_len, after, actions),
    ensures
        after.chain_id != state.chain_id ==> (message matches InMessageView::Miscellaneous {
            chain_id,
        } && after.chain_id == Some(chain_id)),
        after.tx_pool_limit == state.tx_pool_limit,
        after.cache_capacity == state.cache_capacity,
{
}

/// A cleared service knows nothing of the chain but its id and its limits: it is otherwise as if it
/// were new, and not ready until it has seen its blocks again.
pub proof fn clearing_forgets(state: HandlerView, end_height: u64)
    ensures
        ({
            let after = state.snapshot_step(SnapshotReq { cmd: Cmd::Clear, end_height }).after;
            let new = HandlerView::initial(state.tx_pool_limit, state.cache_capacity);
            &&& !after.is_ready()
            &&& after == (HandlerView {
                chain_id: state.chain_id,
                check_quota: state.check_quota,
                block_gas_limit: state.block_gas_limit,
                account_gas_limit: state.account_gas_limit,
                is_snapshot: state.is_snapshot,
                is_need_proposal_new_block: state.is_need_proposal_new_block,
                ..new
            })
        }),
{
}

} // verus!
