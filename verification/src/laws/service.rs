//! What each message and each turn leads to, said of the fields of the state and of what is sent.

use crate::actions::{ActionView, OutMessageView, ResponseContentView, ResponseView};
use crate::batch::{hash_of, is_latest};
use crate::history::{record_is_as_described, HistoryView};
use crate::laws::blocks::kept_block_has_no_bearing;
use crate::laws::chain::missing_are_asked_for;
use crate::laws::requests::txs_of;
use crate::messages::{
    BlackListView, BlockTxHashesView, Cmd, InMessageView, RequestView, Resp, Ret, SnapshotReq,
    SnapshotResp, VerifyBlockReqView, VerifyTxReqView,
};
use crate::routing::{MsgType, RoutingKey, SubModules};
use crate::sig_cache::lookup;
use crate::state::{
    auth_message, block_tx_hashes_req, block_verdict, first_unsigned, fits_key, is_expected,
    missing_block_reqs, reported_once, snapshot_resp, tx_failed, tx_succeeded, HandlerView,
};
use vstd::prelude::*;

verus! {

/// A new service knows nothing, limits everything to nothing, and owes no proposal.
pub proof fn a_new_service_knows_nothing(tx_pool_limit: usize, cache_capacity: nat)
    ensures
        ({
            let new = HandlerView::initial(tx_pool_limit, cache_capacity);
            &&& new.cache.len() == 0
            &&& new.cache_capacity == cache_capacity
            &&& new.chain_id is None
            &&& forall|h: u64| !new.history.heights.contains(h)
            &&& new.history.max_height == 0
            &&& new.history.min_height == 0
            &&& !new.history.is_init
            &&& new.history.last_timestamp == 0
            &&& new.cache_block_req is None
            &&& forall|h: u64| !new.history_hashes.contains_key(h)
            &&& !new.check_quota
            &&& new.block_gas_limit == 0
            &&& new.account_gas_limit.common_gas_limit == 0
            &&& forall|name: Seq<char>|
                !new.account_gas_limit.specific_gas_limit.contains_key(name)
            &&& new.tx_pool_limit == tx_pool_limit
            &&& !new.is_snapshot
            &&& forall|account: Seq<u8>| !new.black_list.contains_key(account)
            &&& !new.is_need_proposal_new_block
        }),
{
}

/// A node is ready exactly if it knows its chain, lacks no recent block, and takes no snapshot.
pub proof fn ready_means(state: HandlerView)
    ensures
        state.is_ready() <==> state.chain_id is Some && state.history.is_init
            && !state.is_snapshot,
{
}

/// A pool without a limit always has room; any other has room for what keeps it within its limit.
pub proof fn room_in_the_pool_means(state: HandlerView, tx_count: nat, pool_len: nat)
    ensures
        state.tx_pool_limit == 0 ==> !state.is_flow_control(tx_count, pool_len),
        state.tx_pool_limit != 0 ==> (state.is_flow_control(tx_count, pool_len) <==> tx_count
            + pool_len > state.tx_pool_limit),
{
}

/// Whatever block becomes known, at a new height or not, exactly its transactions are taken out of
/// the pool, and nothing else is asked for.
pub proof fn known_txs_leave_the_pool(state: HandlerView, block: BlockTxHashesView)
    ensures
        ({
            let actions = state.block_hashes_step(block).actions;
            &&& actions.len() == 1
            &&& actions[0] matches ActionView::RemoveFromPool { tx_hashes }
                && forall|hash: Seq<u8>| #[trigger]
                tx_hashes.contains(hash) <==> exists|i: int|
                    0 <= i < block.tx_hashes.len() && #[trigger] block.tx_hashes[i] == hash
        }),
{
    let tx_hashes = block.tx_hashes.to_set();
    assert forall|hash: Seq<u8>| #[trigger] tx_hashes.contains(hash) <==> exists|i: int|
        0 <= i < block.tx_hashes.len() && #[trigger] block.tx_hashes[i] == hash by {
        if block.tx_hashes.contains(hash) {
            let i = choose|i: int| 0 <= i < block.tx_hashes.len() && block.tx_hashes[i] == hash;
            assert(block.tx_hashes[i] == hash);
        }
    }
}

/// What the node knows after a block became known: the block's transactions, if its height was not
/// known before; every other recent block as before, without those that fell out of the window; the
/// block's limits, if its height is new, or the old ones, if not; and everything else as before.
pub proof fn known_block_is_recorded(state: HandlerView, block: BlockTxHashesView)
    requires
        state.well_formed(),
    ensures
        ({
            let after = state.block_hashes_step(block).after;
            let is_new = block.height > state.history.max_height || state.history.max_height == 0
                && block.height == 0;
            let dropped = |h: u64| state.history.min_height <= h < after.history.min_height;
            &&& after.history == state.history.record(block.height)
            &&& after.history_hashes.contains_key(block.height)
            &&& !state.history_hashes.contains_key(block.height) ==> forall|hash: Seq<u8>|
                #[trigger] after.history_hashes[block.height].contains(hash)
                    <==> block.tx_hashes.contains(hash)
            &&& state.history_hashes.contains_key(block.height)
                ==> after.history_hashes[block.height] == state.history_hashes[block.height]
            &&& forall|h: u64|
                h != block.height ==> (#[trigger] after.history_hashes.contains_key(h)
                    <==> state.history_hashes.contains_key(h) && !dropped(h))
            &&& forall|h: u64|
                h != block.height && #[trigger] after.history_hashes.contains_key(h)
                    ==> after.history_hashes[h] == state.history_hashes[h]
            &&& after.check_quota == if is_new {
                block.check_quota
            } else {
                state.check_quota
            }
            &&& after.block_gas_limit == if is_new {
                block.block_gas_limit
            } else {
                state.block_gas_limit
            }
            &&& after.account_gas_limit == if is_new {
                block.account_gas_limit
            } else {
                state.account_gas_limit
            }
            &&& after.is_need_proposal_new_block == (is_new || state.is_need_proposal_new_block)
            &&& after.cache == state.cache
            &&& after.cache_capacity == state.cache_capacity
            &&& after.chain_id == state.chain_id
            &&& after.cache_block_req == state.cache_block_req
            &&& after.tx_pool_limit == state.tx_pool_limit
            &&& after.is_snapshot == state.is_snapshot
            &&& after.black_list == state.black_list
        }),
{
    record_is_as_described(state.history, block.height);
    let after = state.block_hashes_step(block).after;
    assert(!state.history_hashes.contains_key(block.height) ==> forall|hash: Seq<u8>|
        #[trigger] after.history_hashes[block.height].contains(hash) <==> block.tx_hashes.contains(
            hash,
        ));
}

/// What the tasks of a turn leave as it was.
pub proof fn tasks_change_little(
    state: HandlerView,
    now: u64,
    stamp: u64,
    after: HandlerView,
    actions: Seq<ActionView>,
)
    requires
        state.tasks_step(now, stamp, after, actions),
    ensures
        after == (HandlerView {
            cache: after.cache,
            history: HistoryView {
                last_timestamp: after.history.last_timestamp,
                ..state.history
            },
            cache_block_req: after.cache_block_req,
            is_need_proposal_new_block: false,
            ..state
        }),
        !state.kept_block_is_due() ==> after.cache == state.cache && after.cache_block_req
            == state.cache_block_req,
{
}

/// In every turn, a node that lacks recent blocks, and has never asked for them or not for three
/// seconds, asks for each one that it lacks and for no other, and notes the time; any other node asks
/// for none and notes nothing.
pub proof fn turn_asks_for_missing_blocks(
    state: HandlerView,
    now: u64,
    stamp: u64,
    after: HandlerView,
    actions: Seq<ActionView>,
    height: u64,
)
    requires
        state.well_formed(),
        state.tasks_step(now, stamp, after, actions),
    ensures
        ({
            let asks = !state.history.is_init && now - state.history.last_timestamp >= 3000;
            let request = ActionView::Publish {
                key: RoutingKey {
                    sub_module: SubModules::Auth,
                    msg_type: MsgType::BlockTxHashesReq,
                },
                message: OutMessageView::BlockTxHashesReq { height },
            };
            &&& actions.contains(request) <==> asks && state.history.min_height <= height
                < state.history.max_height && !state.history.heights.contains(height)
            &&& after.history.last_timestamp == if asks {
                stamp
            } else {
                state.history.last_timestamp
            }
        }),
{
    broadcast use vstd::seq_lib::group_seq_properties;

    let request = ActionView::Publish {
        key: RoutingKey { sub_module: SubModules::Auth, msg_type: MsgType::BlockTxHashesReq },
        message: OutMessageView::BlockTxHashesReq { height },
    };
    missing_are_asked_for(
        state.history_hashes,
        state.history.min_height,
        state.history.max_height,
        height,
    );
    let lack = state.lack_step(now, stamp);
    let (checked, verdict) = choose|checked: HandlerView, verdict: Seq<ActionView>|
        {
            &&& #[trigger] lack.after.kept_block_step(checked, verdict)
            &&& after == checked.proposal_step().after
            &&& actions == lack.actions + verdict + checked.proposal_step().actions
        };
    assert(!verdict.contains(request));
    assert(!checked.proposal_step().actions.contains(request));
    let chain = if state.chain_id is None {
        seq![
            auth_message(
                MsgType::MiscellaneousReq,
                OutMessageView::MiscellaneousReq,
            ),
        ]
    } else {
        Seq::empty()
    };
    assert(!chain.contains(request));
}

/// A turn asks for the chain, before anything else, exactly if it is not known.
pub proof fn turn_asks_for_the_chain(
    state: HandlerView,
    now: u64,
    stamp: u64,
    after: HandlerView,
    actions: Seq<ActionView>,
)
    requires
        state.tasks_step(now, stamp, after, actions),
    ensures
        ({
            let request = ActionView::Publish {
                key: RoutingKey {
                    sub_module: SubModules::Auth,
                    msg_type: MsgType::MiscellaneousReq,
                },
                message: OutMessageView::MiscellaneousReq,
            };
            &&& state.chain_id is None ==> actions.len() > 0 && actions[0] == request
            &&& state.chain_id is Some ==> !actions.contains(request)
        }),
{
    broadcast use vstd::seq_lib::group_seq_properties;

    let request = ActionView::Publish {
        key: RoutingKey { sub_module: SubModules::Auth, msg_type: MsgType::MiscellaneousReq },
        message: OutMessageView::MiscellaneousReq,
    };
    let lack = state.lack_step(now, stamp);
    let (checked, verdict) = choose|checked: HandlerView, verdict: Seq<ActionView>|
        {
            &&& #[trigger] lack.after.kept_block_step(checked, verdict)
            &&& after == checked.proposal_step().after
            &&& actions == lack.actions + verdict + checked.proposal_step().actions
        };
    let missing = missing_block_reqs(
        state.history_hashes,
        state.history.min_height,
        state.history.max_height,
    );
    only_blocks_are_asked_for(
        state.history_hashes,
        state.history.min_height,
        state.history.max_height,
    );
    assert(!missing.contains(request));
    assert(!verdict.contains(request));
    assert(!checked.proposal_step().actions.contains(request));
    if state.chain_id is None {
        assert(lack.actions[0] == request);
    } else {
        assert(!lack.actions.contains(request));
    }
}

/// Each request for a missing block asks for a block.
proof fn only_blocks_are_asked_for(blocks: Map<u64, Set<Seq<u8>>>, from: u64, to: u64)
    ensures
        forall|i: int|
            0 <= i < missing_block_reqs(blocks, from, to).len() ==> {
                &&& (#[trigger] missing_block_reqs(
                    blocks,
                    from,
                    to,
                )[i]) matches ActionView::Publish { message, .. }
                &&& message is BlockTxHashesReq
            },
    decreases to - from,
{
    if from < to {
        only_blocks_are_asked_for(blocks, from, (to - 1) as u64);
    }
}

/// Whenever missing blocks are to be asked for, each recent height that is not recorded is asked for,
/// and no other, and the time is noted; unless the interval is to be heeded and has not passed, when
/// nothing is asked for and nothing is noted. Nothing else changes either way.
pub proof fn asking_for_blocks_does(
    state: HandlerView,
    check: bool,
    now: u64,
    stamp: u64,
    height: u64,
)
    requires
        state.well_formed(),
    ensures
        ({
            let step = state.ask_step(check, now, stamp);
            let asks = !check || now - state.history.last_timestamp >= 3000;
            let request = ActionView::Publish {
                key: RoutingKey {
                    sub_module: SubModules::Auth,
                    msg_type: MsgType::BlockTxHashesReq,
                },
                message: OutMessageView::BlockTxHashesReq { height },
            };
            &&& step.actions.contains(request) <==> asks && state.history.min_height <= height
                < state.history.max_height && !state.history.heights.contains(height)
            &&& !asks ==> step.actions.len() == 0 && step.after == state
            &&& asks ==> step.after == (HandlerView {
                history: HistoryView { last_timestamp: stamp, ..state.history },
                ..state
            })
        }),
{
    missing_are_asked_for(
        state.history_hashes,
        state.history.min_height,
        state.history.max_height,
        height,
    );
}

/// What is sent: the answer to a block request carries its id and the outcome; the answers to a client
/// carry the id of its request and the name of the outcome, and the hash of the transaction if it
/// reached the pool; the request for a block names its height. All of it is sent as the transaction
/// service's own, each under the kind of message that it is.
pub proof fn what_is_sent_says(
    id: u64,
    ret: Ret,
    request_id: Seq<u8>,
    tx_hash: Seq<u8>,
    height: u64,
    resp: SnapshotResp,
)
    ensures
        ({
            let sent = |msg_type: MsgType, message: OutMessageView|
                ActionView::Publish {
                    key: RoutingKey { sub_module: SubModules::Auth, msg_type },
                    message,
                };
            let response = |content: ResponseContentView|
                sent(
                    MsgType::Response,
                    OutMessageView::Response(ResponseView { request_id, content }),
                );
            &&& block_verdict(id, ret) == sent(
                MsgType::VerifyBlockResp,
                OutMessageView::VerifyBlockResp { id, ret },
            )
            &&& tx_failed(request_id, ret) == response(
                ResponseContentView::TxError { error_msg: ret.text() },
            )
            &&& tx_succeeded(request_id, ret, tx_hash) == response(
                ResponseContentView::TxState { tx_hash, status: ret.text() },
            )
            &&& block_tx_hashes_req(height) == sent(
                MsgType::BlockTxHashesReq,
                OutMessageView::BlockTxHashesReq { height },
            )
            &&& snapshot_resp(resp) == sent(
                MsgType::SnapshotResp,
                OutMessageView::SnapshotResp(resp),
            )
        }),
{
}

/// Missing blocks are asked for once each, from the lowest to the highest, and nothing else is asked
/// for with them.
pub proof fn missing_blocks_are_asked_for_in_order(
    state: HandlerView,
    check: bool,
    now: u64,
    stamp: u64,
    i: int,
    j: int,
)
    requires
        state.well_formed(),
        0 <= i < j < state.ask_step(check, now, stamp).actions.len(),
    ensures
        exists|low: u64, high: u64|
            #![trigger block_request(low), block_request(high)]
            {
                &&& state.history.min_height <= low < high < state.history.max_height
                &&& !state.history.heights.contains(low)
                &&& !state.history.heights.contains(high)
                &&& state.ask_step(check, now, stamp).actions[i] == block_request(low)
                &&& state.ask_step(check, now, stamp).actions[j] == block_request(high)
            },
{
    missing_are_in_order(
        state.history_hashes,
        state.history.min_height,
        state.history.max_height,
        i,
        j,
    );
}

/// The request for one block.
pub open spec fn block_request(height: u64) -> ActionView {
    ActionView::Publish {
        key: RoutingKey { sub_module: SubModules::Auth, msg_type: MsgType::BlockTxHashesReq },
        message: OutMessageView::BlockTxHashesReq { height },
    }
}

proof fn missing_are_in_order(
    blocks: Map<u64, Set<Seq<u8>>>,
    from: u64,
    to: u64,
    i: int,
    j: int,
)
    requires
        0 <= i < j < missing_block_reqs(blocks, from, to).len(),
    ensures
        exists|low: u64, high: u64|
            #![trigger block_request(low), block_request(high)]
            {
                &&& from <= low < high < to
                &&& !blocks.contains_key(low)
                &&& !blocks.contains_key(high)
                &&& missing_block_reqs(blocks, from, to)[i] == block_request(low)
                &&& missing_block_reqs(blocks, from, to)[j] == block_request(high)
            },
    decreases to - from,
{
    if from < to {
        let last = (to - 1) as u64;
        let before = missing_block_reqs(blocks, from, last);
        if j < before.len() {
            missing_are_in_order(blocks, from, last, i, j);
        } else {
            let low = missing_is_a_block(blocks, from, last, i);
            assert(missing_block_reqs(blocks, from, to)[i] == block_request(low));
            assert(missing_block_reqs(blocks, from, to)[j] == block_request(last));
        }
    }
}

proof fn missing_is_a_block(blocks: Map<u64, Set<Seq<u8>>>, from: u64, to: u64, i: int) -> (low: u64)
    requires
        0 <= i < missing_block_reqs(blocks, from, to).len(),
    ensures
        from <= low < to,
        !blocks.contains_key(low),
        missing_block_reqs(blocks, from, to)[i] == block_request(low),
    decreases to - from,
{
    let last = (to - 1) as u64;
    if i < missing_block_reqs(blocks, from, last).len() {
        missing_is_a_block(blocks, from, last, i)
    } else {
        last
    }
}

/// A turn does nothing but ask for the chain, ask for missing blocks, answer the block that was kept,
/// and propose a block: each at most once, and each only when it is called for.
pub proof fn turn_does_nothing_else(
    state: HandlerView,
    now: u64,
    stamp: u64,
    after: HandlerView,
    actions: Seq<ActionView>,
)
    requires
        state.history.max_height < u64::MAX,
        state.tasks_step(now, stamp, after, actions),
    ensures
        ({
            let chain: nat = if state.chain_id is None {
                1
            } else {
                0
            };
            let missing: nat = if state.history.is_init {
                0
            } else {
                state.ask_step(true, now, stamp).actions.len()
            };
            let verdict: nat = if state.chain_id is Some && state.history.is_init
                && !state.is_snapshot && (state.cache_block_req matches Some(req) && req.id >> 16
                == state.history.max_height + 1) {
                1
            } else {
                0
            };
            let proposal: nat = if state.is_need_proposal_new_block {
                1
            } else {
                0
            };
            actions.len() == chain + missing + verdict + proposal
        }),
{
}

/// A turn proposes a block, last of all, exactly if one is owed: on the highest block seen, with the
/// limits of the chain, but with no room for transactions if the node is not ready.
pub proof fn turn_proposes_what_is_owed(
    state: HandlerView,
    now: u64,
    stamp: u64,
    after: HandlerView,
    actions: Seq<ActionView>,
)
    requires
        state.tasks_step(now, stamp, after, actions),
    ensures
        !after.is_need_proposal_new_block,
        state.is_need_proposal_new_block ==> {
            &&& actions.len() > 0
            &&& actions.last() == (ActionView::ProposeTxList {
                height: state.history.max_height as usize,
                block_gas_limit: if state.chain_id is Some && state.history.is_init
                    && !state.is_snapshot {
                    state.block_gas_limit
                } else {
                    0
                },
                account_gas_limit: state.account_gas_limit,
                check_quota: state.check_quota,
            })
        },
        !state.is_need_proposal_new_block ==> forall|i: int|
            0 <= i < actions.len() ==> !((#[trigger] actions[i]) is ProposeTxList),
{
    let lack = state.lack_step(now, stamp);
    let (checked, verdict) = choose|checked: HandlerView, verdict: Seq<ActionView>|
        {
            &&& #[trigger] lack.after.kept_block_step(checked, verdict)
            &&& after == checked.proposal_step().after
            &&& actions == lack.actions + verdict + checked.proposal_step().actions
        };
    only_blocks_are_asked_for(
        state.history_hashes,
        state.history.min_height,
        state.history.max_height,
    );
    if state.is_need_proposal_new_block {
        assert(actions.last() == checked.proposal_step().actions[0]);
    }
}

/// After a block of a new height, the next turn proposes a block on it, with exactly the limits that
/// the block brought, and the turn after that proposes none.
pub proof fn new_height_is_proposed_with_its_limits(
    state: HandlerView,
    block: BlockTxHashesView,
    now: u64,
    stamp: u64,
    after: HandlerView,
    actions: Seq<ActionView>,
)
    requires
        state.well_formed(),
        block.height > state.history.max_height || state.history.max_height == 0 && block.height
            == 0,
        state.block_hashes_step(block).after.tasks_step(now, stamp, after, actions),
    ensures
        !after.is_need_proposal_new_block,
        actions.len() > 0,
        actions.last() matches ActionView::ProposeTxList {
            height,
            block_gas_limit,
            account_gas_limit,
            check_quota,
        } && {
            &&& height == block.height as usize
            &&& account_gas_limit == block.account_gas_limit
            &&& check_quota == block.check_quota
            &&& block_gas_limit == if after.is_ready() {
                block.block_gas_limit
            } else {
                0
            }
        },
{
    let known = state.block_hashes_step(block).after;
    known_block_is_recorded(state, block);
    record_is_as_described(state.history, block.height);
    turn_proposes_what_is_owed(known, now, stamp, after, actions);
    tasks_change_little(known, now, stamp, after, actions);
}

/// A turn answers the block that was kept exactly if the node is ready and the block has become the
/// next one: under the id of the request, with the outcome for its transactions; and then no longer
/// keeps it. It answers no other.
pub proof fn turn_answers_the_kept_block(
    state: HandlerView,
    now: u64,
    stamp: u64,
    after: HandlerView,
    actions: Seq<ActionView>,
    answer: OutMessageView,
)
    requires
        state.history.max_height < u64::MAX,
        state.tasks_step(now, stamp, after, actions),
        answer is VerifyBlockResp,
    ensures
        ({
            let is_due = state.chain_id is Some && state.history.is_init && !state.is_snapshot && (
            state.cache_block_req matches Some(req) && req.id >> 16 == state.history.max_height + 1);
            let sent = ActionView::Publish {
                key: RoutingKey {
                    sub_module: SubModules::Auth,
                    msg_type: MsgType::VerifyBlockResp,
                },
                message: answer,
            };
            &&& actions.contains(sent) <==> is_due && answer == (OutMessageView::VerifyBlockResp {
                id: state.cache_block_req->0.id,
                ret: state.block_ret(state.cache_block_req->0.reqs),
            })
            &&& after.cache_block_req == if is_due {
                None
            } else {
                state.cache_block_req
            }
        }),
{
    broadcast use vstd::seq_lib::group_seq_properties;

    let sent = ActionView::Publish {
        key: RoutingKey { sub_module: SubModules::Auth, msg_type: MsgType::VerifyBlockResp },
        message: answer,
    };
    let lack = state.lack_step(now, stamp);
    let (checked, verdict) = choose|checked: HandlerView, verdict: Seq<ActionView>|
        {
            &&& #[trigger] lack.after.kept_block_step(checked, verdict)
            &&& after == checked.proposal_step().after
            &&& actions == lack.actions + verdict + checked.proposal_step().actions
        };
    only_blocks_are_asked_for(
        state.history_hashes,
        state.history.min_height,
        state.history.max_height,
    );
    assert(!lack.actions.contains(sent));
    assert(!checked.proposal_step().actions.contains(sent));
    if lack.after.kept_block_is_due() {
        let reqs = state.cache_block_req->0.reqs;
        let taken = HandlerView { cache_block_req: None, ..lack.after };
        kept_block_has_no_bearing(lack.after, reqs);
        stamp_has_no_bearing(state, lack.after, reqs);
        assert(lack.after.unknown(reqs) == taken.unknown(reqs));
        assert(lack.after.unknown(reqs) == state.unknown(reqs));
        assert(taken.block_ret(reqs) == state.block_ret(reqs));
        assert(verdict.len() == 1);
        if answer == (OutMessageView::VerifyBlockResp {
            id: state.cache_block_req->0.id,
            ret: state.block_ret(reqs),
        }) {
            assert(verdict[0] == sent);
        }
    }
}

/// When missing blocks were last asked for has no bearing on the checks.
proof fn stamp_has_no_bearing(
    state: HandlerView,
    stamped: HandlerView,
    reqs: Seq<VerifyTxReqView>,
)
    requires
        stamped == (HandlerView {
            history: HistoryView {
                last_timestamp: stamped.history.last_timestamp,
                ..state.history
            },
            ..state
        }),
    ensures
        stamped.first_failure(reqs) == state.first_failure(reqs),
        stamped.contradicts(reqs) == state.contradicts(reqs),
    decreases reqs.len(),
{
    if reqs.len() > 0 {
        stamp_has_no_bearing(state, stamped, reqs.drop_first());
        assert(stamped.tx_req_ret(reqs.first()) == state.tx_req_ret(reqs.first()));
    }
    assert forall|i: int| 0 <= i < reqs.len() implies stamped.contradicts_tx(#[trigger] reqs[i])
        == state.contradicts_tx(reqs[i]) by {}
}

/// What a step of a snapshot is answered, and what it changes: the beginning suspends the service and
/// the end resumes it, the end asks for the block of the restored height, and clearing empties the
/// pool and forgets signatures, heights, blocks and the black list. The other steps do nothing.
pub proof fn snapshot_steps_do(state: HandlerView, req: SnapshotReq)
    ensures
        ({
            let step = state.snapshot_step(req);
            let answer = |resp: Resp|
                ActionView::Publish {
                    key: RoutingKey {
                        sub_module: SubModules::Auth,
                        msg_type: MsgType::SnapshotResp,
                    },
                    message: OutMessageView::SnapshotResp(SnapshotResp { resp, flag: true }),
                };
            match req.cmd {
                Cmd::Snapshot => step.after == state && step.actions.len() == 0,
                Cmd::Restore => step.after == state && step.actions.len() == 0,
                Cmd::Begin => {
                    &&& step.after == (HandlerView { is_snapshot: true, ..state })
                    &&& step.actions.len() == 1
                    &&& step.actions[0] == answer(Resp::BeginAck)
                },
                Cmd::End => {
                    &&& step.after == (HandlerView { is_snapshot: false, ..state })
                    &&& step.actions.len() == 2
                    &&& step.actions[0] == (ActionView::Publish {
                        key: RoutingKey {
                            sub_module: SubModules::Auth,
                            msg_type: MsgType::BlockTxHashesReq,
                        },
                        message: OutMessageView::BlockTxHashesReq { height: req.end_height },
                    })
                    &&& step.actions[1] == answer(Resp::EndAck)
                },
                Cmd::Clear => {
                    &&& step.actions.len() == 2
                    &&& step.actions[0] == ActionView::ClearPool
                    &&& step.actions[1] == answer(Resp::ClearAck)
                    &&& step.after.cache.len() == 0
                    &&& forall|h: u64| !step.after.history.heights.contains(h)
                    &&& step.after.history.max_height == 0
                    &&& step.after.history.min_height == 0
                    &&& !step.after.history.is_init
                    &&& step.after.history.last_timestamp == 0
                    &&& step.after.cache_block_req is None
                    &&& forall|h: u64| !step.after.history_hashes.contains_key(h)
                    &&& forall|account: Seq<u8>| !step.after.black_list.contains_key(account)
                    &&& step.after == (HandlerView {
                        cache: step.after.cache,
                        history: step.after.history,
                        cache_block_req: None,
                        history_hashes: step.after.history_hashes,
                        black_list: step.after.black_list,
                        ..state
                    })
                },
            }
        }),
{
}

/// A message under a key that is not one of the seven that the service heeds changes nothing and
/// leads to nothing.
pub proof fn other_keys_are_ignored(
    state: HandlerView,
    rtkey: RoutingKey,
    message: InMessageView,
    pool_len: nat,
    after: HandlerView,
    actions: Seq<ActionView>,
)
    requires
        state.message_step(rtkey, message, pool_len, after, actions),
        match rtkey.sub_module {
            SubModules::Chain => rtkey.msg_type != MsgType::BlockTxHashes,
            SubModules::Executor => rtkey.msg_type != MsgType::BlackList && rtkey.msg_type
                != MsgType::Miscellaneous,
            SubModules::Consensus => rtkey.msg_type != MsgType::VerifyBlockReq,
            SubModules::Net => rtkey.msg_type != MsgType::Request,
            SubModules::Jsonrpc => rtkey.msg_type != MsgType::RequestNewTxBatch,
            SubModules::Snapshot => rtkey.msg_type != MsgType::SnapshotReq,
            SubModules::Auth | SubModules::Synchronizer | SubModules::Other => true,
        },
    ensures
        after == state,
        actions.len() == 0,
{
}

/// What each message that the service heeds leads to, by its key: a request is that of a client of
/// this node exactly if it comes from `Jsonrpc`, and the chain is the one that the message names.
pub proof fn messages_reach_their_task(
    state: HandlerView,
    block: BlockTxHashesView,
    news: BlackListView,
    block_req: VerifyBlockReqView,
    request: RequestView,
    chain_id: u32,
    snapshot: SnapshotReq,
    pool_len: nat,
    after: HandlerView,
    actions: Seq<ActionView>,
)
    ensures
        ({
            let under = |sub_module: SubModules, msg_type: MsgType, message: InMessageView|
                state.message_step(
                    RoutingKey { sub_module, msg_type },
                    message,
                    pool_len,
                    after,
                    actions,
                );
            &&& under(
                SubModules::Chain,
                MsgType::BlockTxHashes,
                InMessageView::BlockTxHashes(block),
            ) <==> after == state.block_hashes_step(block).after && actions
                == state.block_hashes_step(block).actions
            &&& under(SubModules::Executor, MsgType::BlackList, InMessageView::BlackList(news))
                <==> after == state.black_list_after(news) && actions.len() == 0
            &&& under(
                SubModules::Consensus,
                MsgType::VerifyBlockReq,
                InMessageView::VerifyBlockReq(block_req),
            ) <==> state.verify_block_step(block_req, after, actions)
            &&& under(SubModules::Net, MsgType::Request, InMessageView::Request(request))
                <==> after == state.request_step(false, request, pool_len).after && actions
                == state.request_step(false, request, pool_len).actions
            &&& under(
                SubModules::Jsonrpc,
                MsgType::RequestNewTxBatch,
                InMessageView::Request(request),
            ) <==> after == state.request_step(true, request, pool_len).after && actions
                == state.request_step(true, request, pool_len).actions
            &&& under(
                SubModules::Executor,
                MsgType::Miscellaneous,
                InMessageView::Miscellaneous { chain_id },
            ) <==> after == (HandlerView { chain_id: Some(chain_id), ..state }) && actions.len()
                == 0
            &&& under(
                SubModules::Snapshot,
                MsgType::SnapshotReq,
                InMessageView::SnapshotReq(snapshot),
            ) <==> after == state.snapshot_step(snapshot).after && actions
                == state.snapshot_step(snapshot).actions
        }),
{
    assert(actions.len() == 0 ==> actions =~= Seq::empty());
}

/// A report takes one from the credit of the account that is reported, from three down to the one
/// that forbids, gives a new account its credit, and touches no other account.
pub proof fn one_report_does(black_list: Map<Seq<u8>, i8>, account: Seq<u8>, other: Seq<u8>)
    ensures
        ({
            let after = reported_once(black_list, account);
            &&& after.contains_key(account)
            &&& !black_list.contains_key(account) ==> after[account] == 3
            &&& black_list.contains_key(account) && black_list[account] >= 0 ==> after[account]
                == black_list[account] - 1
            &&& black_list.contains_key(account) && black_list[account] < 0 ==> after[account]
                == black_list[account]
            &&& other != account ==> after.contains_key(other) == black_list.contains_key(other)
            &&& other != account && black_list.contains_key(other) ==> after[other]
                == black_list[other]
        }),
{
}

/// News of the black list touch nothing else; accounts that are neither cleared nor reported keep
/// their credit, and reports count one by one, after the clearing.
pub proof fn news_of_the_black_list_do(state: HandlerView, news: BlackListView, account: Seq<u8>)
    ensures
        ({
            let after = state.black_list_after(news);
            let reported_in = |accounts: Seq<Seq<u8>>|
                state.black_list_after(
                    BlackListView { clear_list: news.clear_list, black_list: accounts },
                );
            &&& after == (HandlerView { black_list: after.black_list, ..state })
            &&& news.black_list.len() == 0 ==> {
                &&& after.black_list.contains_key(account) <==> state.black_list.contains_key(account)
                    && !news.clear_list.contains(account)
                &&& after.black_list.contains_key(account) ==> after.black_list[account]
                    == state.black_list[account]
            }
            &&& news.black_list.len() > 0 ==> after.black_list == reported_once(
                reported_in(news.black_list.drop_last()).black_list,
                news.black_list.last(),
            )
        }),
{
}

/// The keys that the service heeds, and the message that each announces.
pub proof fn keys_announce_their_messages(rtkey: RoutingKey, message: InMessageView)
    ensures
        ({
            let under = |sub_module: SubModules, msg_type: MsgType|
                rtkey.sub_module == sub_module && rtkey.msg_type == msg_type;
            let blocks = under(SubModules::Chain, MsgType::BlockTxHashes);
            let black_list = under(SubModules::Executor, MsgType::BlackList);
            let block_req = under(SubModules::Consensus, MsgType::VerifyBlockReq);
            let request = under(SubModules::Net, MsgType::Request) || under(
                SubModules::Jsonrpc,
                MsgType::RequestNewTxBatch,
            );
            let chain = under(SubModules::Executor, MsgType::Miscellaneous);
            let snapshot = under(SubModules::Snapshot, MsgType::SnapshotReq);
            &&& is_expected(rtkey) <==> blocks || black_list || block_req || request || chain
                || snapshot
            &&& fits_key(rtkey, message) <==> {
                &&& blocks ==> message is BlockTxHashes
                &&& black_list ==> message is BlackList
                &&& block_req ==> message is VerifyBlockReq
                &&& request ==> message is Request
                &&& chain ==> message is Miscellaneous
                &&& snapshot ==> message is SnapshotReq
            }
        }),
{
}

/// A request for new transactions can be dealt with unless it is looked into and there is no next
/// height, or a transaction hash or a hash whose signature is to be checked has another length than a
/// hash; of transactions in a batch that share a hash only the last is checked.
pub proof fn proper_requests_can_be_dealt_with(
    state: HandlerView,
    request: RequestView,
    pool_len: nat,
)
    ensures
        ({
            let txs = txs_of(request);
            let looks = !(request is Other) && state.chain_id is Some && state.history.is_init
                && !state.is_snapshot && (state.tx_pool_limit == 0 || txs.len() + pool_len
                <= state.tx_pool_limit);
            state.can_deal_with_request(request, pool_len) <==> looks ==> {
                &&& state.history.max_height < u64::MAX
                &&& forall|i: int|
                    0 <= i < txs.len() ==> {
                        let req = (#[trigger] txs[i]).un_tx.verify_req;
                        &&& req.tx_hash.len() == 32
                        &&& lookup(state.cache, req.tx_hash) is None && (forall|j: int|
                            i < j < txs.len() ==> (#[trigger] txs[j]).un_tx.verify_req.tx_hash
                                != req.tx_hash) ==> req.hash.len() == 32
                    }
            }
        }),
{
    let txs = txs_of(request);
    assert forall|i: int| 0 <= i < txs.len() implies (#[trigger] is_latest(txs, i) <==> forall|
        j: int,
    |
        i < j < txs.len() ==> (#[trigger] txs[j]).un_tx.verify_req.tx_hash
            != txs[i].un_tx.verify_req.tx_hash) by {
        if is_latest(txs, i) {
            assert forall|j: int| i < j < txs.len() implies (
            #[trigger] txs[j]).un_tx.verify_req.tx_hash != txs[i].un_tx.verify_req.tx_hash by {
                assert(hash_of(txs[j]) != hash_of(txs[i]));
            }
        }
    }
    match request {
        RequestView::Batch(l) => {
            if state.is_readable_batch(l) {
                assert forall|i: int| 0 <= i < txs.len() implies {
                    let req = (#[trigger] txs[i]).un_tx.verify_req;
                    &&& req.tx_hash.len() == 32
                    &&& lookup(state.cache, req.tx_hash) is None && (forall|j: int|
                        i < j < txs.len() ==> (#[trigger] txs[j]).un_tx.verify_req.tx_hash
                            != req.tx_hash) ==> req.hash.len() == 32
                } by {
                    assert(state.is_readable_tx(l[i], is_latest(l, i)));
                }
            } else {
                let i = choose|i: int|
                    0 <= i < l.len() && !state.is_readable_tx(#[trigger] l[i], is_latest(l, i));
                assert(txs[i] == l[i]);
            }
        },
        RequestView::UnTx(tx) => {
            assert(txs[0] == tx);
            assert(is_latest(txs, 0));
        },
        RequestView::Other => {},
    }
}

/// A request to check a block whose hashes all have the length of a hash can be dealt with where there
/// is a next height, and so can any that is empty; the tasks of a turn can be done where the block that
/// is kept is such a one, or none is.
pub proof fn proper_blocks_can_be_dealt_with(state: HandlerView, req: VerifyBlockReqView)
    requires
        forall|i: int|
            0 <= i < req.reqs.len() ==> (#[trigger] req.reqs[i]).tx_hash.len() == 32
                && req.reqs[i].hash.len() == 32,
    ensures
        state.can_deal_with_block(req) <==> req.reqs.len() == 0 || state.history.max_height
            < u64::MAX,
        state.history.max_height < u64::MAX && state.cache_block_req == Some(req)
            ==> state.can_run_tasks(),
        state.cache_block_req is None ==> state.can_run_tasks(),
        state.chain_id is None || !state.history.is_init || state.is_snapshot
            ==> state.can_run_tasks(),
{
    all_signers_or_a_proper_hash(req.reqs);
}

proof fn all_signers_or_a_proper_hash(reqs: Seq<VerifyTxReqView>)
    requires
        forall|i: int| 0 <= i < reqs.len() ==> (#[trigger] reqs[i]).tx_hash.len() == 32,
    ensures
        first_unsigned(reqs) matches Some(tx_hash) ==> tx_hash.len() == 32,
    decreases reqs.len(),
{
    if reqs.len() > 0 {
        let rest = reqs.drop_first();
        assert(reqs[0].tx_hash.len() == 32);
        assert forall|i: int| 0 <= i < rest.len() implies (#[trigger] rest[i]).tx_hash.len()
            == 32 by {
            assert(rest[i] == reqs[i + 1]);
        }
        all_signers_or_a_proper_hash(rest);
    }
}

/// Messages other than requests can be dealt with exactly if every hash and every address in them has
/// its proper length.
pub proof fn proper_messages_can_be_dealt_with(
    state: HandlerView,
    block: BlockTxHashesView,
    news: BlackListView,
    block_req: VerifyBlockReqView,
    request: RequestView,
    chain_id: u32,
    snapshot: SnapshotReq,
    pool_len: nat,
)
    ensures
        state.can_deal_with(InMessageView::BlockTxHashes(block), pool_len) <==> forall|i: int|
            0 <= i < block.tx_hashes.len() ==> (#[trigger] block.tx_hashes[i]).len() == 32,
        state.can_deal_with(InMessageView::BlackList(news), pool_len) <==> (forall|i: int|
            0 <= i < news.clear_list.len() ==> (#[trigger] news.clear_list[i]).len() == 20) && (
        forall|i: int|
            0 <= i < news.black_list.len() ==> (#[trigger] news.black_list[i]).len() == 20),
        state.can_deal_with(InMessageView::VerifyBlockReq(block_req), pool_len)
            == state.can_deal_with_block(block_req),
        state.can_deal_with(InMessageView::Request(request), pool_len)
            == state.can_deal_with_request(request, pool_len),
        state.can_deal_with((InMessageView::Miscellaneous { chain_id }), pool_len),
        state.can_deal_with(InMessageView::SnapshotReq(snapshot), pool_len),
        state.can_deal_with(InMessageView::Other, pool_len),
{
}

} // verus!
