//! Which transactions pass, said of their fields.

use crate::actions::ActionView;
use crate::crypto::{address_of, is_address_text, lower_hex, recovered_pubkey, strip_0x};
use crate::laws::blocks::good_blocks_are_good_throughout;
use crate::laws::requests::{known_signer, only_checked_txs_are_pooled, txs_of};
use crate::messages::{Crypto, NewTxRequestView, RequestView, Ret, VerifyTxReqView};
use crate::sig_cache::lookup;
use crate::signature::{confirmed_entry, signed_as_claimed, signer_of};
use crate::state::{request_ret, HandlerView};
use vstd::prelude::*;

verus! {

/// A transaction passes exactly if it names the chain of the node, has a nonce of at most 128 bytes
/// and a value of 32 bytes, is valid for one of the next hundred heights, is in no recent block, asks
/// for no more quota than the block has and, where accounts are limited, than its sender has, and its
/// sender is not forbidden.
pub proof fn tx_passes_exactly_if(state: HandlerView, req: VerifyTxReqView, sender: Seq<u8>)
    requires
        state.history.max_height < u64::MAX,
    ensures
        state.tx_ret(req, sender) == Ret::OK <==> {
            &&& state.chain_id == Some(req.chain_id)
            &&& vstd::utf8::encode_utf8(req.nonce).len() <= 128
            &&& req.value.len() == 32
            &&& state.history.max_height < req.valid_until_block <= state.history.max_height + 100
            &&& forall|height: u64| #[trigger]
                state.history_hashes.contains_key(height)
                    ==> !state.history_hashes[height].contains(req.tx_hash)
            &&& req.quota <= state.block_gas_limit
            &&& state.check_quota ==> req.quota
                <= if state.account_gas_limit.specific_gas_limit.contains_key(lower_hex(sender)) {
                state.account_gas_limit.specific_gas_limit[lower_hex(sender)]
            } else {
                state.account_gas_limit.common_gas_limit
            }
            &&& state.black_list.contains_key(sender) ==> state.black_list[sender] >= 0
        },
{
}

/// The rule that a transaction breaks is the one that is reported, and of several the first: the
/// chain, the nonce, the value, the lifetime, the novelty, the quota, the black list.
pub proof fn first_broken_rule_is_reported(
    state: HandlerView,
    req: VerifyTxReqView,
    sender: Seq<u8>,
)
    requires
        state.history.max_height < u64::MAX,
    ensures
        ({
            let chain = state.chain_id == Some(req.chain_id);
            let nonce = vstd::utf8::encode_utf8(req.nonce).len() <= 128;
            let value = req.value.len() == 32;
            let lifetime = state.history.max_height < req.valid_until_block
                <= state.history.max_height + 100;
            let known = exists|height: u64| #[trigger]
                state.history_hashes.contains_key(height) && state.history_hashes[height].contains(
                    req.tx_hash,
                );
            let limit = if state.account_gas_limit.specific_gas_limit.contains_key(
                lower_hex(sender),
            ) {
                state.account_gas_limit.specific_gas_limit[lower_hex(sender)]
            } else {
                state.account_gas_limit.common_gas_limit
            };
            let quota = req.quota <= state.block_gas_limit && (state.check_quota ==> req.quota
                <= limit);
            let forbidden = state.black_list.contains_key(sender) && state.black_list[sender] < 0;
            let ret = state.tx_ret(req, sender);
            &&& ret == Ret::BadChainId <==> !chain
            &&& ret == Ret::InvalidNonce <==> chain && !nonce
            &&& ret == Ret::InvalidValue <==> chain && nonce && !value
            &&& ret == Ret::InvalidUntilBlock <==> chain && nonce && value && !lifetime
            &&& ret == Ret::Dup <==> chain && nonce && value && lifetime && known
            &&& ret == Ret::QuotaNotEnough <==> chain && nonce && value && lifetime && !known
                && !quota
            &&& ret == Ret::Forbidden <==> chain && nonce && value && lifetime && !known && quota
                && forbidden
            &&& ret == Ret::OK <==> chain && nonce && value && lifetime && !known && quota
                && !forbidden
        }),
{
}

/// A transaction that names its signer is checked for that signer's account, and for no other.
pub proof fn tx_is_checked_for_its_signer(state: HandlerView, req: VerifyTxReqView)
    ensures
        state.tx_req_ret(req) == state.tx_ret(req, address_of(req.signer)),
{
}

/// An account is forbidden exactly if it is on the black list with no credit left.
pub proof fn forbidden_means_no_credit(state: HandlerView, sender: Seq<u8>)
    ensures
        state.black_list_ret(sender) == (if state.black_list.contains_key(sender)
            && state.black_list[sender] < 0 {
            Ret::Forbidden
        } else {
            Ret::OK
        }),
{
}

/// What is checked before a transaction is taken up: a forbidden sender and a recipient that is no
/// address are refused first, and then whatever the checks of the transaction find.
pub proof fn admission_is_decided_in_order(
    state: HandlerView,
    request: NewTxRequestView,
    sender: Seq<u8>,
)
    ensures
        ({
            let forbidden = state.black_list.contains_key(sender) && state.black_list[sender] < 0;
            let to = strip_0x(request.un_tx.to);
            let good_recipient = to.len() == 0 || is_address_text(to);
            &&& forbidden ==> state.admission_ret(request, sender) == Ret::Forbidden
            &&& !forbidden && !good_recipient ==> state.admission_ret(request, sender)
                == Ret::InvalidValue
            &&& !forbidden && good_recipient ==> state.admission_ret(request, sender)
                == state.tx_ret(request.un_tx.verify_req, sender)
        }),
{
}

/// A recipient is good exactly if it is empty or an address, with `0x` before it or without.
pub proof fn recipients_are_nobody_or_addresses(request: NewTxRequestView)
    ensures
        request_ret(request) == Ret::OK <==> strip_0x(request.un_tx.to).len() == 0
            || is_address_text(strip_0x(request.un_tx.to)),
        request_ret(request) != Ret::OK ==> request_ret(request) == Ret::InvalidValue,
{
}

/// Every transaction that is handed to the pool obeys all rules, each said of its fields, for the
/// account of the signer that it is handed over with.
pub proof fn pooled_txs_obey_the_rules(
    state: HandlerView,
    is_local: bool,
    request: RequestView,
    pool_len: nat,
    action: ActionView,
)
    requires
        state.history.max_height < u64::MAX,
        state.request_step(is_local, request, pool_len).actions.contains(action),
        action is AddToPool,
    ensures
        ({
            let req = action->AddToPool_request.un_tx.verify_req;
            let to = strip_0x(action->AddToPool_request.un_tx.to);
            let sender = address_of(action->AddToPool_signed_tx.signer);
            &&& txs_of(request).contains(action->AddToPool_request)
            &&& action->AddToPool_signed_tx.transaction_with_sig
                == action->AddToPool_request.un_tx
            &&& action->AddToPool_signed_tx.tx_hash == req.tx_hash
            &&& lookup(state.cache, req.tx_hash) == Some(
                Some(action->AddToPool_signed_tx.signer),
            ) || lookup(state.cache, req.tx_hash) is None && req.signature.len() == 65 && req.crypto
                == Crypto::SECP && recovered_pubkey(req.signature, req.hash) == Some(
                action->AddToPool_signed_tx.signer,
            )
            &&& state.chain_id == Some(req.chain_id)
            &&& !state.is_snapshot && state.history.is_init
            &&& vstd::utf8::encode_utf8(req.nonce).len() <= 128
            &&& req.value.len() == 32
            &&& state.history.max_height < req.valid_until_block <= state.history.max_height + 100
            &&& forall|height: u64| #[trigger]
                state.history_hashes.contains_key(height)
                    ==> !state.history_hashes[height].contains(req.tx_hash)
            &&& req.quota <= state.block_gas_limit
            &&& state.check_quota ==> req.quota
                <= if state.account_gas_limit.specific_gas_limit.contains_key(lower_hex(sender)) {
                state.account_gas_limit.specific_gas_limit[lower_hex(sender)]
            } else {
                state.account_gas_limit.common_gas_limit
            }
            &&& state.black_list.contains_key(sender) ==> state.black_list[sender] >= 0
            &&& to.len() == 0 || is_address_text(to)
            &&& state.tx_pool_limit == 0 || txs_of(request).len() + pool_len <= state.tx_pool_limit
        }),
{
    only_checked_txs_are_pooled(state, is_local, request, pool_len, action);
    let tx = action->AddToPool_request;
    let signer = known_signer(state, tx)->0;
    tx_passes_exactly_if(state, tx.un_tx.verify_req, address_of(signer));
    admission_is_decided_in_order(state, tx, address_of(signer));
    signer_comes_from_the_signature(tx.un_tx.verify_req);
}

/// Every transaction of a block that is found good obeys all rules, each said of its fields, for the
/// account of the signer that it names.
pub proof fn txs_of_good_blocks_obey_the_rules(
    state: HandlerView,
    reqs: Seq<VerifyTxReqView>,
    i: int,
)
    requires
        state.history.max_height < u64::MAX,
        state.block_ret(reqs) == Ret::OK,
        0 <= i < reqs.len(),
    ensures
        ({
            let req = reqs[i];
            let sender = address_of(req.signer);
            &&& req.signer.len() != 0
            &&& lookup(state.cache, req.tx_hash) == Some(Some(req.signer)) || lookup(
                state.cache,
                req.tx_hash,
            ) is None && req.signature.len() == 65 && req.crypto == Crypto::SECP
                && recovered_pubkey(req.signature, req.hash) == Some(req.signer)
            &&& state.chain_id == Some(req.chain_id)
            &&& vstd::utf8::encode_utf8(req.nonce).len() <= 128
            &&& req.value.len() == 32
            &&& state.history.max_height < req.valid_until_block <= state.history.max_height + 100
            &&& forall|height: u64| #[trigger]
                state.history_hashes.contains_key(height)
                    ==> !state.history_hashes[height].contains(req.tx_hash)
            &&& req.quota <= state.block_gas_limit
            &&& state.check_quota ==> req.quota
                <= if state.account_gas_limit.specific_gas_limit.contains_key(lower_hex(sender)) {
                state.account_gas_limit.specific_gas_limit[lower_hex(sender)]
            } else {
                state.account_gas_limit.common_gas_limit
            }
            &&& state.black_list.contains_key(sender) ==> state.black_list[sender] >= 0
        }),
{
    good_blocks_are_good_throughout(state, reqs);
    tx_passes_exactly_if(state, reqs[i], address_of(reqs[i].signer));
    signer_comes_from_the_signature(reqs[i]);
}

/// A transaction has the signer that its signature over its hash gives, and only if the signature is
/// of the one known scheme and of its length.
pub proof fn signer_comes_from_the_signature(req: VerifyTxReqView)
    ensures
        signer_of(req) is Some ==> req.signature.len() == 65 && req.crypto == Crypto::SECP,
        req.signature.len() == 65 && req.crypto == Crypto::SECP ==> signer_of(req)
            == recovered_pubkey(req.signature, req.hash),
        signed_as_claimed(req) <==> signer_of(req) == Some(req.signer),
        confirmed_entry(req).0 == req.tx_hash,
        confirmed_entry(req).1 == Some(req.signer),
{
}

} // verus!
