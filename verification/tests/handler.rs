use cita_crypto::{CreateKey, KeyPair, PrivKey, Sign, Signature};
use cita_services::actions::{
    Action, OutMessage, Response, ResponseContent, SignedTransaction,
};
use cita_services::batch::PendingTx;
use cita_services::crypto::{PUBKEY_BYTES_LEN, SIGNATURE_BYTES_LEN};
use cita_services::handler::request::{pool_result, settle_request};
use cita_services::handler::turn::{expects, message_fits_key};
use cita_services::handler::{verify_request, MsgHandler};
use cita_services::messages::{
    BlackList, BlockTxHashes, Cmd, Crypto, InMessage, NewTxRequest, Request, Resp, Ret, SnapshotReq,
    SnapshotResp, UnverifiedTransaction, VerifyBlockReq, VerifyTxReq,
};
use cita_services::quota::AccountGasLimit;
use cita_services::routing::{MsgType, RoutingKey, SubModules};
use cita_services::signature::{check_signer, verify_tx_sig};
use cita_types::traits::LowerHex;
use cita_types::H256;

const CHAIN: u32 = 7;
const GAS: u64 = 1000;

fn keypair(seed: u8) -> KeyPair {
    KeyPair::from_privkey(PrivKey::from_slice(&[seed; 32])).unwrap()
}

fn pubkey(seed: u8) -> Vec<u8> {
    keypair(seed).pubkey().as_bytes().to_vec()
}

fn address(seed: u8) -> Vec<u8> {
    keypair(seed).address().as_bytes().to_vec()
}

fn sign(seed: u8, hash: [u8; 32]) -> Vec<u8> {
    Signature::sign(keypair(seed).privkey(), &H256::from(hash)).unwrap().0.to_vec()
}

/// What is to be checked of transaction `n`, signed by the key of `seed`.
fn tx(seed: u8, n: u8) -> VerifyTxReq {
    VerifyTxReq {
        valid_until_block: 50,
        hash: vec![n; 32],
        crypto: Crypto::SECP,
        signature: sign(seed, [n; 32]),
        nonce: "nonce".to_string(),
        value: vec![0; 32],
        chain_id: CHAIN,
        quota: 10,
        signer: Vec::new(),
        tx_hash: vec![n; 32],
    }
}

fn named(seed: u8, n: u8) -> VerifyTxReq {
    VerifyTxReq { signer: pubkey(seed), ..tx(seed, n) }
}

fn new_tx(verify_req: VerifyTxReq) -> NewTxRequest {
    let n = verify_req.tx_hash[0];
    NewTxRequest {
        request_id: vec![n],
        un_tx: UnverifiedTransaction { to: String::new(), payload: vec![n, n], verify_req },
    }
}

fn block_hashes(height: u64, tx_hashes: Vec<Vec<u8>>) -> BlockTxHashes {
    BlockTxHashes {
        height,
        tx_hashes,
        block_gas_limit: GAS,
        account_gas_limit: AccountGasLimit::new(),
        check_quota: false,
    }
}

fn handler(tx_pool_limit: usize) -> MsgHandler {
    let mut handler = MsgHandler::new(tx_pool_limit, 100);
    let key = RoutingKey::new(SubModules::Executor, MsgType::Miscellaneous);
    handler.handle_remote_msg(key, InMessage::Miscellaneous { chain_id: CHAIN }, 0);
    handler
}

/// A service that knows its chain and the first block.
fn ready() -> MsgHandler {
    let mut handler = handler(0);
    handler.deal_block_tx_hashes(&block_hashes(0, Vec::new()));
    handler.run_tasks_at(10_000, 10_000);
    assert!(handler.is_ready());
    handler
}

fn failed(n: u8, text: &str) -> Action {
    Action::Publish {
        key: RoutingKey::new(SubModules::Auth, MsgType::Response),
        message: OutMessage::Response(Response {
            request_id: vec![n],
            content: ResponseContent::TxError { error_msg: text.to_string() },
        }),
    }
}

fn succeeded(n: u8, text: &str) -> Action {
    Action::Publish {
        key: RoutingKey::new(SubModules::Auth, MsgType::Response),
        message: OutMessage::Response(Response {
            request_id: vec![n],
            content: ResponseContent::TxState { tx_hash: [n; 32], status: text.to_string() },
        }),
    }
}

fn added(request: NewTxRequest, signer: Vec<u8>) -> Action {
    Action::AddToPool {
        signed_tx: SignedTransaction {
            transaction_with_sig: request.un_tx.clone(),
            signer,
            tx_hash: request.un_tx.verify_req.tx_hash.clone(),
        },
        request,
    }
}

fn verdict(id: u64, ret: Ret) -> Action {
    Action::Publish {
        key: RoutingKey::new(SubModules::Auth, MsgType::VerifyBlockResp),
        message: OutMessage::VerifyBlockResp { id, ret },
    }
}

fn asked_for(height: u64) -> Action {
    Action::Publish {
        key: RoutingKey::new(SubModules::Auth, MsgType::BlockTxHashesReq),
        message: OutMessage::BlockTxHashesReq { height },
    }
}

fn asked_for_chain() -> Action {
    Action::Publish {
        key: RoutingKey::new(SubModules::Auth, MsgType::MiscellaneousReq),
        message: OutMessage::MiscellaneousReq,
    }
}

fn acked(resp: Resp) -> Action {
    Action::Publish {
        key: RoutingKey::new(SubModules::Auth, MsgType::SnapshotResp),
        message: OutMessage::SnapshotResp(SnapshotResp { resp, flag: true }),
    }
}

fn single(handler: &mut MsgHandler, req: VerifyTxReq) -> Vec<Action> {
    handler.deal_request(true, Request::UnTx(new_tx(req)), 0)
}

fn block_req(height: u64, reqs: Vec<VerifyTxReq>) -> VerifyBlockReq {
    VerifyBlockReq { id: height << 16, reqs }
}

#[test]
fn lengths_are_those_of_the_signature_scheme() {
    assert_eq!(SIGNATURE_BYTES_LEN, cita_crypto::SIGNATURE_BYTES_LEN);
    assert_eq!(PUBKEY_BYTES_LEN, cita_crypto::PUBKEY_BYTES_LEN);
}

#[test]
fn the_signer_is_recovered() {
    assert_eq!(verify_tx_sig(&tx(1, 5)), Ok(pubkey(1)));
    assert_eq!(verify_tx_sig(&tx(2, 5)), Ok(pubkey(2)));
}

#[test]
fn a_signature_over_another_hash_gives_another_signer() {
    let req = VerifyTxReq { hash: vec![6; 32], ..tx(1, 5) };
    assert_ne!(verify_tx_sig(&req), Ok(pubkey(1)));
}

#[test]
fn malformed_signatures_give_no_signer() {
    let mut short = tx(1, 5);
    short.signature.pop();
    assert_eq!(verify_tx_sig(&short), Err(()));
    let mut bad = tx(1, 5);
    bad.signature[64] = 9;
    assert_eq!(verify_tx_sig(&bad), Err(()));
    let other = VerifyTxReq { crypto: Crypto::Other, ..tx(1, 5) };
    assert_eq!(verify_tx_sig(&other), Err(()));
}

#[test]
fn only_the_named_signer_is_confirmed() {
    assert_eq!(check_signer(&named(1, 5)), Some(([5; 32], pubkey(1))));
    let wrong = VerifyTxReq { signer: pubkey(2), ..tx(1, 5) };
    assert_eq!(check_signer(&wrong), None);
}

#[test]
fn recipients_are_addresses_or_nobody() {
    let mut request = new_tx(tx(1, 5));
    for good in [
        "",
        "0x",
        "0x0123456789abcdef0123456789ABCDEF01234567",
        "0123456789abcdef0123456789abcdef01234567",
        "0x 0123456789abcdef0123456789abcdef01234567",
    ] {
        request.un_tx.to = good.to_string();
        assert_eq!(verify_request(&request), Ret::OK, "{}", good);
    }
    for bad in [
        "0x1",
        "x",
        "0x0123456789abcdef0123456789abcdef0123456",
        "0x0123456789abcdef0123456789abcdef012345678",
        "0x0123456789abcdef0123456789abcdef0123456g",
    ] {
        request.un_tx.to = bad.to_string();
        assert_eq!(verify_request(&request), Ret::InvalidValue, "{}", bad);
    }
}

#[test]
fn a_new_service_is_not_ready() {
    let mut handler = MsgHandler::new(0, 100);
    assert!(!handler.is_ready());
    assert_eq!(handler.max_height(), 0);
    assert_eq!(single(&mut handler, tx(1, 5)), vec![failed(5, "NotReady")]);
    let batch = || Request::Batch(vec![new_tx(tx(1, 5)), new_tx(tx(1, 6))]);
    assert_eq!(
        handler.deal_request(true, batch(), 0),
        vec![failed(5, "NotReady"), failed(6, "NotReady")]
    );
    assert_eq!(handler.deal_request(false, batch(), 0), vec![]);
}

#[test]
fn a_ready_service_takes_up_good_transactions() {
    let mut handler = ready();
    assert_eq!(single(&mut handler, tx(1, 5)), vec![added(new_tx(tx(1, 5)), pubkey(1))]);
    assert_eq!(handler.get_ret_from_cache(&[5; 32]), Some(Some(pubkey(1))));
    // the second time, the signer is remembered
    assert_eq!(single(&mut handler, tx(1, 5)), vec![added(new_tx(tx(1, 5)), pubkey(1))]);
}

#[test]
fn the_pool_result_is_reported_and_passed_on() {
    let request = new_tx(tx(1, 5));
    assert_eq!(
        pool_result(true, request.clone(), true),
        vec![succeeded(5, "OK"), Action::ForwardRequest { request: request.clone() }]
    );
    assert_eq!(pool_result(true, request.clone(), false), vec![succeeded(5, "Dup")]);
    assert_eq!(
        pool_result(false, request.clone(), true),
        vec![Action::ForwardRequest { request: request.clone() }]
    );
    assert_eq!(pool_result(false, request, false), vec![]);
}

#[test]
fn a_settled_request_is_pooled_or_refused() {
    let request = new_tx(tx(1, 5));
    assert_eq!(
        settle_request(false, &request, pubkey(1), Ret::OK),
        vec![added(request.clone(), pubkey(1))]
    );
    assert_eq!(
        settle_request(true, &request, pubkey(1), Ret::Dup),
        vec![failed(5, "Dup")]
    );
    assert_eq!(settle_request(false, &request, pubkey(1), Ret::Dup), vec![]);
}

#[test]
fn a_full_pool_refuses() {
    let mut handler = handler(3);
    handler.deal_block_tx_hashes(&block_hashes(0, Vec::new()));
    assert!(handler.is_flow_control(1, 3));
    assert!(!handler.is_flow_control(1, 2));
    assert!(handler.is_flow_control(usize::MAX, usize::MAX));
    let request = || Request::UnTx(new_tx(tx(1, 5)));
    assert_eq!(handler.deal_request(true, request(), 3), vec![failed(5, "Busy")]);
    assert_eq!(handler.deal_request(false, request(), 3), vec![]);
    let batch = || Request::Batch(vec![new_tx(tx(1, 5)), new_tx(tx(1, 6))]);
    assert_eq!(
        handler.deal_request(true, batch(), 2),
        vec![failed(5, "Busy"), failed(6, "Busy")]
    );
    assert_eq!(handler.deal_request(true, batch(), 1).len(), 2);
}

#[test]
fn a_bad_signature_is_refused_and_remembered() {
    let mut handler = ready();
    let bad = || VerifyTxReq { signature: vec![0; 3], ..tx(1, 5) };
    assert_eq!(handler.deal_request(false, Request::UnTx(new_tx(bad())), 0), vec![]);
    assert_eq!(handler.get_ret_from_cache(&[5; 32]), Some(None));
    // once remembered, even another node is answered
    assert_eq!(
        handler.deal_request(false, Request::UnTx(new_tx(bad())), 0),
        vec![failed(5, "BadSig")]
    );
    assert_eq!(single(&mut handler, bad()), vec![failed(5, "BadSig")]);
}

#[test]
fn the_fields_of_a_transaction_are_checked() {
    let mut handler = ready();
    let chain = VerifyTxReq { chain_id: CHAIN + 1, ..tx(1, 1) };
    assert_eq!(single(&mut handler, chain), vec![failed(1, "BadChainId")]);
    let nonce = VerifyTxReq { nonce: "n".repeat(129), ..tx(1, 2) };
    assert_eq!(single(&mut handler, nonce), vec![failed(2, "InvalidNonce")]);
    let wide = VerifyTxReq { nonce: "\u{e9}".repeat(65), ..tx(1, 2) };
    assert_eq!(single(&mut handler, wide), vec![failed(2, "InvalidNonce")]);
    let value = VerifyTxReq { value: vec![0; 31], ..tx(1, 3) };
    assert_eq!(single(&mut handler, value), vec![failed(3, "InvalidValue")]);
    let old = VerifyTxReq { valid_until_block: 0, ..tx(1, 4) };
    assert_eq!(single(&mut handler, old), vec![failed(4, "InvalidUntilBlock")]);
    let far = VerifyTxReq { valid_until_block: 101, ..tx(1, 4) };
    assert_eq!(single(&mut handler, far), vec![failed(4, "InvalidUntilBlock")]);
    let quota = VerifyTxReq { quota: GAS + 1, ..tx(1, 5) };
    assert_eq!(single(&mut handler, quota), vec![failed(5, "QuotaNotEnough")]);
    let mut recipient = new_tx(tx(1, 6));
    recipient.un_tx.to = "0x1".to_string();
    assert_eq!(
        handler.deal_request(true, Request::UnTx(recipient), 0),
        vec![failed(6, "InvalidValue")]
    );
}

#[test]
fn the_limits_of_the_fields_are_allowed() {
    let mut handler = ready();
    let edge = VerifyTxReq {
        nonce: "n".repeat(128),
        valid_until_block: 100,
        quota: GAS,
        ..tx(1, 5)
    };
    assert_eq!(single(&mut handler, edge).len(), 1);
    let near = VerifyTxReq { valid_until_block: 1, ..tx(1, 6) };
    assert!(matches!(single(&mut handler, near)[0], Action::AddToPool { .. }));
}

#[test]
fn every_outcome_is_reported_by_name() {
    for ret in [
        Ret::OK,
        Ret::BadSig,
        Ret::NotReady,
        Ret::Busy,
        Ret::BadChainId,
        Ret::InvalidNonce,
        Ret::InvalidValue,
        Ret::InvalidUntilBlock,
        Ret::Dup,
        Ret::QuotaNotEnough,
        Ret::Forbidden,
    ] {
        assert_eq!(ret.to_text(), format!("{:?}", ret));
    }
}

#[test]
fn transactions_of_known_blocks_are_duplicates() {
    let mut handler = ready();
    let actions = handler.deal_block_tx_hashes(&block_hashes(1, vec![vec![5; 32], vec![6; 32]]));
    assert_eq!(actions, vec![Action::RemoveFromPool { tx_hashes: vec![[5; 32], [6; 32]] }]);
    assert_eq!(single(&mut handler, tx(1, 5)), vec![failed(5, "Dup")]);
    assert!(matches!(single(&mut handler, tx(1, 7))[0], Action::AddToPool { .. }));
}

#[test]
fn a_block_that_is_known_is_not_replaced() {
    let mut handler = ready();
    handler.deal_block_tx_hashes(&block_hashes(1, vec![vec![5; 32]]));
    handler.deal_block_tx_hashes(&block_hashes(1, vec![vec![6; 32]]));
    assert_eq!(single(&mut handler, tx(1, 5)), vec![failed(5, "Dup")]);
    assert!(matches!(single(&mut handler, tx(1, 6))[0], Action::AddToPool { .. }));
}

#[test]
fn a_transaction_is_not_replayed_within_its_lifetime_nor_after() {
    let mut handler = ready();
    let req = || VerifyTxReq { valid_until_block: 100, ..tx(1, 5) };
    handler.deal_block_tx_hashes(&block_hashes(1, vec![vec![5; 32]]));
    for height in 2..100 {
        handler.deal_block_tx_hashes(&block_hashes(height, Vec::new()));
        assert_eq!(single(&mut handler, req()), vec![failed(5, "Dup")]);
    }
    handler.deal_block_tx_hashes(&block_hashes(100, Vec::new()));
    assert_eq!(single(&mut handler, req()), vec![failed(5, "InvalidUntilBlock")]);
}

#[test]
fn a_new_height_brings_limits_and_one_proposal() {
    let mut handler = ready();
    let mut block = block_hashes(1, Vec::new());
    block.block_gas_limit = 5;
    handler.deal_block_tx_hashes(&block);
    let proposal = |block_gas_limit: u64| Action::ProposeTxList {
        height: 1,
        block_gas_limit,
        account_gas_limit: AccountGasLimit::new(),
        check_quota: false,
    };
    assert_eq!(handler.run_tasks_at(20_000, 20_000), vec![proposal(5)]);
    assert_eq!(handler.run_tasks_at(20_001, 20_001), vec![]);
    // an old block changes neither
    block.block_gas_limit = 77;
    block.height = 0;
    handler.deal_block_tx_hashes(&block);
    assert_eq!(handler.run_tasks_at(20_002, 20_002), vec![]);
    assert!(!handler.verify_tx_quota(6, &pubkey(1)));
    assert!(handler.verify_tx_quota(5, &pubkey(1)));
}

#[test]
fn a_node_that_is_not_ready_proposes_an_empty_block() {
    let mut handler = MsgHandler::new(0, 100);
    handler.deal_block_tx_hashes(&block_hashes(0, Vec::new()));
    assert_eq!(
        handler.run_tasks_at(10_000, 10_000),
        vec![
            asked_for_chain(),
            Action::ProposeTxList {
                height: 0,
                block_gas_limit: 0,
                account_gas_limit: AccountGasLimit::new(),
                check_quota: false,
            },
        ]
    );
}

#[test]
fn missing_blocks_are_asked_for_once_in_an_interval() {
    let mut handler = handler(0);
    handler.deal_block_tx_hashes(&block_hashes(3, Vec::new()));
    handler.deal_block_tx_hashes(&block_hashes(1, Vec::new()));
    let missing = vec![asked_for(0), asked_for(2)];
    assert_eq!(handler.send_block_tx_hashes_req_at(true, 10_000, 10_005), missing);
    assert_eq!(handler.send_block_tx_hashes_req_at(true, 13_004, 13_004), vec![]);
    assert_eq!(handler.send_block_tx_hashes_req_at(false, 13_004, 10_005), missing);
    assert_eq!(handler.send_block_tx_hashes_req_at(true, 13_005, 13_005), missing);
    handler.deal_block_tx_hashes(&block_hashes(0, Vec::new()));
    handler.deal_block_tx_hashes(&block_hashes(2, Vec::new()));
    assert!(handler.is_ready());
    assert_eq!(handler.send_block_tx_hashes_req_at(false, 0, 0), vec![]);
}

#[test]
fn missing_blocks_are_asked_for_now() {
    let mut handler = handler(0);
    handler.deal_block_tx_hashes(&block_hashes(1, Vec::new()));
    assert_eq!(handler.send_block_tx_hashes_req(true), vec![asked_for(0)]);
    assert_eq!(handler.send_block_tx_hashes_req(true), vec![]);
    assert!(handler.can_run_tasks());
    assert_eq!(handler.run_tasks().len(), 1);
}

#[test]
fn the_fifth_report_forbids_and_clearing_lifts_it() {
    let mut handler = ready();
    let report = || BlackList { clear_list: Vec::new(), black_list: vec![address(1)] };
    for _ in 0..4 {
        handler.deal_black_list(&report());
        assert_eq!(handler.verify_black_list(&named(1, 5)), Ret::OK);
    }
    handler.deal_black_list(&report());
    assert_eq!(handler.verify_black_list(&named(1, 5)), Ret::Forbidden);
    assert_eq!(handler.verify_black_list(&named(2, 5)), Ret::OK);
    assert_eq!(single(&mut handler, tx(1, 5)), vec![failed(5, "Forbidden")]);
    handler.deal_black_list(&report());
    assert_eq!(handler.verify_black_list(&named(1, 5)), Ret::Forbidden);
    handler.deal_black_list(&BlackList { clear_list: vec![address(1)], black_list: Vec::new() });
    assert_eq!(handler.verify_black_list(&named(1, 5)), Ret::OK);
    assert!(matches!(single(&mut handler, tx(1, 5))[0], Action::AddToPool { .. }));
}

#[test]
fn clearing_comes_before_reporting() {
    let mut handler = ready();
    let black_list = vec![address(1); 5];
    handler.deal_black_list(&BlackList { clear_list: Vec::new(), black_list });
    assert_eq!(handler.verify_black_list(&named(1, 5)), Ret::Forbidden);
    handler.deal_black_list(&BlackList {
        clear_list: vec![address(1)],
        black_list: vec![address(1)],
    });
    assert_eq!(handler.verify_black_list(&named(1, 5)), Ret::OK);
}

#[test]
fn accounts_have_their_own_limits() {
    let mut handler = ready();
    let mut block = block_hashes(1, Vec::new());
    block.check_quota = true;
    block.account_gas_limit = AccountGasLimit {
        common_gas_limit: 20,
        specific_gas_limit: vec![(keypair(1).address().lower_hex(), 15)],
    };
    handler.deal_block_tx_hashes(&block);
    assert!(handler.verify_tx_quota(15, &pubkey(1)));
    assert!(!handler.verify_tx_quota(16, &pubkey(1)));
    assert!(handler.verify_tx_quota(20, &pubkey(2)));
    assert!(!handler.verify_tx_quota(21, &pubkey(2)));
    assert!(handler.verify_block_quota(&block_req(2, vec![named(1, 5), named(2, 6)])));
    assert!(!handler.verify_block_quota(&block_req(2, vec![named(1, 5), named(1, 6)])));
    assert!(handler.verify_block_quota(&block_req(2, vec![named(2, 5), named(2, 6)])));
}

#[test]
fn a_batch_is_dealt_with_one_by_one() {
    let mut handler = ready();
    handler.save_ret_to_cache([1; 32], None);
    handler.save_ret_to_cache([2; 32], Some(pubkey(9)));
    let bad = VerifyTxReq { signature: Vec::new(), ..tx(1, 4) };
    let stale = VerifyTxReq { valid_until_block: 0, ..tx(1, 5) };
    let batch = |bad: VerifyTxReq, stale: VerifyTxReq| {
        Request::Batch(vec![
            new_tx(tx(1, 1)),
            new_tx(tx(1, 2)),
            new_tx(tx(1, 3)),
            new_tx(bad),
            new_tx(stale),
        ])
    };
    let actions = handler.deal_request(true, batch(bad.clone(), stale.clone()), 0);
    assert_eq!(
        actions,
        vec![
            failed(1, "BadSig"),
            failed(4, "BadSig"),
            added(new_tx(tx(1, 2)), pubkey(9)),
            added(new_tx(tx(1, 3)), pubkey(1)),
            failed(5, "InvalidUntilBlock"),
        ]
    );
    assert_eq!(handler.get_ret_from_cache(&[3; 32]), Some(Some(pubkey(1))));
    assert_eq!(handler.get_ret_from_cache(&[4; 32]), Some(None));
    assert_eq!(handler.get_ret_from_cache(&[5; 32]), Some(Some(pubkey(1))));
    let mut handler = ready();
    let actions = handler.deal_request(false, batch(bad, stale), 0);
    assert_eq!(
        actions,
        vec![
            added(new_tx(tx(1, 1)), pubkey(1)),
            added(new_tx(tx(1, 2)), pubkey(1)),
            added(new_tx(tx(1, 3)), pubkey(1)),
        ]
    );
}

#[test]
fn of_two_transactions_with_one_hash_the_later_counts() {
    let mut handler = ready();
    let mut first = new_tx(tx(1, 5));
    first.request_id = vec![100];
    let second = new_tx(tx(2, 5));
    let actions = handler.deal_request(
        true,
        Request::Batch(vec![first, new_tx(tx(1, 6)), second.clone()]),
        0,
    );
    assert_eq!(
        actions,
        vec![added(new_tx(tx(1, 6)), pubkey(1)), added(second, pubkey(2))]
    );
}

#[test]
fn a_checked_batch_is_finished() {
    let mut handler = ready();
    let pendings = vec![
        PendingTx { tx: new_tx(tx(1, 5)), signer: None },
        PendingTx { tx: new_tx(tx(1, 6)), signer: Some(vec![8; 64]) },
        PendingTx { tx: new_tx(tx(1, 7)), signer: None },
    ];
    let results = vec![([5; 32], Some(vec![9; 64])), ([7; 32], None)];
    assert_eq!(
        handler.finish_batch(true, pendings, results),
        vec![
            failed(7, "BadSig"),
            added(new_tx(tx(1, 5)), vec![9; 64]),
            added(new_tx(tx(1, 6)), vec![8; 64]),
        ]
    );
    assert_eq!(handler.get_ret_from_cache(&[5; 32]), Some(Some(vec![9; 64])));
    assert_eq!(handler.get_ret_from_cache(&[6; 32]), None);
    assert_eq!(handler.get_ret_from_cache(&[7; 32]), Some(None));
}

#[test]
fn other_requests_are_ignored() {
    assert_eq!(ready().deal_request(true, Request::Other, 0), vec![]);
    assert_eq!(ready().deal_request(true, Request::Batch(Vec::new()), 0), vec![]);
}

#[test]
fn a_good_block_is_found_good() {
    let mut handler = ready();
    let reqs = vec![named(1, 5), named(2, 6), named(1, 7)];
    assert_eq!(
        handler.deal_verify_block_req(block_req(1, reqs)),
        vec![verdict(1 << 16, Ret::OK)]
    );
    for (n, seed) in [(5, 1), (6, 2), (7, 1)] {
        assert_eq!(handler.get_ret_from_cache(&[n; 32]), Some(Some(pubkey(seed))));
    }
    let again = vec![named(1, 5), named(2, 6), named(1, 7)];
    assert_eq!(
        handler.deal_verify_block_req(block_req(1, again)),
        vec![verdict(1 << 16, Ret::OK)]
    );
}

#[test]
fn a_block_with_a_bad_signature_is_refused() {
    let mut handler = ready();
    // no signer is named
    assert_eq!(
        handler.deal_verify_block_req(block_req(1, vec![named(1, 5), tx(1, 6)])),
        vec![verdict(1 << 16, Ret::BadSig)]
    );
    assert_eq!(handler.get_ret_from_cache(&[5; 32]), None);
    assert_eq!(handler.get_ret_from_cache(&[6; 32]), Some(None));
    // a bad signature is remembered
    assert_eq!(
        handler.deal_verify_block_req(block_req(1, vec![named(1, 6)])),
        vec![verdict(1 << 16, Ret::BadSig)]
    );
    // another signer is remembered
    handler.save_ret_to_cache([7; 32], Some(pubkey(2)));
    assert_eq!(
        handler.deal_verify_block_req(block_req(1, vec![named(1, 7)])),
        vec![verdict(1 << 16, Ret::BadSig)]
    );
    // another signer is named
    let wrong = VerifyTxReq { signer: pubkey(2), ..tx(1, 8) };
    assert_eq!(
        handler.deal_verify_block_req(block_req(1, vec![named(1, 5), wrong])),
        vec![verdict(1 << 16, Ret::BadSig)]
    );
    assert_eq!(handler.get_ret_from_cache(&[8; 32]), None);
}

#[test]
fn the_first_failing_transaction_decides_over_a_block() {
    let mut handler = ready();
    let nonce = VerifyTxReq { nonce: "n".repeat(129), ..named(1, 6) };
    let value = VerifyTxReq { value: Vec::new(), ..named(1, 7) };
    assert_eq!(
        handler.deal_verify_block_req(block_req(1, vec![named(1, 5), nonce, value])),
        vec![verdict(1 << 16, Ret::InvalidNonce)]
    );
    let large = || VerifyTxReq { quota: GAS, ..named(1, 8) };
    assert_eq!(
        handler.deal_verify_block_req(block_req(1, vec![large()])),
        vec![verdict(1 << 16, Ret::OK)]
    );
    assert_eq!(
        handler.deal_verify_block_req(block_req(1, vec![large(), named(1, 5)])),
        vec![verdict(1 << 16, Ret::QuotaNotEnough)]
    );
}

#[test]
fn a_block_check_is_finished() {
    let mut handler = ready();
    let req = block_req(1, vec![named(1, 5)]);
    assert_eq!(handler.finish_block_verify(&req, 2, vec![([5; 32], vec![9; 64])]), Ret::BadSig);
    assert_eq!(handler.get_ret_from_cache(&[5; 32]), Some(Some(vec![9; 64])));
    assert_eq!(handler.finish_block_verify(&req, 0, Vec::new()), Ret::OK);
}

#[test]
fn an_empty_block_is_not_checked() {
    assert_eq!(ready().deal_verify_block_req(block_req(1, Vec::new())), vec![]);
}

#[test]
fn a_block_that_comes_early_is_checked_when_it_is_due() {
    let mut handler = ready();
    assert_eq!(handler.deal_verify_block_req(block_req(2, vec![named(1, 5)])), vec![]);
    assert_eq!(handler.cache_block_request_id(), Some(2 << 16));
    assert_eq!(handler.run_tasks_at(20_000, 20_000), vec![]);
    handler.deal_block_tx_hashes(&block_hashes(1, Vec::new()));
    let actions = handler.run_tasks_at(20_000, 20_000);
    assert_eq!(actions[0], verdict(2 << 16, Ret::OK));
    assert_eq!(actions.len(), 2);
    assert_eq!(handler.cache_block_request_id(), None);
}

#[test]
fn the_highest_block_request_is_kept() {
    let mut handler = ready();
    handler.deal_block_tx_hashes(&block_hashes(1, Vec::new()));
    let next: u64 = 2 << 16;
    let mut keep = |id: u64| {
        handler.update_cache_block_req(VerifyBlockReq { id, reqs: vec![named(1, 5)] });
        handler.cache_block_request_id()
    };
    assert_eq!(keep(next), None);
    assert_eq!(keep(next - 1), None);
    assert_eq!(keep(next + 1), Some(next + 1));
    assert_eq!(keep(next), Some(next + 1));
    assert_eq!(keep(next + 5), Some(next + 5));
    assert_eq!(keep(next + 5), Some(next + 5));
    for height in 2..4 {
        handler.deal_block_tx_hashes(&block_hashes(height, Vec::new()));
    }
    handler.update_cache_block_req(VerifyBlockReq { id: 3, reqs: Vec::new() });
    assert_eq!(handler.cache_block_request_id(), None);
}

#[test]
fn a_node_that_is_not_ready_keeps_the_block() {
    let mut handler = MsgHandler::new(0, 100);
    let req = VerifyBlockReq { id: (1 << 16) + 1, reqs: vec![named(1, 5)] };
    assert_eq!(handler.deal_verify_block_req(req), vec![]);
    assert_eq!(handler.cache_block_request_id(), Some((1 << 16) + 1));
}

#[test]
fn a_snapshot_suspends_the_service() {
    let mut handler = ready();
    let step = |cmd: Cmd| SnapshotReq { cmd, end_height: 12 };
    assert_eq!(handler.deal_snapshot(&step(Cmd::Snapshot)), vec![]);
    assert!(handler.is_ready());
    assert_eq!(handler.deal_snapshot(&step(Cmd::Begin)), vec![acked(Resp::BeginAck)]);
    assert!(!handler.is_ready());
    assert_eq!(handler.deal_snapshot(&step(Cmd::Restore)), vec![]);
    assert_eq!(single(&mut handler, tx(1, 5)), vec![failed(5, "NotReady")]);
    assert_eq!(
        handler.deal_snapshot(&step(Cmd::End)),
        vec![asked_for(12), acked(Resp::EndAck)]
    );
    assert!(handler.is_ready());
}

#[test]
fn clearing_forgets_the_chain() {
    let mut handler = ready();
    handler.deal_block_tx_hashes(&block_hashes(1, vec![vec![5; 32]]));
    handler.save_ret_to_cache([6; 32], None);
    handler.deal_black_list(&BlackList {
        clear_list: Vec::new(),
        black_list: vec![address(1); 5],
    });
    handler.deal_verify_block_req(block_req(9, vec![named(1, 5)]));
    assert_eq!(
        handler.deal_snapshot(&SnapshotReq { cmd: Cmd::Clear, end_height: 0 }),
        vec![Action::ClearPool, acked(Resp::ClearAck)]
    );
    assert!(!handler.is_ready());
    assert_eq!(handler.max_height(), 0);
    assert_eq!(handler.get_ret_from_cache(&[6; 32]), None);
    assert_eq!(handler.cache_block_request_id(), None);
    assert_eq!(handler.verify_black_list(&named(1, 5)), Ret::OK);
    handler.deal_block_tx_hashes(&block_hashes(0, Vec::new()));
    assert!(matches!(single(&mut handler, tx(1, 5))[0], Action::AddToPool { .. }));
}

#[test]
fn the_cache_forgets_the_oldest_check() {
    let mut handler = MsgHandler::new(0, 2);
    handler.save_ret_to_cache([1; 32], Some(pubkey(1)));
    handler.save_ret_to_cache([2; 32], None);
    handler.save_ret_to_cache([1; 32], None);
    assert_eq!(handler.get_ret_from_cache(&[1; 32]), Some(None));
    handler.save_ret_to_cache([3; 32], Some(pubkey(3)));
    assert_eq!(handler.get_ret_from_cache(&[2; 32]), None);
    assert_eq!(handler.get_ret_from_cache(&[1; 32]), Some(None));
    // looking an entry up does not keep it
    handler.save_ret_to_cache([4; 32], None);
    assert_eq!(handler.get_ret_from_cache(&[1; 32]), None);
    assert_eq!(handler.get_ret_from_cache(&[3; 32]), Some(Some(pubkey(3))));
}

#[test]
fn a_cache_without_room_stays_empty() {
    let mut handler = MsgHandler::new(0, 0);
    handler.save_ret_to_cache([1; 32], None);
    assert_eq!(handler.get_ret_from_cache(&[1; 32]), None);
}

#[test]
fn messages_are_dealt_with_by_their_keys() {
    let mut handler = handler(0);
    let key = RoutingKey::new;
    handler.handle_remote_msg(
        key(SubModules::Chain, MsgType::BlockTxHashes),
        InMessage::BlockTxHashes(block_hashes(0, Vec::new())),
        0,
    );
    assert!(handler.is_ready());
    let request = || InMessage::Request(Request::UnTx(new_tx(tx(1, 5))));
    let stale = || {
        let req = VerifyTxReq { valid_until_block: 0, ..tx(1, 6) };
        InMessage::Request(Request::UnTx(new_tx(req)))
    };
    assert_eq!(
        handler.handle_remote_msg(key(SubModules::Net, MsgType::Request), request(), 0),
        vec![added(new_tx(tx(1, 5)), pubkey(1))]
    );
    assert_eq!(
        handler.handle_remote_msg(key(SubModules::Net, MsgType::Request), stale(), 0),
        vec![]
    );
    assert_eq!(
        handler.handle_remote_msg(
            key(SubModules::Jsonrpc, MsgType::RequestNewTxBatch),
            stale(),
            0
        ),
        vec![failed(6, "InvalidUntilBlock")]
    );
    assert_eq!(
        handler.handle_remote_msg(
            key(SubModules::Consensus, MsgType::VerifyBlockReq),
            InMessage::VerifyBlockReq(block_req(1, vec![named(1, 5)])),
            0
        ),
        vec![verdict(1 << 16, Ret::OK)]
    );
    handler.handle_remote_msg(
        key(SubModules::Executor, MsgType::BlackList),
        InMessage::BlackList(BlackList {
            clear_list: Vec::new(),
            black_list: vec![address(1); 5],
        }),
        0,
    );
    assert_eq!(single(&mut handler, tx(1, 5)), vec![failed(5, "Forbidden")]);
    assert_eq!(
        handler.handle_remote_msg(
            key(SubModules::Snapshot, MsgType::SnapshotReq),
            InMessage::SnapshotReq(SnapshotReq { cmd: Cmd::Begin, end_height: 0 }),
            0
        ),
        vec![acked(Resp::BeginAck)]
    );
    assert_eq!(
        handler.handle_remote_msg(key(SubModules::Chain, MsgType::Request), request(), 0),
        vec![]
    );
}

#[test]
fn a_message_has_to_fit_its_key() {
    let chain_id = InMessage::Miscellaneous { chain_id: 1 };
    let miscellaneous = RoutingKey::new(SubModules::Executor, MsgType::Miscellaneous);
    let black_list = RoutingKey::new(SubModules::Executor, MsgType::BlackList);
    let unknown = RoutingKey::new(SubModules::Other, MsgType::Other);
    assert!(message_fits_key(miscellaneous, &chain_id));
    assert!(!message_fits_key(black_list, &chain_id));
    assert!(message_fits_key(unknown, &chain_id));
    assert!(expects(miscellaneous));
    assert!(!expects(unknown));
}

#[test]
fn malformed_messages_cannot_be_dealt_with_once_they_are_looked_into() {
    let mut handler = handler(0);
    let short = || VerifyTxReq { tx_hash: vec![5; 31], ..named(1, 5) };
    let request = || InMessage::Request(Request::UnTx(new_tx(short())));
    let block = || InMessage::VerifyBlockReq(block_req(1, vec![short()]));
    assert!(handler.can_deal_with(&request(), 0));
    assert!(handler.can_deal_with(&block(), 0));
    handler.deal_block_tx_hashes(&block_hashes(0, Vec::new()));
    assert!(!handler.can_deal_with(&request(), 0));
    assert!(!handler.can_deal_with(&block(), 0));
    let later = InMessage::VerifyBlockReq(block_req(2, vec![short()]));
    assert!(handler.can_deal_with(&later, 0));
    let hashes = InMessage::BlockTxHashes(block_hashes(1, vec![vec![1; 5]]));
    assert!(!handler.can_deal_with(&hashes, 0));
    let list = BlackList { clear_list: vec![vec![1; 19]], black_list: Vec::new() };
    assert!(!handler.can_deal_with(&InMessage::BlackList(list), 0));
}

#[test]
fn verdicts_are_given_for_given_senders() {
    let mut handler = ready();
    let mut block = block_hashes(1, Vec::new());
    block.check_quota = true;
    block.account_gas_limit.common_gas_limit = 9;
    handler.deal_block_tx_hashes(&block);
    let request = new_tx(tx(1, 5));
    assert_eq!(handler.tx_verdict(&tx(1, 5), &[1; 20]), Ret::QuotaNotEnough);
    assert_eq!(handler.admission_verdict(&request, &[1; 20]), Ret::QuotaNotEnough);
    assert_eq!(handler.black_list_verdict(&[1; 20]), Ret::OK);
    let black_list = vec![vec![1; 20]; 5];
    handler.deal_black_list(&BlackList { clear_list: Vec::new(), black_list });
    assert_eq!(handler.admission_verdict(&request, &[1; 20]), Ret::Forbidden);
}

#[test]
fn one_new_transaction_is_finished() {
    let mut handler = ready();
    let request = new_tx(tx(1, 5));
    assert_eq!(
        handler.finish_single(true, &request, Some(vec![9; 64])),
        vec![added(request.clone(), vec![9; 64])]
    );
    assert_eq!(handler.get_ret_from_cache(&[5; 32]), Some(Some(vec![9; 64])));
    assert_eq!(handler.finish_single(true, &request, None), vec![failed(5, "BadSig")]);
    assert_eq!(handler.get_ret_from_cache(&[5; 32]), Some(None));
    assert_eq!(handler.finish_single(false, &request, None), vec![]);
}

#[test]
fn a_request_with_an_unknown_signature_is_answered_the_same_again() {
    let mut handler = ready();
    let stale = || VerifyTxReq { valid_until_block: 0, ..tx(1, 5) };
    let first = single(&mut handler, stale());
    assert_eq!(single(&mut handler, stale()), first);
    let bad = || VerifyTxReq { signature: Vec::new(), ..tx(1, 6) };
    let first = single(&mut handler, bad());
    assert_eq!(first, vec![failed(6, "BadSig")]);
    assert_eq!(single(&mut handler, bad()), first);
}

#[test]
fn a_forbidden_account_fails_the_checks_last() {
    let mut handler = ready();
    let black_list = vec![address(1); 5];
    handler.deal_black_list(&BlackList { clear_list: Vec::new(), black_list });
    assert_eq!(handler.verify_tx_req(&named(1, 5)), Ret::Forbidden);
    assert_eq!(handler.verify_tx_req(&named(2, 5)), Ret::OK);
    let large = VerifyTxReq { quota: GAS + 1, ..named(1, 5) };
    assert_eq!(handler.verify_tx_req(&large), Ret::QuotaNotEnough);
    let sender: [u8; 20] = keypair(1).address().to_fixed_bytes();
    assert_eq!(handler.tx_verdict(&tx(1, 5), &sender), Ret::Forbidden);
}

#[test]
fn a_block_of_a_forbidden_account_is_refused() {
    let mut handler = ready();
    let black_list = vec![address(2); 5];
    handler.deal_black_list(&BlackList { clear_list: Vec::new(), black_list });
    assert_eq!(
        handler.deal_verify_block_req(block_req(1, vec![named(1, 5), named(2, 6)])),
        vec![verdict(1 << 16, Ret::Forbidden)]
    );
    assert_eq!(
        handler.deal_verify_block_req(block_req(1, vec![named(1, 5)])),
        vec![verdict(1 << 16, Ret::OK)]
    );
}

#[test]
fn what_an_earlier_check_refuses_is_not_read() {
    let handler = ready();
    let foreign = VerifyTxReq {
        chain_id: CHAIN + 1,
        tx_hash: Vec::new(),
        signer: Vec::new(),
        ..named(1, 5)
    };
    assert_eq!(handler.verify_tx_req(&foreign), Ret::BadChainId);
    let large = VerifyTxReq { quota: GAS + 1, signer: Vec::new(), ..named(1, 5) };
    assert_eq!(handler.verify_tx_req(&large), Ret::QuotaNotEnough);
    let reqs = vec![
        VerifyTxReq { quota: GAS + 1, ..named(1, 5) },
        VerifyTxReq { signer: Vec::new(), ..named(1, 6) },
    ];
    assert!(!handler.verify_block_quota(&block_req(1, reqs)));
}

#[test]
fn the_signed_hash_of_a_remembered_transaction_is_not_read() {
    let mut handler = ready();
    handler.save_ret_to_cache([5; 32], Some(pubkey(1)));
    let remembered = || VerifyTxReq { hash: Vec::new(), ..named(1, 5) };
    let unknown = || VerifyTxReq { hash: Vec::new(), ..named(1, 6) };
    let single_of = |req: VerifyTxReq| Request::UnTx(new_tx(req));
    assert!(handler.can_deal_with_request(&single_of(remembered()), 0));
    assert!(!handler.can_deal_with_request(&single_of(unknown()), 0));
    let request = new_tx(remembered());
    assert_eq!(
        handler.deal_request(true, single_of(remembered()), 0),
        vec![added(request, pubkey(1))]
    );
    assert!(handler.can_deal_with_block(&block_req(1, vec![remembered()])));
    assert!(!handler.can_deal_with_block(&block_req(1, vec![remembered(), unknown()])));
    assert_eq!(
        handler.deal_verify_block_req(block_req(1, vec![remembered()])),
        vec![verdict(1 << 16, Ret::OK)]
    );
    // of two with one hash, only the last one's signature is checked
    let batch = Request::Batch(vec![new_tx(unknown()), new_tx(tx(1, 6))]);
    assert!(handler.can_deal_with_request(&batch, 0));
    let batch = Request::Batch(vec![new_tx(tx(1, 6)), new_tx(unknown())]);
    assert!(!handler.can_deal_with_request(&batch, 0));
    // nothing is read behind a transaction that is remembered as bad, or that names no signer
    handler.save_ret_to_cache([7; 32], None);
    let short = || VerifyTxReq { tx_hash: Vec::new(), ..named(1, 8) };
    assert!(handler.can_deal_with_block(&block_req(1, vec![named(1, 7), short()])));
    assert!(!handler.can_deal_with_block(&block_req(1, vec![short(), named(1, 7)])));
    assert!(handler.can_deal_with_block(&block_req(1, vec![short(), tx(1, 9)])));
    assert_eq!(
        handler.deal_verify_block_req(block_req(1, vec![short(), tx(1, 9)])),
        vec![verdict(1 << 16, Ret::BadSig)]
    );
}

#[test]
fn a_batch_of_one_is_a_single_request() {
    let stale = || VerifyTxReq { valid_until_block: 0, ..tx(1, 6) };
    let bad = || VerifyTxReq { signature: Vec::new(), ..tx(1, 7) };
    for req in [tx(1, 5), stale(), bad()] {
        for is_local in [true, false] {
            let (mut one, mut other) = (ready(), ready());
            assert_eq!(
                one.deal_request(is_local, Request::Batch(vec![new_tx(req.clone())]), 0),
                other.deal_request(is_local, Request::UnTx(new_tx(req.clone())), 0)
            );
            let hash = [req.tx_hash[0]; 32];
            assert_eq!(one.get_ret_from_cache(&hash), other.get_ret_from_cache(&hash));
        }
    }
}
