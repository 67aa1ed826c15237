use cita_services::quota::{block_quota_allows, tx_quota_allows, AccountGasLimit};
use cita_services::table::Table;

fn limits() -> AccountGasLimit {
    AccountGasLimit {
        common_gas_limit: 10,
        specific_gas_limit: vec![
            ("0101010101010101010101010101010101010101".to_string(), 5),
            ("abababababababababababababababababababab".to_string(), 7),
            ("abababababababababababababababababababab".to_string(), 50),
        ],
    }
}

#[test]
fn accounts_are_limited_by_their_written_address() {
    assert_eq!(limits().limit_of(&[1; 20]), 5);
    assert_eq!(limits().limit_of(&[2; 20]), 10);
    assert_eq!(limits().limit_of(&[0xab; 20]), 50);
}

#[test]
fn a_copy_of_limits_is_the_same() {
    assert_eq!(limits().clone(), limits());
}

#[test]
fn a_transaction_is_held_to_both_limits() {
    assert!(tx_quota_allows(5, &[1; 20], 100, true, &limits()));
    assert!(!tx_quota_allows(6, &[1; 20], 100, true, &limits()));
    assert!(tx_quota_allows(6, &[1; 20], 100, false, &limits()));
    assert!(!tx_quota_allows(101, &[1; 20], 100, false, &limits()));
}

#[test]
fn a_block_is_held_to_its_limit() {
    let spendings = vec![([1; 20], 40), ([2; 20], 60)];
    assert!(block_quota_allows(&spendings, 100, false, &limits()));
    assert!(!block_quota_allows(&spendings, 99, false, &limits()));
}

#[test]
fn the_transactions_of_one_sender_add_up() {
    let spendings = vec![([1; 20], 3), ([2; 20], 10), ([1; 20], 2)];
    assert!(block_quota_allows(&spendings, 100, true, &limits()));
    let spendings = vec![([1; 20], 3), ([2; 20], 10), ([1; 20], 3)];
    assert!(!block_quota_allows(&spendings, 100, true, &limits()));
    assert!(block_quota_allows(&spendings, 100, false, &limits()));
}

#[test]
fn large_quotas_do_not_overflow() {
    let spendings = vec![([1; 20], u64::MAX), ([2; 20], 1)];
    assert!(!block_quota_allows(&spendings, u64::MAX, false, &limits()));
    assert!(block_quota_allows(&spendings[..1].to_vec(), u64::MAX, false, &limits()));
}

#[test]
fn an_empty_block_needs_nothing() {
    assert!(block_quota_allows(&Vec::new(), 0, true, &AccountGasLimit::new()));
}

#[test]
fn a_table_keeps_the_last_value() {
    let mut table: Table<20, i8> = Table::new();
    assert_eq!(table.get(&[1; 20]), None);
    table.set([1; 20], 3);
    table.set([2; 20], 4);
    table.set([1; 20], 5);
    assert_eq!(table.get(&[1; 20]), Some(5));
    assert_eq!(table.get(&[2; 20]), Some(4));
    table.remove(&[1; 20]);
    assert_eq!(table.get(&[1; 20]), None);
    table.clear();
    assert_eq!(table.get(&[2; 20]), None);
}

#[test]
fn what_fits_in_a_block_fits_in_part_and_alone() {
    let spendings = vec![([1; 20], 2), ([2; 20], 9), ([1; 20], 3)];
    assert!(block_quota_allows(&spendings, 14, true, &limits()));
    for n in 0..spendings.len() {
        assert!(block_quota_allows(&spendings[..n].to_vec(), 14, true, &limits()));
        assert!(tx_quota_allows(spendings[n].1, &spendings[n].0, 14, true, &limits()));
    }
}

#[test]
fn the_order_of_a_block_has_no_bearing_on_its_quota() {
    let mut spendings = vec![([1; 20], 3), ([2; 20], 10), ([1; 20], 2), ([3; 20], 1)];
    for _ in 0..spendings.len() {
        spendings.rotate_left(1);
        assert!(block_quota_allows(&spendings, 16, true, &limits()));
        assert!(!block_quota_allows(&spendings, 15, true, &limits()));
        assert!(block_quota_allows(&spendings[1..].to_vec(), 16, true, &limits()));
    }
}
