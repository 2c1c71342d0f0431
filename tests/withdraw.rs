use ckb_mock_tx::dao::{maximum_withdraw_of_cell, occupied_capacity, WithdrawError};
use ckb_mock_tx::hash::blake2b_args;
use ckb_mock_tx::types::{CellOutput, EpochNumberWithFraction, Header, Script};

fn lock(args_len: usize) -> Script {
    Script { code_hash: vec![0u8; 32], hash_type: 1, args: vec![7u8; args_len] }
}

fn header_with_rate(rate: u64) -> Header {
    let mut dao = vec![0u8; 32];
    dao[8..16].copy_from_slice(&rate.to_le_bytes());
    Header {
        hash: vec![1u8; 32],
        parent_hash: vec![0u8; 32],
        number: 10,
        timestamp: 0,
        version: 0,
        compact_target: 0x1e08_3126,
        transactions_root: vec![0x21u8; 32],
        proposals_hash: vec![0u8; 32],
        extra_hash: vec![0x33u8; 32],
        nonce: 7,
        epoch: EpochNumberWithFraction::new(1, 0, 1000),
        dao,
    }
}

#[test]
fn occupied_capacity_of_plain_cell() {
    let output = CellOutput { capacity: 0, lock: lock(20), type_: None };
    assert_eq!(occupied_capacity(&output, 0), Some(6_100_000_000));
}

#[test]
fn occupied_capacity_counts_data_and_type_script() {
    let output = CellOutput { capacity: 0, lock: lock(20), type_: Some(lock(0)) };
    // 8 + 8 + (33 + 20) + 33 = 102 bytes.
    assert_eq!(occupied_capacity(&output, 8), Some(10_200_000_000));
}

#[test]
fn occupied_capacity_overflow_is_reported() {
    let output = CellOutput { capacity: 0, lock: lock(0), type_: None };
    assert_eq!(occupied_capacity(&output, usize::MAX), None);
}

#[test]
fn deposit_withdraw_with_doubled_rate() {
    let output = CellOutput { capacity: 20_000_000_000, lock: lock(20), type_: None };
    // occupied 6_100_000_000, counted 13_900_000_000, doubled.
    let r = maximum_withdraw_of_cell(&header_with_rate(1 << 40), &header_with_rate(1 << 41), &output, 0);
    assert_eq!(r, Ok(6_100_000_000 + 27_800_000_000));
}

#[test]
fn deposit_withdraw_errors() {
    let output = CellOutput { capacity: 20_000_000_000, lock: lock(20), type_: None };
    let mut bad = header_with_rate(1);
    bad.dao.pop();
    assert_eq!(
        maximum_withdraw_of_cell(&bad, &header_with_rate(1), &output, 0),
        Err(WithdrawError::MalformedDaoField)
    );
    let small = CellOutput { capacity: 6_099_999_999, lock: lock(20), type_: None };
    assert_eq!(
        maximum_withdraw_of_cell(&header_with_rate(1), &header_with_rate(1), &small, 0),
        Err(WithdrawError::CapacityBelowOccupied)
    );
    assert_eq!(
        maximum_withdraw_of_cell(&header_with_rate(0), &header_with_rate(1), &output, 0),
        Err(WithdrawError::ZeroDepositRate)
    );
    assert_eq!(
        maximum_withdraw_of_cell(&header_with_rate(1), &header_with_rate(u64::MAX), &output, 0),
        Err(WithdrawError::WithdrawOverflow)
    );
    assert_eq!(
        maximum_withdraw_of_cell(&header_with_rate(1), &header_with_rate(1), &output, usize::MAX),
        Err(WithdrawError::OccupiedCapacityOverflow)
    );
}

#[test]
fn blake2b_args_matches_incremental_hashing() {
    let args = vec![b"left|".to_vec(), vec![], b"right".to_vec()];
    let mut hasher = ckb_hash::new_blake2b();
    for arg in &args {
        hasher.update(arg);
    }
    let mut expected = [0u8; 32];
    hasher.finalize(&mut expected);
    assert_eq!(blake2b_args(&args), expected.to_vec());
    assert_ne!(blake2b_args(&args), blake2b_args(&vec![b"left|".to_vec()]));
    assert_eq!(blake2b_args(&vec![]), ckb_hash::BLANK_HASH.to_vec());
}
