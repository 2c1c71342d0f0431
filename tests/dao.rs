use ckb_mock_tx::dao::{calculate_dao_maximum_withdraw4, minimal_unlock_point};
use ckb_mock_tx::types::{CellOutput, EpochNumberWithFraction, Header, Script};

fn header_with_epoch(number: u64, index: u64, length: u64) -> Header {
    Header {
        hash: vec![0u8; 32],
        parent_hash: vec![0u8; 32],
        number: 0,
        timestamp: 0,
        version: 0,
        compact_target: 0x1e08_3126,
        transactions_root: vec![0x21u8; 32],
        proposals_hash: vec![0u8; 32],
        extra_hash: vec![0x33u8; 32],
        nonce: 7,
        epoch: EpochNumberWithFraction::new(number, index, length),
        dao: vec![0u8; 32],
    }
}

fn header_with_rate(rate: u64) -> Header {
    let mut dao = vec![0u8; 32];
    dao[8..16].copy_from_slice(&rate.to_le_bytes());
    Header {
        hash: vec![1u8; 32],
        parent_hash: vec![0u8; 32],
        number: 10,
        timestamp: 0,
        version: 0,
        compact_target: 0x1e08_3126,
        transactions_root: vec![0x21u8; 32],
        proposals_hash: vec![0u8; 32],
        extra_hash: vec![0x33u8; 32],
        nonce: 7,
        epoch: EpochNumberWithFraction::new(1, 0, 1000),
        dao,
    }
}

fn output_with_capacity(capacity: u64) -> CellOutput {
    CellOutput {
        capacity,
        lock: Script { code_hash: vec![0u8; 32], hash_type: 1, args: vec![] },
        type_: None,
    }
}

#[test]
fn test_minimal_unlock_point() {
    let cases = vec![
        ((5, 5, 1000), (184, 4, 1000), (5 + 180, 5, 1000)),
        ((5, 5, 1000), (184, 5, 1000), (5 + 180, 5, 1000)),
        ((5, 5, 1000), (184, 6, 1000), (5 + 180, 5, 1000)),
        ((5, 5, 1000), (185, 4, 1000), (5 + 180, 5, 1000)),
        ((5, 5, 1000), (185, 5, 1000), (5 + 180, 5, 1000)),
        ((5, 5, 1000), (185, 6, 1000), (5 + 180 * 2, 5, 1000)), // 6/1000 > 5/1000
        ((5, 5, 1000), (186, 4, 1000), (5 + 180 * 2, 5, 1000)),
        ((5, 5, 1000), (186, 5, 1000), (5 + 180 * 2, 5, 1000)),
        ((5, 5, 1000), (186, 6, 1000), (5 + 180 * 2, 5, 1000)),
        ((5, 5, 1000), (364, 4, 1000), (5 + 180 * 2, 5, 1000)),
        ((5, 5, 1000), (364, 5, 1000), (5 + 180 * 2, 5, 1000)),
        ((5, 5, 1000), (364, 6, 1000), (5 + 180 * 2, 5, 1000)),
        ((5, 5, 1000), (365, 4, 1000), (5 + 180 * 2, 5, 1000)),
        ((5, 5, 1000), (365, 5, 1000), (5 + 180 * 2, 5, 1000)),
        ((5, 5, 1000), (365, 6, 1000), (5 + 180 * 3, 5, 1000)),
        ((5, 5, 1000), (366, 4, 1000), (5 + 180 * 3, 5, 1000)),
        ((5, 5, 1000), (366, 5, 1000), (5 + 180 * 3, 5, 1000)),
        ((5, 5, 1000), (366, 6, 1000), (5 + 180 * 3, 5, 1000)),
    ];
    for (deposit_point, prepare_point, expected) in cases {
        let deposit_header = header_with_epoch(deposit_point.0, deposit_point.1, deposit_point.2);
        let prepare_header = header_with_epoch(prepare_point.0, prepare_point.1, prepare_point.2);
        let expected = EpochNumberWithFraction::new(expected.0, expected.1, expected.2);
        let actual = minimal_unlock_point(&deposit_header, &prepare_header);
        assert_eq!(
            expected, actual,
            "minimal_unlock_point deposit_point: {:?}, prepare_point: {:?}",
            deposit_point, prepare_point,
        );
    }
}

#[test]
fn unlock_equal_fraction_adds_no_period() {
    let r = minimal_unlock_point(&header_with_epoch(5, 5, 1000), &header_with_epoch(184, 5, 1000));
    assert_eq!(r, EpochNumberWithFraction::new(185, 5, 1000));
}

#[test]
fn unlock_greater_fraction_adds_a_period() {
    let r = minimal_unlock_point(&header_with_epoch(5, 5, 1000), &header_with_epoch(185, 6, 1000));
    assert_eq!(r, EpochNumberWithFraction::new(365, 5, 1000));
}

#[test]
fn unlock_compares_fractions_across_lengths() {
    // 1/2 of the way in at deposit, 600/1000 at prepare: strictly further.
    let r = minimal_unlock_point(&header_with_epoch(10, 1, 2), &header_with_epoch(10, 600, 1000));
    assert_eq!(r, EpochNumberWithFraction::new(190, 1, 2));
    // Same fraction written with other lengths: no extra period.
    let r = minimal_unlock_point(&header_with_epoch(10, 1, 2), &header_with_epoch(190, 500, 1000));
    assert_eq!(r, EpochNumberWithFraction::new(190, 1, 2));
}

#[test]
fn unlock_in_same_epoch_is_one_period_on() {
    let r = minimal_unlock_point(&header_with_epoch(7, 3, 10), &header_with_epoch(7, 3, 10));
    assert_eq!(r, EpochNumberWithFraction::new(7, 3, 10));
    let r = minimal_unlock_point(&header_with_epoch(7, 3, 10), &header_with_epoch(7, 4, 10));
    assert_eq!(r, EpochNumberWithFraction::new(187, 3, 10));
}

#[test]
fn withdraw_with_doubled_rate() {
    let rate = 10_000_000_000_000_000u64;
    let r = calculate_dao_maximum_withdraw4(
        &header_with_rate(rate),
        &header_with_rate(2 * rate),
        &output_with_capacity(1000),
        500,
    );
    assert_eq!(r, 1500);
}

#[test]
fn withdraw_truncates_interest() {
    // 300 + 700 * 10_000_001 / 10_000_000 = 300 + 700.00007, truncated.
    let r = calculate_dao_maximum_withdraw4(
        &header_with_rate(10_000_000),
        &header_with_rate(10_000_001),
        &output_with_capacity(1000),
        300,
    );
    assert_eq!(r, 1000);
}

#[test]
fn withdraw_uses_wide_intermediate() {
    // The product exceeds 64 bits before the division brings it back.
    let cap = 1u64 << 40;
    let r = calculate_dao_maximum_withdraw4(
        &header_with_rate(1u64 << 40),
        &header_with_rate(1u64 << 41),
        &output_with_capacity(cap),
        0,
    );
    assert_eq!(r, 2 * cap);
}

#[test]
fn withdraw_with_all_capacity_occupied_earns_nothing() {
    let r = calculate_dao_maximum_withdraw4(
        &header_with_rate(100),
        &header_with_rate(300),
        &output_with_capacity(1000),
        1000,
    );
    assert_eq!(r, 1000);
}

#[test]
fn withdraw_with_unchanged_rate_is_the_capacity() {
    let r = calculate_dao_maximum_withdraw4(
        &header_with_rate(1_000_000),
        &header_with_rate(1_000_000),
        &output_with_capacity(1000),
        500,
    );
    assert_eq!(r, 1000);
}
