//! Withdrawal arithmetic for deposits locked in the ledger's DAO: the maximum
//! redeemable capacity, and the earliest epoch at which a deposit unlocks.
use vstd::prelude::*;
use crate::types::{CellOutput, EpochNumberWithFraction, Header, Script};

verus! {

/// Number of epochs in one lock period.
pub const LOCK_PERIOD_EPOCHS: u64 = 180;

/// The little-endian unsigned integer held in `b[off..off + 8]`.
pub open spec fn le_u64_at(b: Seq<u8>, off: int) -> int {
    b[off] as int + 0x100 * b[off + 1] + 0x1_0000 * b[off + 2] + 0x100_0000 * b[off + 3]
        + 0x1_0000_0000 * b[off + 4] + 0x100_0000_0000 * b[off + 5]
        + 0x1_0000_0000_0000 * b[off + 6] + 0x100_0000_0000_0000 * b[off + 7]
}

/// The accumulated rate that a header's 32-byte DAO field holds in bytes 8 to 16.
pub open spec fn accumulated_rate(dao: Seq<u8>) -> int {
    le_u64_at(dao, 8)
}

/// Reads the little-endian `u64` at `b[off..off + 8]`.
pub fn read_le_u64(b: &Vec<u8>, off: usize) -> (r: u64)
    requires
        off + 8 <= b@.len(),
    ensures
        r as int == le_u64_at(b@, off as int),
{
    let n = b.len();
    assert(off + 8 <= n);
    let b0 = b[off] as u64;
    let b1 = b[off + 1] as u64;
    let b2 = b[off + 2] as u64;
    let b3 = b[off + 3] as u64;
    let b4 = b[off + 4] as u64;
    let b5 = b[off + 5] as u64;
    let b6 = b[off + 6] as u64;
    let b7 = b[off + 7] as u64;
    b0 + 0x100 * b1 + 0x1_0000 * b2 + 0x100_0000 * b3 + 0x1_0000_0000 * b4 + 0x100_0000_0000
        * b5 + 0x1_0000_0000_0000 * b6 + 0x100_0000_0000_0000 * b7
}

/// Extracts the accumulated rate from a header's DAO field.
pub fn extract_accumulated_rate(dao: &Vec<u8>) -> (r: u64)
    requires
        dao@.len() == 32,
    ensures
        r as int == accumulated_rate(dao@),
{
    read_le_u64(dao, 8)
}

/// The maximum capacity a deposit cell can withdraw: its occupied capacity,
/// plus the part above it scaled by the growth of the accumulated rate.
pub open spec fn maximum_withdraw(
    capacity: int,
    occupied: int,
    deposit_rate: int,
    prepare_rate: int,
) -> int {
    occupied + (capacity - occupied) * prepare_rate / deposit_rate
}

/// Computes the maximum withdraw of `output`, deposited under `deposit_header`
/// and prepared for withdrawal under `prepare_header`. The product is taken in
/// 128-bit arithmetic before dividing, and the quotient truncated.
pub fn calculate_dao_maximum_withdraw4(
    deposit_header: &Header,
    prepare_header: &Header,
    output: &CellOutput,
    occupied_capacity: u64,
) -> (r: u64)
    requires
        deposit_header.dao@.len() == 32,
        prepare_header.dao@.len() == 32,
        accumulated_rate(deposit_header.dao@) > 0,
        occupied_capacity <= output.capacity,
        maximum_withdraw(
            output.capacity as int,
            occupied_capacity as int,
            accumulated_rate(deposit_header.dao@),
            accumulated_rate(prepare_header.dao@),
        ) <= u64::MAX,
    ensures
        r as int == maximum_withdraw(
            output.capacity as int,
            occupied_capacity as int,
            accumulated_rate(deposit_header.dao@),
            accumulated_rate(prepare_header.dao@),
        ),
{
    let deposit_ar = extract_accumulated_rate(&deposit_header.dao);
    let prepare_ar = extract_accumulated_rate(&prepare_header.dao);
    let counted: u64 = output.capacity - occupied_capacity;
    assert((counted as int) * (prepare_ar as int) <= (u64::MAX as int) * (u64::MAX as int))
        by (nonlinear_arith)
        requires
            counted <= u64::MAX,
            prepare_ar <= u64::MAX,
    ;
    let product: u128 = (counted as u128) * (prepare_ar as u128);
    let scaled: u128 = product / (deposit_ar as u128);
    occupied_capacity + scaled as u64
}

/// Whether `a`'s fraction within its epoch is strictly beyond `b`'s.
pub open spec fn fraction_beyond(a: EpochNumberWithFraction, b: EpochNumberWithFraction) -> bool {
    a.index * b.length > b.index * a.length
}

/// The number of epochs from `deposit` to `prepare`, counting a started epoch
/// only when `prepare` lies strictly further into it.
pub open spec fn passed_epochs(deposit: EpochNumberWithFraction, prepare: EpochNumberWithFraction) -> int {
    prepare.number - deposit.number + if fraction_beyond(prepare, deposit) {
        1int
    } else {
        0int
    }
}

/// The passed epochs rounded up to whole lock periods.
pub open spec fn locked_epochs(passed: int) -> int {
    (passed + (LOCK_PERIOD_EPOCHS - 1)) / (LOCK_PERIOD_EPOCHS as int) * (LOCK_PERIOD_EPOCHS as int)
}

/// The earliest epoch at which a deposit made at `deposit_header` and prepared
/// at `prepare_header` can be withdrawn: the deposit's own position, moved on
/// by whole lock periods covering the epochs passed.
pub fn minimal_unlock_point(deposit_header: &Header, prepare_header: &Header) -> (r:
    EpochNumberWithFraction)
    requires
        deposit_header.epoch.wf(),
        prepare_header.epoch.wf(),
        deposit_header.epoch.number <= prepare_header.epoch.number,
    ensures
        r.number == deposit_header.epoch.number + locked_epochs(
            passed_epochs(deposit_header.epoch, prepare_header.epoch),
        ),
        r.index == deposit_header.epoch.index,
        r.length == deposit_header.epoch.length,
{
    let deposit_point = deposit_header.epoch;
    let prepare_point = prepare_header.epoch;
    assert(prepare_point.index * deposit_point.length < 0x1_0000_0000) by (nonlinear_arith)
        requires
            prepare_point.index < 0x1_0000,
            deposit_point.length < 0x1_0000,
    ;
    assert(deposit_point.index * prepare_point.length < 0x1_0000_0000) by (nonlinear_arith)
        requires
            deposit_point.index < 0x1_0000,
            prepare_point.length < 0x1_0000,
    ;
    let prepare_fraction: u64 = prepare_point.index * deposit_point.length;
    let deposit_fraction: u64 = deposit_point.index * prepare_point.length;
    let passed_epoch_cnt: u64 = if prepare_fraction > deposit_fraction {
        prepare_point.number - deposit_point.number + 1
    } else {
        prepare_point.number - deposit_point.number
    };
    let rest_epoch_cnt: u64 = (passed_epoch_cnt + (LOCK_PERIOD_EPOCHS - 1)) / LOCK_PERIOD_EPOCHS
        * LOCK_PERIOD_EPOCHS;
    EpochNumberWithFraction::new(
        deposit_point.number + rest_epoch_cnt,
        deposit_point.index,
        deposit_point.length,
    )
}

/// With the prepare rate twice the deposit rate, the part above the occupied
/// capacity doubles, whatever the deposit rate is.
pub proof fn lemma_doubled_rate_doubles_countable(
    deposit_rate: int,
    capacity: int,
    occupied: int,
)
    requires
        deposit_rate > 0,
        0 <= occupied <= capacity,
    ensures
        maximum_withdraw(capacity, occupied, deposit_rate, 2 * deposit_rate) == occupied + 2 * (
        capacity - occupied),
{
    let c = capacity - occupied;
    assert(c * (2 * deposit_rate) == (2 * c) * deposit_rate) by (nonlinear_arith);
    assert((2 * c) * deposit_rate / deposit_rate == 2 * c) by (nonlinear_arith)
        requires
            deposit_rate > 0,
    ;
}

/// With an unchanged accumulated rate, a deposit withdraws exactly its capacity.
pub proof fn lemma_unchanged_rate_earns_nothing(rate: int, capacity: int, occupied: int)
    requires
        rate > 0,
        0 <= occupied <= capacity,
    ensures
        maximum_withdraw(capacity, occupied, rate, rate) == capacity,
{
    let c = capacity - occupied;
    assert(c * rate / rate == c) by (nonlinear_arith)
        requires
            rate > 0,
    ;
}

/// Shannons in one byte of capacity.
pub const BYTE_SHANNONS: u64 = 100_000_000;

/// Bytes a script occupies: its code hash, its hash type and its arguments.
pub open spec fn script_bytes(s: Script) -> int {
    33 + s.args@.len() as int
}

/// Bytes a cell occupies: its capacity field, its data, its lock and its
/// type script if any.
pub open spec fn occupied_bytes(output: CellOutput, data_len: int) -> int {
    8 + data_len + script_bytes(output.lock) + match output.type_ {
        Some(t) => script_bytes(t),
        None => 0,
    }
}

/// The capacity, in shannons, that a cell with `data_len` bytes of data
/// occupies; `None` when it does not fit in 64 bits.
pub fn occupied_capacity(output: &CellOutput, data_len: usize) -> (r: Option<u64>)
    ensures
        r is Some <==> occupied_bytes(*output, data_len as int) * BYTE_SHANNONS <= u64::MAX,
        r matches Some(v) ==> v == occupied_bytes(*output, data_len as int) * BYTE_SHANNONS,
{
    let limit: u64 = u64::MAX / BYTE_SHANNONS;
    let mut bytes: u64 = 8 + 33;
    if data_len as u64 > limit || output.lock.args.len() as u64 > limit {
        return None;
    }
    bytes = bytes + data_len as u64 + output.lock.args.len() as u64;
    match &output.type_ {
        Some(t) => {
            if t.args.len() as u64 > limit {
                return None;
            }
            bytes = bytes + 33 + t.args.len() as u64;
        },
        None => {},
    }
    if bytes > limit {
        return None;
    }
    Some(bytes * BYTE_SHANNONS)
}

/// Why the maximum withdraw of a deposit could not be computed.
#[derive(Debug, Clone, Copy, PartialEq, Eq, Structural)]
pub enum WithdrawError {
    /// A header's DAO field is not 32 bytes long.
    MalformedDaoField,
    /// The occupied capacity does not fit in 64 bits.
    OccupiedCapacityOverflow,
    /// The cell holds less capacity than it occupies.
    CapacityBelowOccupied,
    /// The deposit header's accumulated rate is zero.
    ZeroDepositRate,
    /// The result does not fit in 64 bits.
    WithdrawOverflow,
}

/// The maximum withdraw of a deposit cell with `data_len` bytes of data, or
/// why it cannot be computed.
pub fn maximum_withdraw_of_cell(
    deposit_header: &Header,
    prepare_header: &Header,
    output: &CellOutput,
    data_len: usize,
) -> (r: Result<u64, WithdrawError>)
    ensures
        r == if deposit_header.dao@.len() != 32 || prepare_header.dao@.len() != 32 {
            Err(WithdrawError::MalformedDaoField)
        } else if occupied_bytes(*output, data_len as int) * BYTE_SHANNONS > u64::MAX {
            Err(WithdrawError::OccupiedCapacityOverflow)
        } else if occupied_bytes(*output, data_len as int) * BYTE_SHANNONS > output.capacity {
            Err(WithdrawError::CapacityBelowOccupied)
        } else if accumulated_rate(deposit_header.dao@) == 0 {
            Err(WithdrawError::ZeroDepositRate)
        } else if maximum_withdraw(
            output.capacity as int,
            occupied_bytes(*output, data_len as int) * BYTE_SHANNONS,
            accumulated_rate(deposit_header.dao@),
            accumulated_rate(prepare_header.dao@),
        ) > u64::MAX {
            Err(WithdrawError::WithdrawOverflow)
        } else {
            Ok(
                maximum_withdraw(
                    output.capacity as int,
                    occupied_bytes(*output, data_len as int) * BYTE_SHANNONS,
                    accumulated_rate(deposit_header.dao@),
                    accumulated_rate(prepare_header.dao@),
                ) as u64,
            )
        },
{
    if deposit_header.dao.len() != 32 || prepare_header.dao.len() != 32 {
        return Err(WithdrawError::MalformedDaoField);
    }
    let occupied = match occupied_capacity(output, data_len) {
        Some(v) => v,
        None => return Err(WithdrawError::OccupiedCapacityOverflow),
    };
    if occupied > output.capacity {
        return Err(WithdrawError::CapacityBelowOccupied);
    }
    let deposit_ar = extract_accumulated_rate(&deposit_header.dao);
    let prepare_ar = extract_accumulated_rate(&prepare_header.dao);
    if deposit_ar == 0 {
        return Err(WithdrawError::ZeroDepositRate);
    }
    let counted: u64 = output.capacity - occupied;
    assert((counted as int) * (prepare_ar as int) <= (u64::MAX as int) * (u64::MAX as int))
        by (nonlinear_arith)
        requires
            counted <= u64::MAX,
            prepare_ar <= u64::MAX,
    ;
    let scaled: u128 = (counted as u128) * (prepare_ar as u128) / (deposit_ar as u128);
    if scaled > (u64::MAX - occupied) as u128 {
        return Err(WithdrawError::WithdrawOverflow);
    }
    Ok(calculate_dao_maximum_withdraw4(deposit_header, prepare_header, output, occupied))
}

} // verus!
