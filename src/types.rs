//! Ledger value types held as plain values, with their mathematical views.
use vstd::prelude::*;

verus! {

/// The views of the elements of `v`.
pub open spec fn views_of<T: View>(v: Seq<T>) -> Seq<T::V> {
    v.map_values(|x: T| x@)
}

/// Compares two byte strings.
pub fn bytes_equal(a: &Vec<u8>, b: &Vec<u8>) -> (r: bool)
    ensures
        r == (a@ == b@),
{
    if a.len() != b.len() {
        return false;
    }
    let mut i: usize = 0;
    while i < a.len()
        invariant
            a@.len() == b@.len(),
            i <= a@.len(),
            forall|j: int| 0 <= j < i ==> a@[j] == b@[j],
        decreases a@.len() - i,
    {
        if a[i] != b[i] {
            return false;
        }
        i = i + 1;
    }
    assert(a@ =~= b@);
    true
}

/// Copies a byte string.
pub fn copy_bytes(b: &Vec<u8>) -> (r: Vec<u8>)
    ensures
        r@ == b@,
{
    let mut r: Vec<u8> = Vec::with_capacity(b.len());
    let mut i: usize = 0;
    while i < b.len()
        invariant
            i <= b@.len(),
            r@ == b@.subrange(0, i as int),
        decreases b@.len() - i,
    {
        r.push(b[i]);
        i = i + 1;
        assert(r@ =~= b@.subrange(0, i as int));
    }
    assert(b@.subrange(0, b@.len() as int) =~= b@);
    r
}

/// Copies `b[start..end]`.
pub fn slice_bytes(b: &Vec<u8>, start: usize, end: usize) -> (r: Vec<u8>)
    requires
        start <= end <= b@.len(),
    ensures
        r@ == b@.subrange(start as int, end as int),
{
    let mut r: Vec<u8> = Vec::with_capacity(end - start);
    let mut i: usize = start;
    while i < end
        invariant
            start <= i <= end,
            end <= b@.len(),
            r@ == b@.subrange(start as int, i as int),
        decreases end - i,
    {
        r.push(b[i]);
        i = i + 1;
        assert(r@ =~= b@.subrange(start as int, i as int));
    }
    r
}

/// How a cell dependency is used: as code, or as a group listing further out-points.
#[derive(Debug, Clone, Copy, PartialEq, Eq, Structural)]
pub enum DepType {
    Code,
    DepGroup,
}

/// Reference to one output of one transaction: (transaction hash, output index).
#[derive(Debug)]
pub struct OutPoint {
    pub tx_hash: Vec<u8>,
    pub index: u32,
}

pub type OutPointModel = (Seq<u8>, u32);

impl View for OutPoint {
    type V = OutPointModel;

    open spec fn view(&self) -> OutPointModel {
        (self.tx_hash@, self.index)
    }
}

impl OutPoint {
    pub fn new(tx_hash: Vec<u8>, index: u32) -> (r: OutPoint)
        ensures
            r@ == (tx_hash@, index),
    {
        OutPoint { tx_hash, index }
    }

    pub fn same_as(&self, other: &OutPoint) -> (r: bool)
        ensures
            r == (self@ == other@),
    {
        self.index == other.index && bytes_equal(&self.tx_hash, &other.tx_hash)
    }
}

impl Clone for OutPoint {
    fn clone(&self) -> (r: Self)
        ensures
            r@ == self@,
    {
        OutPoint { tx_hash: copy_bytes(&self.tx_hash), index: self.index }
    }
}

impl PartialEq for OutPoint {
    fn eq(&self, other: &OutPoint) -> (r: bool) {
        self.same_as(other)
    }
}

impl vstd::std_specs::cmp::PartialEqSpecImpl for OutPoint {
    open spec fn obeys_eq_spec() -> bool {
        true
    }

    open spec fn eq_spec(&self, other: &OutPoint) -> bool {
        self@ == other@
    }
}

/// A transaction input: the out-point it spends and its `since` restriction.
#[derive(Debug)]
pub struct CellInput {
    pub previous_output: OutPoint,
    pub since: u64,
}

pub type CellInputModel = (OutPointModel, u64);

impl View for CellInput {
    type V = CellInputModel;

    open spec fn view(&self) -> CellInputModel {
        (self.previous_output@, self.since)
    }
}

impl CellInput {
    pub fn same_as(&self, other: &CellInput) -> (r: bool)
        ensures
            r == (self@ == other@),
    {
        self.since == other.since && self.previous_output.same_as(&other.previous_output)
    }
}

impl Clone for CellInput {
    fn clone(&self) -> (r: Self)
        ensures
            r@ == self@,
    {
        CellInput { previous_output: self.previous_output.clone(), since: self.since }
    }
}

/// A transaction cell dependency.
#[derive(Debug)]
pub struct CellDep {
    pub out_point: OutPoint,
    pub dep_type: DepType,
}

pub type CellDepModel = (OutPointModel, DepType);

impl View for CellDep {
    type V = CellDepModel;

    open spec fn view(&self) -> CellDepModel {
        (self.out_point@, self.dep_type)
    }
}

impl Clone for CellDep {
    fn clone(&self) -> (r: Self)
        ensures
            r@ == self@,
    {
        CellDep { out_point: self.out_point.clone(), dep_type: self.dep_type }
    }
}

/// A lock or type script reference.
#[derive(Debug)]
pub struct Script {
    pub code_hash: Vec<u8>,
    pub hash_type: u8,
    pub args: Vec<u8>,
}

pub type ScriptModel = (Seq<u8>, u8, Seq<u8>);

impl View for Script {
    type V = ScriptModel;

    open spec fn view(&self) -> ScriptModel {
        (self.code_hash@, self.hash_type, self.args@)
    }
}

impl Clone for Script {
    fn clone(&self) -> (r: Self)
        ensures
            r@ == self@,
    {
        Script {
            code_hash: copy_bytes(&self.code_hash),
            hash_type: self.hash_type,
            args: copy_bytes(&self.args),
        }
    }
}

pub open spec fn opt_script_view(s: Option<Script>) -> Option<ScriptModel> {
    match s {
        Some(x) => Some(x@),
        None => None,
    }
}

/// A cell's output: its capacity and scripts.
#[derive(Debug)]
pub struct CellOutput {
    pub capacity: u64,
    pub lock: Script,
    pub type_: Option<Script>,
}

pub type CellOutputModel = (u64, ScriptModel, Option<ScriptModel>);

impl View for CellOutput {
    type V = CellOutputModel;

    open spec fn view(&self) -> CellOutputModel {
        (self.capacity, self.lock@, opt_script_view(self.type_))
    }
}

impl Clone for CellOutput {
    fn clone(&self) -> (r: Self)
        ensures
            r@ == self@,
    {
        let type_ = match &self.type_ {
            Some(s) => Some(s.clone()),
            None => None,
        };
        CellOutput { capacity: self.capacity, lock: self.lock.clone(), type_ }
    }
}

/// Bounds, exclusive, on the epoch number and on the index and length that a
/// header's packed epoch field holds.
pub const EPOCH_NUMBER_LIMIT: u64 = 0x100_0000;
pub const EPOCH_FRACTION_LIMIT: u64 = 0x1_0000;

/// An epoch position: epoch number, and the fraction `index / length` within it.
#[derive(Debug, Clone, Copy, PartialEq, Eq, Structural)]
pub struct EpochNumberWithFraction {
    pub number: u64,
    pub index: u64,
    pub length: u64,
}

impl EpochNumberWithFraction {
    /// Fields within the widths of the ledger's packed epoch encoding.
    pub open spec fn wf(&self) -> bool {
        &&& self.number < EPOCH_NUMBER_LIMIT
        &&& self.index < EPOCH_FRACTION_LIMIT
        &&& self.length < EPOCH_FRACTION_LIMIT
    }

    pub fn new(number: u64, index: u64, length: u64) -> (r: EpochNumberWithFraction)
        ensures
            r.number == number,
            r.index == index,
            r.length == length,
    {
        EpochNumberWithFraction { number, index, length }
    }
}

/// A block header. `hash` is the hash the header is known by; it is carried as
/// given and never recomputed from the other fields.
#[derive(Debug)]
pub struct Header {
    pub hash: Vec<u8>,
    pub version: u32,
    pub compact_target: u32,
    pub parent_hash: Vec<u8>,
    pub number: u64,
    pub timestamp: u64,
    pub epoch: EpochNumberWithFraction,
    pub transactions_root: Vec<u8>,
    pub proposals_hash: Vec<u8>,
    pub extra_hash: Vec<u8>,
    pub dao: Vec<u8>,
    pub nonce: u128,
}

pub struct HeaderModel {
    pub hash: Seq<u8>,
    pub version: u32,
    pub compact_target: u32,
    pub parent_hash: Seq<u8>,
    pub number: u64,
    pub timestamp: u64,
    pub epoch: EpochNumberWithFraction,
    pub transactions_root: Seq<u8>,
    pub proposals_hash: Seq<u8>,
    pub extra_hash: Seq<u8>,
    pub dao: Seq<u8>,
    pub nonce: u128,
}

impl View for Header {
    type V = HeaderModel;

    open spec fn view(&self) -> HeaderModel {
        HeaderModel {
            hash: self.hash@,
            version: self.version,
            compact_target: self.compact_target,
            parent_hash: self.parent_hash@,
            number: self.number,
            timestamp: self.timestamp,
            epoch: self.epoch,
            transactions_root: self.transactions_root@,
            proposals_hash: self.proposals_hash@,
            extra_hash: self.extra_hash@,
            dao: self.dao@,
            nonce: self.nonce,
        }
    }
}

impl Clone for Header {
    fn clone(&self) -> (r: Self)
        ensures
            r@ == self@,
    {
        Header {
            hash: copy_bytes(&self.hash),
            version: self.version,
            compact_target: self.compact_target,
            parent_hash: copy_bytes(&self.parent_hash),
            number: self.number,
            timestamp: self.timestamp,
            epoch: self.epoch,
            transactions_root: copy_bytes(&self.transactions_root),
            proposals_hash: copy_bytes(&self.proposals_hash),
            extra_hash: copy_bytes(&self.extra_hash),
            dao: copy_bytes(&self.dao),
            nonce: self.nonce,
        }
    }
}

} // verus!
