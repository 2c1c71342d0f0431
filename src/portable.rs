//! The portable mirror of mock transactions: the same fields, with every
//! binary field written as hex text, ready for a text format. A header keeps
//! the hash it was given, whatever its other fields would hash to.
use vstd::prelude::*;
use crate::hex::{decode_hex, encode_hex, hex_text, is_hex_text, lemma_hex_text_injective};
use crate::mock::{MockCellDep, MockInfo, MockInput, MockTransaction, Transaction};
use crate::types::{
    views_of, CellDep, CellInput, CellOutput, DepType, EpochNumberWithFraction, Header, OutPoint,
    Script,
};

verus! {

/// A value with a portable representation that reads back to an equal value.
pub trait Portable: Sized + View {
    type Repr;

    /// `r` is a representation of `self`.
    spec fn represents(&self, r: &Self::Repr) -> bool;

    /// `r` reads back to some value.
    spec fn readable(r: &Self::Repr) -> bool;

    fn to_repr(&self) -> (r: Self::Repr)
        ensures
            self.represents(&r),
    ;

    fn from_repr(r: &Self::Repr) -> (x: Option<Self>)
        ensures
            x is Some <==> Self::readable(r),
            x matches Some(v) ==> v.represents(r),
    ;

    /// A representation is readable, and represents one value only.
    proof fn lemma_represents(a: &Self, b: &Self, r: &Self::Repr)
        requires
            a.represents(r),
        ensures
            Self::readable(r),
            b.represents(r) ==> a@ == b@,
    ;
}

impl Portable for Vec<u8> {
    type Repr = String;

    open spec fn represents(&self, r: &String) -> bool {
        r@ == hex_text(self@)
    }

    open spec fn readable(r: &String) -> bool {
        is_hex_text(r@)
    }

    fn to_repr(&self) -> (r: String) {
        encode_hex(self)
    }

    fn from_repr(r: &String) -> (x: Option<Vec<u8>>) {
        decode_hex(r)
    }

    proof fn lemma_represents(a: &Vec<u8>, b: &Vec<u8>, r: &String) {
        if b.represents(r) {
            lemma_hex_text_injective(a@, b@);
        }
    }
}

/// Every element of `v` is represented at the same place in `r`.
pub open spec fn all_represent<T: Portable>(v: Seq<T>, r: Seq<T::Repr>) -> bool {
    &&& v.len() == r.len()
    &&& forall|i: int| 0 <= i < v.len() ==> (#[trigger] v[i]).represents(&r[i])
}

pub open spec fn all_readable<T: Portable>(r: Seq<T::Repr>) -> bool {
    forall|i: int| 0 <= i < r.len() ==> T::readable(&#[trigger] r[i])
}

pub fn vec_to_repr<T: Portable>(v: &Vec<T>) -> (r: Vec<T::Repr>)
    ensures
        all_represent(v@, r@),
{
    let mut r: Vec<T::Repr> = Vec::with_capacity(v.len());
    let mut i: usize = 0;
    while i < v.len()
        invariant
            i <= v@.len(),
            r@.len() == i,
            forall|j: int| 0 <= j < i ==> (#[trigger] v@[j]).represents(&r@[j]),
        decreases v@.len() - i,
    {
        r.push(v[i].to_repr());
        i = i + 1;
    }
    r
}

pub fn vec_from_repr<T: Portable>(r: &Vec<T::Repr>) -> (x: Option<Vec<T>>)
    ensures
        x is Some <==> all_readable::<T>(r@),
        x matches Some(v) ==> all_represent(v@, r@),
{
    let mut v: Vec<T> = Vec::with_capacity(r.len());
    let mut i: usize = 0;
    while i < r.len()
        invariant
            i <= r@.len(),
            v@.len() == i,
            forall|j: int| 0 <= j < i ==> (#[trigger] v@[j]).represents(&r@[j]),
            forall|j: int| 0 <= j < i ==> T::readable(&#[trigger] r@[j]),
        decreases r@.len() - i,
    {
        match T::from_repr(&r[i]) {
            Some(x) => v.push(x),
            None => return None,
        }
        i = i + 1;
    }
    Some(v)
}

pub proof fn lemma_all_represent<T: Portable>(a: Seq<T>, b: Seq<T>, r: Seq<T::Repr>)
    requires
        all_represent(a, r),
    ensures
        all_readable::<T>(r),
        all_represent(b, r) ==> views_of(a) == views_of(b),
{
    assert forall|i: int| 0 <= i < r.len() implies T::readable(&#[trigger] r[i]) by {
        T::lemma_represents(&a[i], &a[i], &r[i]);
    }
    if all_represent(b, r) {
        assert forall|i: int| 0 <= i < a.len() implies views_of(a)[i] == views_of(b)[i] by {
            T::lemma_represents(&a[i], &b[i], &r[i]);
        }
        assert(views_of(a) =~= views_of(b));
    }
}

/// Portable form of an out-point.
#[derive(Debug, Clone)]
pub struct ReprOutPoint {
    pub tx_hash: String,
    pub index: u32,
}

impl Portable for OutPoint {
    type Repr = ReprOutPoint;

    open spec fn represents(&self, r: &ReprOutPoint) -> bool {
        self.tx_hash.represents(&r.tx_hash) && self.index == r.index
    }

    open spec fn readable(r: &ReprOutPoint) -> bool {
        Vec::<u8>::readable(&r.tx_hash)
    }

    fn to_repr(&self) -> (r: ReprOutPoint) {
        ReprOutPoint { tx_hash: self.tx_hash.to_repr(), index: self.index }
    }

    fn from_repr(r: &ReprOutPoint) -> (x: Option<OutPoint>) {
        match Vec::<u8>::from_repr(&r.tx_hash) {
            Some(tx_hash) => Some(OutPoint { tx_hash, index: r.index }),
            None => None,
        }
    }

    proof fn lemma_represents(a: &OutPoint, b: &OutPoint, r: &ReprOutPoint) {
        Vec::<u8>::lemma_represents(&a.tx_hash, &b.tx_hash, &r.tx_hash);
    }
}

/// Portable form of a transaction input.
#[derive(Debug, Clone)]
pub struct ReprCellInput {
    pub previous_output: ReprOutPoint,
    pub since: u64,
}

impl Portable for CellInput {
    type Repr = ReprCellInput;

    open spec fn represents(&self, r: &ReprCellInput) -> bool {
        self.previous_output.represents(&r.previous_output) && self.since == r.since
    }

    open spec fn readable(r: &ReprCellInput) -> bool {
        OutPoint::readable(&r.previous_output)
    }

    fn to_repr(&self) -> (r: ReprCellInput) {
        ReprCellInput { previous_output: self.previous_output.to_repr(), since: self.since }
    }

    fn from_repr(r: &ReprCellInput) -> (x: Option<CellInput>) {
        match OutPoint::from_repr(&r.previous_output) {
            Some(previous_output) => Some(CellInput { previous_output, since: r.since }),
            None => None,
        }
    }

    proof fn lemma_represents(a: &CellInput, b: &CellInput, r: &ReprCellInput) {
        OutPoint::lemma_represents(&a.previous_output, &b.previous_output, &r.previous_output);
    }
}

/// Portable form of a cell dependency.
#[derive(Debug, Clone)]
pub struct ReprCellDep {
    pub out_point: ReprOutPoint,
    pub dep_type: DepType,
}

impl Portable for CellDep {
    type Repr = ReprCellDep;

    open spec fn represents(&self, r: &ReprCellDep) -> bool {
        self.out_point.represents(&r.out_point) && self.dep_type == r.dep_type
    }

    open spec fn readable(r: &ReprCellDep) -> bool {
        OutPoint::readable(&r.out_point)
    }

    fn to_repr(&self) -> (r: ReprCellDep) {
        ReprCellDep { out_point: self.out_point.to_repr(), dep_type: self.dep_type }
    }

    fn from_repr(r: &ReprCellDep) -> (x: Option<CellDep>) {
        match OutPoint::from_repr(&r.out_point) {
            Some(out_point) => Some(CellDep { out_point, dep_type: r.dep_type }),
            None => None,
        }
    }

    proof fn lemma_represents(a: &CellDep, b: &CellDep, r: &ReprCellDep) {
        OutPoint::lemma_represents(&a.out_point, &b.out_point, &r.out_point);
    }
}

/// Portable form of a script.
#[derive(Debug, Clone)]
pub struct ReprScript {
    pub code_hash: String,
    pub hash_type: u8,
    pub args: String,
}

impl Portable for Script {
    type Repr = ReprScript;

    open spec fn represents(&self, r: &ReprScript) -> bool {
        &&& self.code_hash.represents(&r.code_hash)
        &&& self.hash_type == r.hash_type
        &&& self.args.represents(&r.args)
    }

    open spec fn readable(r: &ReprScript) -> bool {
        Vec::<u8>::readable(&r.code_hash) && Vec::<u8>::readable(&r.args)
    }

    fn to_repr(&self) -> (r: ReprScript) {
        ReprScript {
            code_hash: self.code_hash.to_repr(),
            hash_type: self.hash_type,
            args: self.args.to_repr(),
        }
    }

    fn from_repr(r: &ReprScript) -> (x: Option<Script>) {
        match (Vec::<u8>::from_repr(&r.code_hash), Vec::<u8>::from_repr(&r.args)) {
            (Some(code_hash), Some(args)) => Some(Script { code_hash, hash_type: r.hash_type, args }),
            _ => None,
        }
    }

    proof fn lemma_represents(a: &Script, b: &Script, r: &ReprScript) {
        Vec::<u8>::lemma_represents(&a.code_hash, &b.code_hash, &r.code_hash);
        Vec::<u8>::lemma_represents(&a.args, &b.args, &r.args);
    }
}

/// Portable form of a cell output.
#[derive(Debug, Clone)]
pub struct ReprCellOutput {
    pub capacity: u64,
    pub lock: ReprScript,
    pub type_: Option<ReprScript>,
}

impl Portable for CellOutput {
    type Repr = ReprCellOutput;

    open spec fn represents(&self, r: &ReprCellOutput) -> bool {
        &&& self.capacity == r.capacity
        &&& self.lock.represents(&r.lock)
        &&& match (self.type_, r.type_) {
            (Some(s), Some(rs)) => s.represents(&rs),
            (None, None) => true,
            _ => false,
        }
    }

    open spec fn readable(r: &ReprCellOutput) -> bool {
        &&& Script::readable(&r.lock)
        &&& r.type_ matches Some(rs) ==> Script::readable(&rs)
    }

    fn to_repr(&self) -> (r: ReprCellOutput) {
        let type_ = match &self.type_ {
            Some(s) => Some(s.to_repr()),
            None => None,
        };
        ReprCellOutput { capacity: self.capacity, lock: self.lock.to_repr(), type_ }
    }

    fn from_repr(r: &ReprCellOutput) -> (x: Option<CellOutput>) {
        let lock = match Script::from_repr(&r.lock) {
            Some(s) => s,
            None => return None,
        };
        let type_ = match &r.type_ {
            Some(rs) => match Script::from_repr(rs) {
                Some(s) => Some(s),
                None => return None,
            },
            None => None,
        };
        Some(CellOutput { capacity: r.capacity, lock, type_ })
    }

    proof fn lemma_represents(a: &CellOutput, b: &CellOutput, r: &ReprCellOutput) {
        Script::lemma_represents(&a.lock, &b.lock, &r.lock);
        if let (Some(sa), Some(rs)) = (a.type_, r.type_) {
            if let Some(sb) = b.type_ {
                Script::lemma_represents(&sa, &sb, &rs);
            } else {
                Script::lemma_represents(&sa, &sa, &rs);
            }
        }
    }
}

/// Portable form of a header, with the hash it is known by written out.
#[derive(Debug, Clone)]
pub struct ReprHeader {
    pub hash: String,
    pub version: u32,
    pub compact_target: u32,
    pub parent_hash: String,
    pub number: u64,
    pub timestamp: u64,
    pub epoch: EpochNumberWithFraction,
    pub transactions_root: String,
    pub proposals_hash: String,
    pub extra_hash: String,
    pub dao: String,
    pub nonce: u128,
}

impl Portable for Header {
    type Repr = ReprHeader;

    open spec fn represents(&self, r: &ReprHeader) -> bool {
        &&& self.hash.represents(&r.hash)
        &&& self.version == r.version
        &&& self.compact_target == r.compact_target
        &&& self.parent_hash.represents(&r.parent_hash)
        &&& self.number == r.number
        &&& self.timestamp == r.timestamp
        &&& self.epoch == r.epoch
        &&& self.transactions_root.represents(&r.transactions_root)
        &&& self.proposals_hash.represents(&r.proposals_hash)
        &&& self.extra_hash.represents(&r.extra_hash)
        &&& self.dao.represents(&r.dao)
        &&& self.nonce == r.nonce
    }

    open spec fn readable(r: &ReprHeader) -> bool {
        &&& Vec::<u8>::readable(&r.hash)
        &&& Vec::<u8>::readable(&r.parent_hash)
        &&& Vec::<u8>::readable(&r.transactions_root)
        &&& Vec::<u8>::readable(&r.proposals_hash)
        &&& Vec::<u8>::readable(&r.extra_hash)
        &&& Vec::<u8>::readable(&r.dao)
    }

    /// Records the header's own hash as given, not one recomputed from its fields.
    fn to_repr(&self) -> (r: ReprHeader) {
        ReprHeader {
            hash: self.hash.to_repr(),
            version: self.version,
            compact_target: self.compact_target,
            parent_hash: self.parent_hash.to_repr(),
            number: self.number,
            timestamp: self.timestamp,
            epoch: self.epoch,
            transactions_root: self.transactions_root.to_repr(),
            proposals_hash: self.proposals_hash.to_repr(),
            extra_hash: self.extra_hash.to_repr(),
            dao: self.dao.to_repr(),
            nonce: self.nonce,
        }
    }

    /// Sets the recorded hash on the rebuilt header, whatever its fields hash to.
    fn from_repr(r: &ReprHeader) -> (x: Option<Header>) {
        let hash = match Vec::<u8>::from_repr(&r.hash) {
            Some(v) => v,
            None => return None,
        };
        let parent_hash = match Vec::<u8>::from_repr(&r.parent_hash) {
            Some(v) => v,
            None => return None,
        };
        let transactions_root = match Vec::<u8>::from_repr(&r.transactions_root) {
            Some(v) => v,
            None => return None,
        };
        let proposals_hash = match Vec::<u8>::from_repr(&r.proposals_hash) {
            Some(v) => v,
            None => return None,
        };
        let extra_hash = match Vec::<u8>::from_repr(&r.extra_hash) {
            Some(v) => v,
            None => return None,
        };
        let dao = match Vec::<u8>::from_repr(&r.dao) {
            Some(v) => v,
            None => return None,
        };
        Some(
            Header {
                hash,
                version: r.version,
                compact_target: r.compact_target,
                parent_hash,
                number: r.number,
                timestamp: r.timestamp,
                epoch: r.epoch,
                transactions_root,
                proposals_hash,
                extra_hash,
                dao,
                nonce: r.nonce,
            },
        )
    }

    proof fn lemma_represents(a: &Header, b: &Header, r: &ReprHeader) {
        Vec::<u8>::lemma_represents(&a.hash, &b.hash, &r.hash);
        Vec::<u8>::lemma_represents(&a.parent_hash, &b.parent_hash, &r.parent_hash);
        Vec::<u8>::lemma_represents(&a.transactions_root, &b.transactions_root, &r.transactions_root);
        Vec::<u8>::lemma_represents(&a.proposals_hash, &b.proposals_hash, &r.proposals_hash);
        Vec::<u8>::lemma_represents(&a.extra_hash, &b.extra_hash, &r.extra_hash);
        Vec::<u8>::lemma_represents(&a.dao, &b.dao, &r.dao);
    }
}

/// Portable form of an input override.
#[derive(Debug, Clone)]
pub struct ReprMockInput {
    pub input: ReprCellInput,
    pub output: ReprCellOutput,
    pub data: String,
}

impl Portable for MockInput {
    type Repr = ReprMockInput;

    open spec fn represents(&self, r: &ReprMockInput) -> bool {
        &&& self.input.represents(&r.input)
        &&& self.output.represents(&r.output)
        &&& self.data.represents(&r.data)
    }

    open spec fn readable(r: &ReprMockInput) -> bool {
        &&& CellInput::readable(&r.input)
        &&& CellOutput::readable(&r.output)
        &&& Vec::<u8>::readable(&r.data)
    }

    fn to_repr(&self) -> (r: ReprMockInput) {
        ReprMockInput {
            input: self.input.to_repr(),
            output: self.output.to_repr(),
            data: self.data.to_repr(),
        }
    }

    fn from_repr(r: &ReprMockInput) -> (x: Option<MockInput>) {
        match (
            CellInput::from_repr(&r.input),
            CellOutput::from_repr(&r.output),
            Vec::<u8>::from_repr(&r.data),
        ) {
            (Some(input), Some(output), Some(data)) => Some(MockInput { input, output, data }),
            _ => None,
        }
    }

    proof fn lemma_represents(a: &MockInput, b: &MockInput, r: &ReprMockInput) {
        CellInput::lemma_represents(&a.input, &b.input, &r.input);
        CellOutput::lemma_represents(&a.output, &b.output, &r.output);
        Vec::<u8>::lemma_represents(&a.data, &b.data, &r.data);
    }
}

/// Portable form of a dependency override.
#[derive(Debug, Clone)]
pub struct ReprMockCellDep {
    pub cell_dep: ReprCellDep,
    pub output: ReprCellOutput,
    pub data: String,
}

impl Portable for MockCellDep {
    type Repr = ReprMockCellDep;

    open spec fn represents(&self, r: &ReprMockCellDep) -> bool {
        &&& self.cell_dep.represents(&r.cell_dep)
        &&& self.output.represents(&r.output)
        &&& self.data.represents(&r.data)
    }

    open spec fn readable(r: &ReprMockCellDep) -> bool {
        &&& CellDep::readable(&r.cell_dep)
        &&& CellOutput::readable(&r.output)
        &&& Vec::<u8>::readable(&r.data)
    }

    fn to_repr(&self) -> (r: ReprMockCellDep) {
        ReprMockCellDep {
            cell_dep: self.cell_dep.to_repr(),
            output: self.output.to_repr(),
            data: self.data.to_repr(),
        }
    }

    fn from_repr(r: &ReprMockCellDep) -> (x: Option<MockCellDep>) {
        match (
            CellDep::from_repr(&r.cell_dep),
            CellOutput::from_repr(&r.output),
            Vec::<u8>::from_repr(&r.data),
        ) {
            (Some(cell_dep), Some(output), Some(data)) => Some(
                MockCellDep { cell_dep, output, data },
            ),
            _ => None,
        }
    }

    proof fn lemma_represents(a: &MockCellDep, b: &MockCellDep, r: &ReprMockCellDep) {
        CellDep::lemma_represents(&a.cell_dep, &b.cell_dep, &r.cell_dep);
        CellOutput::lemma_represents(&a.output, &b.output, &r.output);
        Vec::<u8>::lemma_represents(&a.data, &b.data, &r.data);
    }
}

/// Portable form of the overrides.
#[derive(Debug, Clone)]
pub struct ReprMockInfo {
    pub inputs: Vec<ReprMockInput>,
    pub cell_deps: Vec<ReprMockCellDep>,
    pub header_deps: Vec<ReprHeader>,
}

impl Portable for MockInfo {
    type Repr = ReprMockInfo;

    open spec fn represents(&self, r: &ReprMockInfo) -> bool {
        &&& all_represent(self.inputs@, r.inputs@)
        &&& all_represent(self.cell_deps@, r.cell_deps@)
        &&& all_represent(self.header_deps@, r.header_deps@)
    }

    open spec fn readable(r: &ReprMockInfo) -> bool {
        &&& all_readable::<MockInput>(r.inputs@)
        &&& all_readable::<MockCellDep>(r.cell_deps@)
        &&& all_readable::<Header>(r.header_deps@)
    }

    fn to_repr(&self) -> (r: ReprMockInfo) {
        ReprMockInfo {
            inputs: vec_to_repr(&self.inputs),
            cell_deps: vec_to_repr(&self.cell_deps),
            header_deps: vec_to_repr(&self.header_deps),
        }
    }

    fn from_repr(r: &ReprMockInfo) -> (x: Option<MockInfo>) {
        match (vec_from_repr(&r.inputs), vec_from_repr(&r.cell_deps), vec_from_repr(&r.header_deps)) {
            (Some(inputs), Some(cell_deps), Some(header_deps)) => Some(
                MockInfo { inputs, cell_deps, header_deps },
            ),
            _ => None,
        }
    }

    proof fn lemma_represents(a: &MockInfo, b: &MockInfo, r: &ReprMockInfo) {
        lemma_all_represent(a.inputs@, b.inputs@, r.inputs@);
        lemma_all_represent(a.cell_deps@, b.cell_deps@, r.cell_deps@);
        lemma_all_represent(a.header_deps@, b.header_deps@, r.header_deps@);
    }
}

/// Portable form of a transaction skeleton.
#[derive(Debug, Clone)]
pub struct ReprTransaction {
    pub version: u32,
    pub cell_deps: Vec<ReprCellDep>,
    pub header_deps: Vec<String>,
    pub inputs: Vec<ReprCellInput>,
    pub outputs: Vec<ReprCellOutput>,
    pub outputs_data: Vec<String>,
    pub witnesses: Vec<String>,
}

impl Portable for Transaction {
    type Repr = ReprTransaction;

    open spec fn represents(&self, r: &ReprTransaction) -> bool {
        &&& self.version == r.version
        &&& all_represent(self.cell_deps@, r.cell_deps@)
        &&& all_represent(self.header_deps@, r.header_deps@)
        &&& all_represent(self.inputs@, r.inputs@)
        &&& all_represent(self.outputs@, r.outputs@)
        &&& all_represent(self.outputs_data@, r.outputs_data@)
        &&& all_represent(self.witnesses@, r.witnesses@)
    }

    open spec fn readable(r: &ReprTransaction) -> bool {
        &&& all_readable::<CellDep>(r.cell_deps@)
        &&& all_readable::<Vec<u8>>(r.header_deps@)
        &&& all_readable::<CellInput>(r.inputs@)
        &&& all_readable::<CellOutput>(r.outputs@)
        &&& all_readable::<Vec<u8>>(r.outputs_data@)
        &&& all_readable::<Vec<u8>>(r.witnesses@)
    }

    fn to_repr(&self) -> (r: ReprTransaction) {
        ReprTransaction {
            version: self.version,
            cell_deps: vec_to_repr(&self.cell_deps),
            header_deps: vec_to_repr(&self.header_deps),
            inputs: vec_to_repr(&self.inputs),
            outputs: vec_to_repr(&self.outputs),
            outputs_data: vec_to_repr(&self.outputs_data),
            witnesses: vec_to_repr(&self.witnesses),
        }
    }

    fn from_repr(r: &ReprTransaction) -> (x: Option<Transaction>) {
        let cell_deps = match vec_from_repr(&r.cell_deps) {
            Some(v) => v,
            None => return None,
        };
        let header_deps = match vec_from_repr(&r.header_deps) {
            Some(v) => v,
            None => return None,
        };
        let inputs = match vec_from_repr(&r.inputs) {
            Some(v) => v,
            None => return None,
        };
        let outputs = match vec_from_repr(&r.outputs) {
            Some(v) => v,
            None => return None,
        };
        let outputs_data = match vec_from_repr(&r.outputs_data) {
            Some(v) => v,
            None => return None,
        };
        let witnesses = match vec_from_repr(&r.witnesses) {
            Some(v) => v,
            None => return None,
        };
        Some(
            Transaction {
                version: r.version,
                cell_deps,
                header_deps,
                inputs,
                outputs,
                outputs_data,
                witnesses,
            },
        )
    }

    proof fn lemma_represents(a: &Transaction, b: &Transaction, r: &ReprTransaction) {
        lemma_all_represent(a.cell_deps@, b.cell_deps@, r.cell_deps@);
        lemma_all_represent(a.header_deps@, b.header_deps@, r.header_deps@);
        lemma_all_represent(a.inputs@, b.inputs@, r.inputs@);
        lemma_all_represent(a.outputs@, b.outputs@, r.outputs@);
        lemma_all_represent(a.outputs_data@, b.outputs_data@, r.outputs_data@);
        lemma_all_represent(a.witnesses@, b.witnesses@, r.witnesses@);
    }
}

/// Portable form of a mock transaction.
#[derive(Debug, Clone)]
pub struct ReprMockTransaction {
    pub mock_info: ReprMockInfo,
    pub tx: ReprTransaction,
}

impl Portable for MockTransaction {
    type Repr = ReprMockTransaction;

    open spec fn represents(&self, r: &ReprMockTransaction) -> bool {
        self.mock_info.represents(&r.mock_info) && self.tx.represents(&r.tx)
    }

    open spec fn readable(r: &ReprMockTransaction) -> bool {
        MockInfo::readable(&r.mock_info) && Transaction::readable(&r.tx)
    }

    fn to_repr(&self) -> (r: ReprMockTransaction) {
        ReprMockTransaction { mock_info: self.mock_info.to_repr(), tx: self.tx.to_repr() }
    }

    fn from_repr(r: &ReprMockTransaction) -> (x: Option<MockTransaction>) {
        match (MockInfo::from_repr(&r.mock_info), Transaction::from_repr(&r.tx)) {
            (Some(mock_info), Some(tx)) => Some(MockTransaction { mock_info, tx }),
            _ => None,
        }
    }

    proof fn lemma_represents(a: &MockTransaction, b: &MockTransaction, r: &ReprMockTransaction) {
        MockInfo::lemma_represents(&a.mock_info, &b.mock_info, &r.mock_info);
        Transaction::lemma_represents(&a.tx, &b.tx, &r.tx);
    }
}

/// Writing a mock transaction to its portable form and reading it back gives
/// an equal transaction, header hashes included as they were given: what
/// `to_repr` writes is readable, and what `from_repr` reads from it equals `m`.
pub proof fn lemma_round_trip(m: MockTransaction, r: ReprMockTransaction, back: MockTransaction)
    requires
        m.represents(&r),
    ensures
        MockTransaction::readable(&r),
        back.represents(&r) ==> back@ == m@,
{
    MockTransaction::lemma_represents(&m, &back, &r);
}

} // verus!
