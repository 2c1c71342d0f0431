//! Mock transactions: a transaction skeleton paired with caller-declared
//! overrides for its inputs, cell dependencies and header dependencies, and
//! the live data source that answers whatever the overrides leave open.
use vstd::prelude::*;
use crate::types::{
    bytes_equal, copy_bytes, views_of, CellDep, CellDepModel, CellInput, CellInputModel, CellOutput,
    CellOutputModel,
    Header, HeaderModel, OutPoint, OutPointModel,
};

verus! {

/// What a cell holds: its output and its data.
pub type CellModel = (CellOutputModel, Seq<u8>);

pub open spec fn opt_cell_view(c: Option<(CellOutput, Vec<u8>)>) -> Option<CellModel> {
    match c {
        Some((o, d)) => Some((o@, d@)),
        None => None,
    }
}

pub open spec fn opt_header_view(h: Option<Header>) -> Option<HeaderModel> {
    match h {
        Some(x) => Some(x@),
        None => None,
    }
}

/// An override for a cell dependency.
#[derive(Debug)]
pub struct MockCellDep {
    pub cell_dep: CellDep,
    pub output: CellOutput,
    pub data: Vec<u8>,
}

/// An override for a transaction input: the cell it spends.
#[derive(Debug)]
pub struct MockInput {
    pub input: CellInput,
    pub output: CellOutput,
    pub data: Vec<u8>,
}

/// The overrides of a mock transaction, in declaration order.
#[derive(Debug)]
pub struct MockInfo {
    pub inputs: Vec<MockInput>,
    pub cell_deps: Vec<MockCellDep>,
    pub header_deps: Vec<Header>,
}

pub type MockCellDepModel = (CellDepModel, CellOutputModel, Seq<u8>);

impl View for MockCellDep {
    type V = MockCellDepModel;

    open spec fn view(&self) -> MockCellDepModel {
        (self.cell_dep@, self.output@, self.data@)
    }
}

pub type MockInputModel = (CellInputModel, CellOutputModel, Seq<u8>);

impl View for MockInput {
    type V = MockInputModel;

    open spec fn view(&self) -> MockInputModel {
        (self.input@, self.output@, self.data@)
    }
}

pub type MockInfoModel = (Seq<MockInputModel>, Seq<MockCellDepModel>, Seq<HeaderModel>);

impl View for MockInfo {
    type V = MockInfoModel;

    open spec fn view(&self) -> MockInfoModel {
        (
            views_of(self.inputs@),
            views_of(self.cell_deps@),
            views_of(self.header_deps@),
        )
    }
}

/// A transaction skeleton. Nothing in it is validated here.
#[derive(Debug)]
pub struct Transaction {
    pub version: u32,
    pub cell_deps: Vec<CellDep>,
    pub header_deps: Vec<Vec<u8>>,
    pub inputs: Vec<CellInput>,
    pub outputs: Vec<CellOutput>,
    pub outputs_data: Vec<Vec<u8>>,
    pub witnesses: Vec<Vec<u8>>,
}

pub struct TransactionModel {
    pub version: u32,
    pub cell_deps: Seq<CellDepModel>,
    pub header_deps: Seq<Seq<u8>>,
    pub inputs: Seq<CellInputModel>,
    pub outputs: Seq<CellOutputModel>,
    pub outputs_data: Seq<Seq<u8>>,
    pub witnesses: Seq<Seq<u8>>,
}

impl View for Transaction {
    type V = TransactionModel;

    open spec fn view(&self) -> TransactionModel {
        TransactionModel {
            version: self.version,
            cell_deps: views_of(self.cell_deps@),
            header_deps: views_of(self.header_deps@),
            inputs: views_of(self.inputs@),
            outputs: views_of(self.outputs@),
            outputs_data: views_of(self.outputs_data@),
            witnesses: views_of(self.witnesses@),
        }
    }
}

/// A transaction skeleton with its overrides.
#[derive(Debug)]
pub struct MockTransaction {
    pub mock_info: MockInfo,
    pub tx: Transaction,
}

impl View for MockTransaction {
    type V = (MockInfoModel, TransactionModel);

    open spec fn view(&self) -> (MockInfoModel, TransactionModel) {
        (self.mock_info@, self.tx@)
    }
}

/// The first input override, from position `i` on, declared for `input`.
pub open spec fn input_override_from(s: Seq<MockInput>, input: CellInputModel, i: int) -> Option<
    CellModel,
>
    decreases s.len() - i,
{
    if i < 0 || i >= s.len() {
        None
    } else if s[i].input@ == input {
        Some((s[i].output@, s[i].data@))
    } else {
        input_override_from(s, input, i + 1)
    }
}

/// The first dependency override, from position `i` on, whose out-point is `op`.
pub open spec fn dep_override_from(s: Seq<MockCellDep>, op: OutPointModel, i: int) -> Option<
    CellModel,
>
    decreases s.len() - i,
{
    if i < 0 || i >= s.len() {
        None
    } else if s[i].cell_dep.out_point@ == op {
        Some((s[i].output@, s[i].data@))
    } else {
        dep_override_from(s, op, i + 1)
    }
}

/// The first header override, from position `i` on, whose hash is `hash`.
pub open spec fn header_override_from(s: Seq<Header>, hash: Seq<u8>, i: int) -> Option<HeaderModel>
    decreases s.len() - i,
{
    if i < 0 || i >= s.len() {
        None
    } else if s[i].hash@ == hash {
        Some(s[i]@)
    } else {
        header_override_from(s, hash, i + 1)
    }
}

/// A source of live ledger data, fetched one key at a time. A fetch answers
/// with the value, with `None` for a key it does not hold, or with an error.
pub trait MockResourceLoader {
    fn get_header(&mut self, hash: &Vec<u8>) -> Result<Option<Header>, String>;

    fn get_live_cell(&mut self, out_point: &OutPoint) -> Result<
        Option<(CellOutput, Vec<u8>)>,
        String,
    >;
}

/// What a cell fetch answered.
pub type CellAnswer = Result<Option<CellModel>, Seq<char>>;

/// What a header fetch answered.
pub type HeaderAnswer = Result<Option<HeaderModel>, Seq<char>>;

/// One fetch made of a live source: the key asked and the answer given.
pub enum Fetch {
    Cell(OutPointModel, CellAnswer),
    Header(Seq<u8>, HeaderAnswer),
}

pub open spec fn cell_answer(r: Result<Option<(CellOutput, Vec<u8>)>, String>) -> CellAnswer {
    match r {
        Ok(c) => Ok(opt_cell_view(c)),
        Err(e) => Err(e@),
    }
}

pub open spec fn header_answer(r: Result<Option<Header>, String>) -> HeaderAnswer {
    match r {
        Ok(h) => Ok(opt_header_view(h)),
        Err(e) => Err(e@),
    }
}

/// A live source with the record of every fetch made of it through here.
pub struct Recorded<L> {
    pub source: L,
    log: Ghost<Seq<Fetch>>,
}

impl<L: MockResourceLoader> Recorded<L> {
    /// The fetches made so far, in order.
    pub closed spec fn fetches(&self) -> Seq<Fetch> {
        self.log@
    }

    pub fn new(source: L) -> (r: Recorded<L>)
        ensures
            r.fetches() == Seq::<Fetch>::empty(),
    {
        Recorded { source, log: Ghost(Seq::empty()) }
    }

    /// Fetches the cell at `out_point` from the source, once.
    pub fn fetch_cell(&mut self, out_point: &OutPoint) -> (r: Result<
        Option<(CellOutput, Vec<u8>)>,
        String,
    >)
        ensures
            final(self).fetches() == old(self).fetches().push(
                Fetch::Cell(out_point@, cell_answer(r)),
            ),
    {
        let r = self.source.get_live_cell(out_point);
        self.log = Ghost(self.log@.push(Fetch::Cell(out_point@, cell_answer(r))));
        r
    }

    /// Fetches the header with hash `hash` from the source, once.
    pub fn fetch_header(&mut self, hash: &Vec<u8>) -> (r: Result<Option<Header>, String>)
        ensures
            final(self).fetches() == old(self).fetches().push(
                Fetch::Header(hash@, header_answer(r)),
            ),
    {
        let r = self.source.get_header(hash);
        self.log = Ghost(self.log@.push(Fetch::Header(hash@, header_answer(r))));
        r
    }
}

impl MockTransaction {
    pub open spec fn input_override(&self, input: CellInputModel) -> Option<CellModel> {
        input_override_from(self.mock_info.inputs@, input, 0)
    }

    pub open spec fn dep_override(&self, op: OutPointModel) -> Option<CellModel> {
        dep_override_from(self.mock_info.cell_deps@, op, 0)
    }

    pub open spec fn header_override(&self, hash: Seq<u8>) -> Option<HeaderModel> {
        header_override_from(self.mock_info.header_deps@, hash, 0)
    }

    /// The first declared override for `input`, if any.
    pub fn find_input_override(&self, input: &CellInput) -> (r: Option<(CellOutput, Vec<u8>)>)
        ensures
            opt_cell_view(r) == self.input_override(input@),
    {
        let s = &self.mock_info.inputs;
        let mut i: usize = 0;
        while i < s.len()
            invariant
                s@ == self.mock_info.inputs@,
                i <= s@.len(),
                input_override_from(s@, input@, 0) == input_override_from(s@, input@, i as int),
            decreases s@.len() - i,
        {
            if s[i].input.same_as(input) {
                let o = s[i].output.clone();
                return Some((o, copy_bytes(&s[i].data)));
            }
            i = i + 1;
        }
        None
    }

    /// The first declared dependency override for `out_point`, if any.
    pub fn find_dep_override(&self, out_point: &OutPoint) -> (r: Option<(CellOutput, Vec<u8>)>)
        ensures
            opt_cell_view(r) == self.dep_override(out_point@),
    {
        let s = &self.mock_info.cell_deps;
        let mut i: usize = 0;
        while i < s.len()
            invariant
                s@ == self.mock_info.cell_deps@,
                i <= s@.len(),
                dep_override_from(s@, out_point@, 0) == dep_override_from(
                    s@,
                    out_point@,
                    i as int,
                ),
            decreases s@.len() - i,
        {
            if s[i].cell_dep.out_point.same_as(out_point) {
                return Some((s[i].output.clone(), copy_bytes(&s[i].data)));
            }
            i = i + 1;
        }
        None
    }

    /// The first declared header override with hash `block_hash`, if any.
    pub fn find_header_override(&self, block_hash: &Vec<u8>) -> (r: Option<Header>)
        ensures
            opt_header_view(r) == self.header_override(block_hash@),
    {
        let s = &self.mock_info.header_deps;
        let mut i: usize = 0;
        while i < s.len()
            invariant
                s@ == self.mock_info.header_deps@,
                i <= s@.len(),
                header_override_from(s@, block_hash@, 0) == header_override_from(
                    s@,
                    block_hash@,
                    i as int,
                ),
            decreases s@.len() - i,
        {
            if bytes_equal(&s[i].hash, block_hash) {
                return Some(s[i].clone());
            }
            i = i + 1;
        }
        None
    }

    /// The cell an input spends: its override if declared, with no fetch;
    /// else the answer of one fetch of the input's previous output.
    pub fn get_input_cell<L: MockResourceLoader>(
        &self,
        input: &CellInput,
        loader: &mut Recorded<L>,
    ) -> (r: Result<Option<(CellOutput, Vec<u8>)>, String>)
        ensures
            self.input_override(input@) matches Some(c) ==> cell_answer(r) == CellAnswer::Ok(
                Some(c),
            ) && final(loader).fetches() == old(loader).fetches(),
            self.input_override(input@) is None ==> final(loader).fetches() == old(
                loader,
            ).fetches().push(Fetch::Cell(input@.0, cell_answer(r))),
    {
        match self.find_input_override(input) {
            Some(c) => Ok(Some(c)),
            None => loader.fetch_cell(&input.previous_output),
        }
    }

    /// The cell at a dependency's out-point: its override if declared, with no
    /// fetch; else the answer of one fetch of that out-point.
    pub fn get_dep_cell<L: MockResourceLoader>(
        &self,
        out_point: &OutPoint,
        loader: &mut Recorded<L>,
    ) -> (r: Result<Option<(CellOutput, Vec<u8>)>, String>)
        ensures
            self.dep_override(out_point@) matches Some(c) ==> cell_answer(r) == CellAnswer::Ok(
                Some(c),
            ) && final(loader).fetches() == old(loader).fetches(),
            self.dep_override(out_point@) is None ==> final(loader).fetches() == old(
                loader,
            ).fetches().push(Fetch::Cell(out_point@, cell_answer(r))),
    {
        match self.find_dep_override(out_point) {
            Some(c) => Ok(Some(c)),
            None => loader.fetch_cell(out_point),
        }
    }

    /// The header with hash `block_hash`: its override if declared, with no
    /// fetch; else the answer of one fetch of that hash.
    pub fn get_header<L: MockResourceLoader>(
        &self,
        block_hash: &Vec<u8>,
        loader: &mut Recorded<L>,
    ) -> (r: Result<Option<Header>, String>)
        ensures
            self.header_override(block_hash@) matches Some(h) ==> header_answer(r)
                == HeaderAnswer::Ok(Some(h)) && final(loader).fetches() == old(loader).fetches(),
            self.header_override(block_hash@) is None ==> final(loader).fetches() == old(
                loader,
            ).fetches().push(Fetch::Header(block_hash@, header_answer(r))),
    {
        match self.find_header_override(block_hash) {
            Some(h) => Ok(Some(h)),
            None => loader.fetch_header(block_hash),
        }
    }
}

} // verus!
