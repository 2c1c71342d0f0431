//! Resolution of a mock transaction into a self-contained snapshot of every
//! cell and header it references, and the lookups a verifier makes on it.
use vstd::prelude::*;
use crate::group::{group_members, group_well_formed, parse_dep_group};
use crate::hash::{blake2b_256, blake2b_256_of};
use crate::mock::{CellModel, Fetch, MockResourceLoader, MockTransaction, Recorded};
use crate::types::{
    bytes_equal, copy_bytes, CellDep, CellDepModel, CellInput, CellInputModel, CellOutput, DepType,
    Header, HeaderModel, OutPoint, OutPointModel,
};

verus! {

pub type CellEntry = (OutPointModel, CellModel);

pub type HeaderEntry = (Seq<u8>, HeaderModel);

/// The outcome of resolving a mock transaction: its cell and header writes.
pub type ResolveOutcome = Result<(Seq<CellEntry>, Seq<HeaderEntry>), ResolveErrorModel>;

/// The map that a log of writes leaves behind: a later write to a key wins.
pub open spec fn log_map<K, V>(log: Seq<(K, V)>) -> Map<K, V>
    decreases log.len(),
{
    if log.len() == 0 {
        Map::empty()
    } else {
        log_map(log.drop_last()).insert(log.last().0, log.last().1)
    }
}

/// Why a resolution failed.
#[derive(Debug)]
pub enum ResolveError {
    /// The live source failed to answer.
    Loader(String),
    /// An input's cell is neither declared nor live.
    InputNotFound(CellInput),
    /// A dependency's cell is neither declared nor live.
    DepNotFound(CellDep),
    /// A dependency group's payload is not a whole number of out-points.
    MalformedDepGroup(CellDep),
    /// An out-point listed by a dependency group is neither declared nor live.
    GroupMemberNotFound(OutPoint),
    /// A header dependency is neither declared nor live.
    HeaderNotFound(Vec<u8>),
}

pub enum ResolveErrorModel {
    Loader(Seq<char>),
    InputNotFound(CellInputModel),
    DepNotFound(CellDepModel),
    MalformedDepGroup(CellDepModel),
    GroupMemberNotFound(OutPointModel),
    HeaderNotFound(Seq<u8>),
}

impl View for ResolveError {
    type V = ResolveErrorModel;

    open spec fn view(&self) -> ResolveErrorModel {
        match self {
            ResolveError::Loader(e) => ResolveErrorModel::Loader(e@),
            ResolveError::InputNotFound(i) => ResolveErrorModel::InputNotFound(i@),
            ResolveError::DepNotFound(d) => ResolveErrorModel::DepNotFound(d@),
            ResolveError::MalformedDepGroup(d) => ResolveErrorModel::MalformedDepGroup(d@),
            ResolveError::GroupMemberNotFound(o) => ResolveErrorModel::GroupMemberNotFound(o@),
            ResolveError::HeaderNotFound(h) => ResolveErrorModel::HeaderNotFound(h@),
        }
    }
}

/// How one lookup went, given the fetches recorded so far and the number `k`
/// of them already used: found (with the fetches used after it), missing,
/// failed in the source, or not matching the record.
pub enum Step<V> {
    Found(V, nat),
    Missing(nat),
    Failed(Seq<char>, nat),
    Stray,
}

/// Looking up the cell at `key`: its override if any, else the next fetch.
pub open spec fn cell_step(over: Option<CellModel>, f: Seq<Fetch>, k: nat, key: OutPointModel) -> Step<
    CellModel,
> {
    match over {
        Some(c) => Step::Found(c, k),
        None => if k < f.len() {
            match f[k as int] {
                Fetch::Cell(q, a) => if q == key {
                    match a {
                        Ok(Some(c)) => Step::Found(c, k + 1),
                        Ok(None) => Step::Missing(k + 1),
                        Err(e) => Step::Failed(e, k + 1),
                    }
                } else {
                    Step::Stray
                },
                Fetch::Header(_, _) => Step::Stray,
            }
        } else {
            Step::Stray
        },
    }
}

/// Looking up the header with hash `key`: its override if any, else the next fetch.
pub open spec fn header_step(over: Option<HeaderModel>, f: Seq<Fetch>, k: nat, key: Seq<u8>) -> Step<
    HeaderModel,
> {
    match over {
        Some(h) => Step::Found(h, k),
        None => if k < f.len() {
            match f[k as int] {
                Fetch::Header(q, a) => if q == key {
                    match a {
                        Ok(Some(h)) => Step::Found(h, k + 1),
                        Ok(None) => Step::Missing(k + 1),
                        Err(e) => Step::Failed(e, k + 1),
                    }
                } else {
                    Step::Stray
                },
                Fetch::Cell(_, _) => Step::Stray,
            }
        } else {
            Step::Stray
        },
    }
}

/// A resolution in progress: going on with what it has written and the
/// fetches it has used, stopped on an error, or not matching the record.
pub enum Run<T> {
    Going(T, nat),
    Stopped(ResolveErrorModel, nat),
    Stray,
}

/// The first `n` inputs, resolved against the fetch record `f`.
pub open spec fn resolve_inputs(m: MockTransaction, f: Seq<Fetch>, n: nat) -> Run<Seq<CellEntry>>
    decreases n,
{
    if n == 0 {
        Run::Going(seq![], 0)
    } else {
        match resolve_inputs(m, f, (n - 1) as nat) {
            Run::Going(log, k) => {
                let input = m.tx.inputs@[n - 1]@;
                match cell_step(m.input_override(input), f, k, input.0) {
                    Step::Found(c, k2) => Run::Going(log.push((input.0, c)), k2),
                    Step::Missing(k2) => Run::Stopped(ResolveErrorModel::InputNotFound(input), k2),
                    Step::Failed(e, k2) => Run::Stopped(ResolveErrorModel::Loader(e), k2),
                    Step::Stray => Run::Stray,
                }
            },
            other => other,
        }
    }
}

/// The first `n` members of a group, resolved after `log`, from fetch `k0` on.
pub open spec fn resolve_members(
    m: MockTransaction,
    f: Seq<Fetch>,
    members: Seq<OutPointModel>,
    n: nat,
    log: Seq<CellEntry>,
    k0: nat,
) -> Run<Seq<CellEntry>>
    decreases n,
{
    if n == 0 {
        Run::Going(log, k0)
    } else {
        match resolve_members(m, f, members, (n - 1) as nat, log, k0) {
            Run::Going(l, k) => {
                let op = members[n - 1];
                match cell_step(m.dep_override(op), f, k, op) {
                    Step::Found(c, k2) => Run::Going(l.push((op, c)), k2),
                    Step::Missing(k2) => Run::Stopped(
                        ResolveErrorModel::GroupMemberNotFound(op),
                        k2,
                    ),
                    Step::Failed(e, k2) => Run::Stopped(ResolveErrorModel::Loader(e), k2),
                    Step::Stray => Run::Stray,
                }
            },
            other => other,
        }
    }
}

/// One dependency resolved after `log`, from fetch `k` on: a group's members
/// first, then the dependency's own cell.
pub open spec fn resolve_dep(
    m: MockTransaction,
    f: Seq<Fetch>,
    dep: CellDepModel,
    log: Seq<CellEntry>,
    k: nat,
) -> Run<Seq<CellEntry>> {
    match cell_step(m.dep_override(dep.0), f, k, dep.0) {
        Step::Found(c, k2) => if dep.1 == DepType::DepGroup {
            if !group_well_formed(c.1) {
                Run::Stopped(ResolveErrorModel::MalformedDepGroup(dep), k2)
            } else {
                let members = group_members(c.1);
                match resolve_members(m, f, members, members.len(), log, k2) {
                    Run::Going(l, k3) => Run::Going(l.push((dep.0, c)), k3),
                    other => other,
                }
            }
        } else {
            Run::Going(log.push((dep.0, c)), k2)
        },
        Step::Missing(k2) => Run::Stopped(ResolveErrorModel::DepNotFound(dep), k2),
        Step::Failed(e, k2) => Run::Stopped(ResolveErrorModel::Loader(e), k2),
        Step::Stray => Run::Stray,
    }
}

/// All inputs and then the first `n` dependencies, resolved against `f`.
pub open spec fn resolve_deps(m: MockTransaction, f: Seq<Fetch>, n: nat) -> Run<Seq<CellEntry>>
    decreases n,
{
    if n == 0 {
        resolve_inputs(m, f, m.tx.inputs@.len())
    } else {
        match resolve_deps(m, f, (n - 1) as nat) {
            Run::Going(log, k) => resolve_dep(m, f, m.tx.cell_deps@[n - 1]@, log, k),
            other => other,
        }
    }
}

/// The first `n` header dependencies, resolved from fetch `k0` on.
pub open spec fn resolve_headers(m: MockTransaction, f: Seq<Fetch>, n: nat, k0: nat) -> Run<
    Seq<HeaderEntry>,
>
    decreases n,
{
    if n == 0 {
        Run::Going(seq![], k0)
    } else {
        match resolve_headers(m, f, (n - 1) as nat, k0) {
            Run::Going(log, k) => {
                let hash = m.tx.header_deps@[n - 1]@;
                match header_step(m.header_override(hash), f, k, hash) {
                    Step::Found(h, k2) => Run::Going(log.push((hash, h)), k2),
                    Step::Missing(k2) => Run::Stopped(ResolveErrorModel::HeaderNotFound(hash), k2),
                    Step::Failed(e, k2) => Run::Stopped(ResolveErrorModel::Loader(e), k2),
                    Step::Stray => Run::Stray,
                }
            },
            Run::Stopped(e, k) => Run::Stopped(e, k),
            Run::Stray => Run::Stray,
        }
    }
}

/// Resolution of `m` given that the live source answered the fetches `f`:
/// inputs, then dependencies (each group's members before the group's own
/// cell), then header dependencies, each from its override if declared and
/// else from the next fetch, which must ask for that key; stopping at the
/// first failure. `None` when `f` is not exactly the fetches so made.
pub open spec fn replay(m: MockTransaction, f: Seq<Fetch>) -> Option<ResolveOutcome> {
    match resolve_deps(m, f, m.tx.cell_deps@.len()) {
        Run::Going(cells, k) => match resolve_headers(m, f, m.tx.header_deps@.len(), k) {
            Run::Going(headers, k2) => if k2 == f.len() {
                Some(ResolveOutcome::Ok((cells, headers)))
            } else {
                None
            },
            Run::Stopped(e, k2) => if k2 == f.len() {
                Some(ResolveOutcome::Err(e))
            } else {
                None
            },
            Run::Stray => None,
        },
        Run::Stopped(e, k) => if k == f.len() {
            Some(ResolveOutcome::Err(e))
        } else {
            None
        },
        Run::Stray => None,
    }
}

/// Every key that resolving `m` consults has an override.
pub open spec fn overrides_cover(m: MockTransaction) -> bool {
    &&& forall|i: int|
        0 <= i < m.tx.inputs@.len() ==> (#[trigger] m.input_override(m.tx.inputs@[i]@)) is Some
    &&& forall|j: int|
        0 <= j < m.tx.cell_deps@.len() ==> #[trigger] dep_covered(m, m.tx.cell_deps@[j]@)
    &&& forall|h: int|
        0 <= h < m.tx.header_deps@.len() ==> (#[trigger] m.header_override(
            m.tx.header_deps@[h]@,
        )) is Some
}

/// A dependency has an override and, if it is a group, a well-formed payload
/// whose every member has an override.
pub open spec fn dep_covered(m: MockTransaction, dep: CellDepModel) -> bool {
    &&& m.dep_override(dep.0) is Some
    &&& dep.1 == DepType::DepGroup ==> group_well_formed(m.dep_override(dep.0)->Some_0.1)
    &&& dep.1 == DepType::DepGroup ==> forall|k: int|
        0 <= k < group_members(m.dep_override(dep.0)->Some_0.1).len() ==> (#[trigger] m.dep_override(
            group_members(m.dep_override(dep.0)->Some_0.1)[k],
        )) is Some
}

/// `g` begins with `f`.
pub open spec fn extends(g: Seq<Fetch>, f: Seq<Fetch>) -> bool {
    f.len() <= g.len() && forall|i: int| 0 <= i < f.len() ==> g[i] == f[i]
}

/// A resolved cell: its out-point, its output and, when loaded, its data with
/// the data's hash.
#[derive(Debug)]
pub struct CellMeta {
    pub out_point: OutPoint,
    pub cell_output: CellOutput,
    pub mem_cell_data: Option<(Vec<u8>, Vec<u8>)>,
}

impl CellMeta {
    pub open spec fn data_model(&self) -> Seq<u8> {
        match self.mem_cell_data {
            Some((d, _)) => d@,
            None => seq![],
        }
    }

    pub open spec fn entry(&self) -> CellEntry {
        (self.out_point@, (self.cell_output@, self.data_model()))
    }

    /// Data loaded, and its hash the hash of the data.
    pub open spec fn loaded(&self) -> bool {
        &&& self.mem_cell_data is Some
        &&& self.mem_cell_data->Some_0.1@ == blake2b_256_of(self.mem_cell_data->Some_0.0@)
    }

    /// A resolved cell with its data loaded.
    pub fn from_cell_output(out_point: OutPoint, output: CellOutput, data: Vec<u8>) -> (r: CellMeta)
        ensures
            r.entry() == (out_point@, (output@, data@)),
            r.loaded(),
    {
        let hash = blake2b_256(&data);
        CellMeta { out_point, cell_output: output, mem_cell_data: Some((data, hash)) }
    }
}

impl Clone for CellMeta {
    fn clone(&self) -> (r: Self)
        ensures
            r.entry() == self.entry(),
            self.loaded() ==> r.loaded(),
    {
        let mem_cell_data = match &self.mem_cell_data {
            Some((d, h)) => Some((copy_bytes(d), copy_bytes(h))),
            None => None,
        };
        CellMeta {
            out_point: self.out_point.clone(),
            cell_output: self.cell_output.clone(),
            mem_cell_data,
        }
    }
}

/// Metadata of a block beyond its header.
#[derive(Debug, Clone, Copy)]
pub struct BlockExt {
    pub received_at: u64,
    pub total_uncles_count: u64,
}

/// Facts about an epoch as a whole.
#[derive(Debug, Clone, Copy)]
pub struct EpochExt {
    pub number: u64,
    pub start_number: u64,
    pub length: u64,
}

/// What a verifier learns of a cell.
#[derive(Debug)]
pub enum CellStatus {
    Live(CellMeta),
    Unknown,
}

/// The snapshot of every cell and header a transaction references.
pub struct Resource {
    required_cells: Vec<CellMeta>,
    required_headers: Vec<(Vec<u8>, Header)>,
}

impl Resource {
    /// The cell writes, in the order they were made.
    pub closed spec fn cells_log(&self) -> Seq<CellEntry> {
        self.required_cells@.map_values(|c: CellMeta| c.entry())
    }

    /// The header writes, in the order they were made.
    pub closed spec fn headers_log(&self) -> Seq<HeaderEntry> {
        self.required_headers@.map_values(|e: (Vec<u8>, Header)| (e.0@, e.1@))
    }

    pub open spec fn cells(&self) -> Map<OutPointModel, CellModel> {
        log_map(self.cells_log())
    }

    pub open spec fn headers(&self) -> Map<Seq<u8>, HeaderModel> {
        log_map(self.headers_log())
    }

    /// Every resolved cell has its data loaded.
    pub closed spec fn wf(&self) -> bool {
        forall|i: int| 0 <= i < self.required_cells@.len() ==> #[trigger] self.required_cells@[i].loaded()
    }
}

pub open spec fn entries_of(cells: Seq<CellMeta>) -> Seq<CellEntry> {
    cells.map_values(|c: CellMeta| c.entry())
}

pub open spec fn header_entries_of(headers: Seq<(Vec<u8>, Header)>) -> Seq<HeaderEntry> {
    headers.map_values(|e: (Vec<u8>, Header)| (e.0@, e.1@))
}

/// The outcome that a result of `from_both` stands for.
pub open spec fn outcome_of(r: Result<Resource, ResolveError>) -> ResolveOutcome {
    match r {
        Ok(res) => ResolveOutcome::Ok((res.cells_log(), res.headers_log())),
        Err(e) => ResolveOutcome::Err(e@),
    }
}

/// The fetches recorded after the first `n`.
pub open spec fn fetched_since(all: Seq<Fetch>, n: int) -> Seq<Fetch> {
    all.subrange(n, all.len() as int)
}

proof fn lemma_inputs_stop(m: MockTransaction, f: Seq<Fetch>, n: nat, big: nat)
    requires
        n <= big,
        resolve_inputs(m, f, n) is Stopped,
    ensures
        resolve_inputs(m, f, big) == resolve_inputs(m, f, n),
    decreases big,
{
    if big > n {
        lemma_inputs_stop(m, f, n, (big - 1) as nat);
    }
}

proof fn lemma_members_stop(
    m: MockTransaction,
    f: Seq<Fetch>,
    members: Seq<OutPointModel>,
    n: nat,
    big: nat,
    log: Seq<CellEntry>,
    k0: nat,
)
    requires
        n <= big,
        resolve_members(m, f, members, n, log, k0) is Stopped,
    ensures
        resolve_members(m, f, members, big, log, k0) == resolve_members(m, f, members, n, log, k0),
    decreases big,
{
    if big > n {
        lemma_members_stop(m, f, members, n, (big - 1) as nat, log, k0);
    }
}

pub(crate) proof fn lemma_deps_stop(m: MockTransaction, f: Seq<Fetch>, n: nat, big: nat)
    requires
        n <= big,
        resolve_deps(m, f, n) is Stopped,
    ensures
        resolve_deps(m, f, big) == resolve_deps(m, f, n),
    decreases big,
{
    if big > n {
        lemma_deps_stop(m, f, n, (big - 1) as nat);
    }
}

proof fn lemma_headers_stop(m: MockTransaction, f: Seq<Fetch>, n: nat, big: nat, k0: nat)
    requires
        n <= big,
        resolve_headers(m, f, n, k0) is Stopped,
    ensures
        resolve_headers(m, f, big, k0) == resolve_headers(m, f, n, k0),
    decreases big,
{
    if big > n {
        lemma_headers_stop(m, f, n, (big - 1) as nat, k0);
    }
}

impl Resource {
    /// Resolves every input, cell dependency (with the members of dependency
    /// groups) and header dependency of `mock_tx`, each from its override if
    /// declared, else by one fetch from `loader`. All or nothing: the first
    /// lookup that fails, in that order, fails the whole resolution, and
    /// nothing is fetched after it. The fetches made, and the outcome, are
    /// exactly those that `replay` describes; when the overrides cover every
    /// key, nothing is fetched and resolution succeeds.
    pub fn from_both<L: MockResourceLoader>(
        mock_tx: &MockTransaction,
        loader: &mut Recorded<L>,
    ) -> (r: Result<Resource, ResolveError>)
        ensures
            old(loader).fetches().len() <= final(loader).fetches().len(),
            final(loader).fetches().take(old(loader).fetches().len() as int) == old(
                loader,
            ).fetches(),
            replay(
                *mock_tx,
                fetched_since(final(loader).fetches(), old(loader).fetches().len() as int),
            ) == Some(outcome_of(r)),
            r is Ok ==> r->Ok_0.wf(),
            overrides_cover(*mock_tx) ==> r is Ok && final(loader).fetches() == old(
                loader,
            ).fetches(),
    {
        let r = Self::resolve_recorded(mock_tx, loader);
        proof {
            let n0 = old(loader).fetches().len() as int;
            let f = fetched_since(loader.fetches(), n0);
            if overrides_cover(*mock_tx) {
                crate::laws::lemma_override_precedence(*mock_tx, f);
                assert(f =~= Seq::<Fetch>::empty());
                assert(loader.fetches() =~= old(loader).fetches());
            }
        }
        r
    }

    fn resolve_recorded<L: MockResourceLoader>(
        mock_tx: &MockTransaction,
        loader: &mut Recorded<L>,
    ) -> (r: Result<Resource, ResolveError>)
        ensures
            old(loader).fetches().len() <= final(loader).fetches().len(),
            final(loader).fetches().take(old(loader).fetches().len() as int) == old(
                loader,
            ).fetches(),
            replay(
                *mock_tx,
                fetched_since(final(loader).fetches(), old(loader).fetches().len() as int),
            ) == Some(outcome_of(r)),
            r is Ok ==> r->Ok_0.wf(),
    {
        let ghost m = *mock_tx;
        let ghost start = old(loader).fetches();
        let ghost n0 = start.len() as int;
        let n_inputs = mock_tx.tx.inputs.len();
        let n_deps = mock_tx.tx.cell_deps.len();
        let n_headers = mock_tx.tx.header_deps.len();
        let mut cells: Vec<CellMeta> = Vec::new();
        assert(entries_of(cells@) =~= seq![]);
        assert(fetched_since(loader.fetches(), n0) =~= seq![]);
        let mut i: usize = 0;
        while i < n_inputs
            invariant
                m == *mock_tx,
                n_inputs == m.tx.inputs@.len(),
                n_deps == m.tx.cell_deps@.len(),
                n_headers == m.tx.header_deps@.len(),
                i <= n_inputs,
                start == old(loader).fetches(),
                n0 == start.len(),
                n0 <= loader.fetches().len(),
                loader.fetches().take(n0) == start,
                forall|g: Seq<Fetch>|
                    extends(g, fetched_since(loader.fetches(), n0)) ==> #[trigger] resolve_inputs(
                        m,
                        g,
                        i as nat,
                    ) == Run::Going(
                        entries_of(cells@),
                        fetched_since(loader.fetches(), n0).len(),
                    ),
                forall|j: int| 0 <= j < cells@.len() ==> #[trigger] cells@[j].loaded(),
            decreases n_inputs - i,
        {
            let input = &mock_tx.tx.inputs[i];
            let ghost cur0 = fetched_since(loader.fetches(), n0);
            let ghost before = loader.fetches();
            let ghost log0 = entries_of(cells@);
            let got = mock_tx.get_input_cell(input, loader);
            let ghost cur1 = fetched_since(loader.fetches(), n0);
            proof {
                if m.input_override(input@) is None {
                    assert(cur1 =~= cur0.push(Fetch::Cell(input@.0, crate::mock::cell_answer(got))));
                    assert(loader.fetches().take(n0) =~= before.take(n0));
                }
                assert forall|g: Seq<Fetch>| extends(g, cur1) implies extends(g, cur0) by {}
            }
            match got {
                Err(e) => {
                    proof {
                        assert(resolve_inputs(m, cur1, i as nat) == Run::Going(log0, cur0.len()));
                        assert(cur1[cur0.len() as int] == Fetch::Cell(input@.0, crate::mock::cell_answer(Err::<Option<(CellOutput, Vec<u8>)>, String>(e))));
                        lemma_inputs_stop(m, cur1, (i + 1) as nat, n_inputs as nat);
                        lemma_deps_stop(m, cur1, 0, n_deps as nat);
                    }
                    return Err(ResolveError::Loader(e));
                },
                Ok(None) => {
                    proof {
                        assert(resolve_inputs(m, cur1, i as nat) == Run::Going(log0, cur0.len()));
                        lemma_inputs_stop(m, cur1, (i + 1) as nat, n_inputs as nat);
                        lemma_deps_stop(m, cur1, 0, n_deps as nat);
                    }
                    return Err(ResolveError::InputNotFound(input.clone()));
                },
                Ok(Some((output, data))) => {
                    let meta = CellMeta::from_cell_output(
                        input.previous_output.clone(),
                        output,
                        data,
                    );
                    cells.push(meta);
                    assert(entries_of(cells@) =~= log0.push(meta.entry()));
                    proof {
                        assert forall|g: Seq<Fetch>| extends(g, cur1) implies #[trigger] resolve_inputs(
                            m,
                            g,
                            (i + 1) as nat,
                        ) == Run::Going(entries_of(cells@), cur1.len()) by {
                            assert(resolve_inputs(m, g, i as nat) == Run::Going(log0, cur0.len()));
                            if m.input_override(input@) is None {
                                assert(g[cur0.len() as int] == cur1[cur0.len() as int]);
                            }
                        }
                    }
                },
            }
            i = i + 1;
        }
        let mut j: usize = 0;
        while j < n_deps
            invariant
                m == *mock_tx,
                n_inputs == m.tx.inputs@.len(),
                n_deps == m.tx.cell_deps@.len(),
                n_headers == m.tx.header_deps@.len(),
                j <= n_deps,
                start == old(loader).fetches(),
                n0 == start.len(),
                n0 <= loader.fetches().len(),
                loader.fetches().take(n0) == start,
                forall|g: Seq<Fetch>|
                    extends(g, fetched_since(loader.fetches(), n0)) ==> #[trigger] resolve_deps(
                        m,
                        g,
                        j as nat,
                    ) == Run::Going(
                        entries_of(cells@),
                        fetched_since(loader.fetches(), n0).len(),
                    ),
                forall|q: int| 0 <= q < cells@.len() ==> #[trigger] cells@[q].loaded(),
            decreases n_deps - j,
        {
            let dep = &mock_tx.tx.cell_deps[j];
            let ghost cur0 = fetched_since(loader.fetches(), n0);
            let ghost before = loader.fetches();
            let ghost log0 = entries_of(cells@);
            let ghost k0 = cur0.len();
            let got = mock_tx.get_dep_cell(&dep.out_point, loader);
            let ghost cur1 = fetched_since(loader.fetches(), n0);
            proof {
                if m.dep_override(dep@.0) is None {
                    assert(cur1 =~= cur0.push(Fetch::Cell(dep@.0, crate::mock::cell_answer(got))));
                    assert(loader.fetches().take(n0) =~= before.take(n0));
                }
                assert forall|g: Seq<Fetch>| extends(g, cur1) implies extends(g, cur0) by {}
                assert(resolve_deps(m, cur1, j as nat) == Run::Going(log0, k0));
            }
            match got {
                Err(e) => {
                    proof {
                        lemma_deps_stop(m, cur1, (j + 1) as nat, n_deps as nat);
                    }
                    return Err(ResolveError::Loader(e));
                },
                Ok(None) => {
                    proof {
                        lemma_deps_stop(m, cur1, (j + 1) as nat, n_deps as nat);
                    }
                    return Err(ResolveError::DepNotFound(dep.clone()));
                },
                Ok(Some((output, data))) => {
                    let ghost c = (output@, data@);
                    let ghost k1 = cur1.len();
                    proof {
                        assert forall|g: Seq<Fetch>| extends(g, cur1) implies #[trigger] cell_step(
                            m.dep_override(dep@.0),
                            g,
                            k0,
                            dep@.0,
                        ) == Step::Found(c, k1) by {
                            if m.dep_override(dep@.0) is None {
                                assert(g[k0 as int] == cur1[k0 as int]);
                            }
                        }
                    }
                    if dep.dep_type == DepType::DepGroup {
                        match parse_dep_group(&data) {
                            None => {
                                proof {
                                    assert(cell_step(m.dep_override(dep@.0), cur1, k0, dep@.0)
                                        == Step::Found(c, k1));
                                    lemma_deps_stop(m, cur1, (j + 1) as nat, n_deps as nat);
                                }
                                return Err(ResolveError::MalformedDepGroup(dep.clone()));
                            },
                            Some(members) => {
                                let ghost gm = group_members(data@);
                                proof {
                                    assert forall|g: Seq<Fetch>| extends(g, cur1) implies #[trigger] resolve_members(
                                        m,
                                        g,
                                        gm,
                                        0,
                                        log0,
                                        k1,
                                    ) == Run::Going(entries_of(cells@), k1) by {}
                                }
                                let mut k: usize = 0;
                                while k < members.len()
                                    invariant
                                        m == *mock_tx,
                                        n_deps == m.tx.cell_deps@.len(),
                                        j < n_deps,
                                        dep == &m.tx.cell_deps@[j as int],
                                        dep.dep_type == DepType::DepGroup,
                                        group_well_formed(data@),
                                        c == (output@, data@),
                                        gm == group_members(data@),
                                        members@.len() == gm.len(),
                                        forall|q: int|
                                            0 <= q < members@.len() ==> (#[trigger] members@[q])@
                                                == gm[q],
                                        k <= members@.len(),
                                        start == old(loader).fetches(),
                                        n0 == start.len(),
                                        n0 <= loader.fetches().len(),
                                        loader.fetches().take(n0) == start,
                                        forall|g: Seq<Fetch>|
                                            extends(g, fetched_since(loader.fetches(), n0))
                                                ==> #[trigger] cell_step(
                                                m.dep_override(dep@.0),
                                                g,
                                                k0,
                                                dep@.0,
                                            ) == Step::Found(c, k1),
                                        forall|g: Seq<Fetch>|
                                            extends(g, fetched_since(loader.fetches(), n0))
                                                ==> #[trigger] resolve_deps(m, g, j as nat)
                                                == Run::Going(log0, k0),
                                        forall|g: Seq<Fetch>|
                                            extends(g, fetched_since(loader.fetches(), n0))
                                                ==> #[trigger] resolve_members(
                                                m,
                                                g,
                                                gm,
                                                k as nat,
                                                log0,
                                                k1,
                                            ) == Run::Going(
                                                entries_of(cells@),
                                                fetched_since(loader.fetches(), n0).len(),
                                            ),
                                        forall|q: int|
                                            0 <= q < cells@.len() ==> #[trigger] cells@[q].loaded(),
                                    decreases members@.len() - k,
                                {
                                    let sub = &members[k];
                                    let ghost mc0 = fetched_since(loader.fetches(), n0);
                                    let ghost mbefore = loader.fetches();
                                    let ghost mlog = entries_of(cells@);
                                    let sgot = mock_tx.get_dep_cell(sub, loader);
                                    let ghost mc1 = fetched_since(loader.fetches(), n0);
                                    proof {
                                        if m.dep_override(sub@) is None {
                                            assert(mc1 =~= mc0.push(
                                                Fetch::Cell(sub@, crate::mock::cell_answer(sgot)),
                                            ));
                                            assert(loader.fetches().take(n0) =~= mbefore.take(n0));
                                        }
                                        assert forall|g: Seq<Fetch>| extends(g, mc1) implies extends(
                                            g,
                                            mc0,
                                        ) by {}
                                        assert(resolve_members(m, mc1, gm, k as nat, log0, k1)
                                            == Run::Going(mlog, mc0.len()));
                                        assert(resolve_deps(m, mc1, j as nat) == Run::Going(
                                            log0,
                                            k0,
                                        ));
                                        assert(cell_step(m.dep_override(dep@.0), mc1, k0, dep@.0)
                                            == Step::Found(c, k1));
                                    }
                                    match sgot {
                                        Err(e) => {
                                            proof {
                                                lemma_members_stop(
                                                    m,
                                                    mc1,
                                                    gm,
                                                    (k + 1) as nat,
                                                    gm.len(),
                                                    log0,
                                                    k1,
                                                );
                                                lemma_deps_stop(
                                                    m,
                                                    mc1,
                                                    (j + 1) as nat,
                                                    n_deps as nat,
                                                );
                                            }
                                            return Err(ResolveError::Loader(e));
                                        },
                                        Ok(None) => {
                                            proof {
                                                lemma_members_stop(
                                                    m,
                                                    mc1,
                                                    gm,
                                                    (k + 1) as nat,
                                                    gm.len(),
                                                    log0,
                                                    k1,
                                                );
                                                lemma_deps_stop(
                                                    m,
                                                    mc1,
                                                    (j + 1) as nat,
                                                    n_deps as nat,
                                                );
                                            }
                                            return Err(ResolveError::GroupMemberNotFound(sub.clone()));
                                        },
                                        Ok(Some((sub_output, sub_data))) => {
                                            let meta = CellMeta::from_cell_output(
                                                sub.clone(),
                                                sub_output,
                                                sub_data,
                                            );
                                            cells.push(meta);
                                            assert(entries_of(cells@) =~= mlog.push(meta.entry()));
                                            proof {
                                                assert forall|g: Seq<Fetch>| extends(
                                                    g,
                                                    mc1,
                                                ) implies #[trigger] resolve_members(
                                                    m,
                                                    g,
                                                    gm,
                                                    (k + 1) as nat,
                                                    log0,
                                                    k1,
                                                ) == Run::Going(entries_of(cells@), mc1.len()) by {
                                                    assert(resolve_members(
                                                        m,
                                                        g,
                                                        gm,
                                                        k as nat,
                                                        log0,
                                                        k1,
                                                    ) == Run::Going(mlog, mc0.len()));
                                                    if m.dep_override(sub@) is None {
                                                        assert(g[mc0.len() as int]
                                                            == mc1[mc0.len() as int]);
                                                    }
                                                }
                                            }
                                        },
                                    }
                                    k = k + 1;
                                }
                            },
                        }
                    }
                    let ghost glog = entries_of(cells@);
                    let meta = CellMeta::from_cell_output(dep.out_point.clone(), output, data);
                    cells.push(meta);
                    assert(entries_of(cells@) =~= glog.push(meta.entry()));
                    proof {
                        let cur2 = fetched_since(loader.fetches(), n0);
                        assert forall|g: Seq<Fetch>| extends(g, cur2) implies #[trigger] resolve_deps(
                            m,
                            g,
                            (j + 1) as nat,
                        ) == Run::Going(entries_of(cells@), cur2.len()) by {
                            assert(resolve_deps(m, g, j as nat) == Run::Going(log0, k0));
                            assert(cell_step(m.dep_override(dep@.0), g, k0, dep@.0) == Step::Found(
                                c,
                                k1,
                            ));
                            if dep.dep_type == DepType::DepGroup {
                                let gm = group_members(data@);
                                assert(resolve_members(m, g, gm, gm.len(), log0, k1) == Run::Going(
                                    glog,
                                    cur2.len(),
                                ));
                            }
                        }
                    }
                },
            }
            j = j + 1;
        }
        let ghost cells_log = entries_of(cells@);
        let ghost kd = fetched_since(loader.fetches(), n0).len();
        let mut headers: Vec<(Vec<u8>, Header)> = Vec::new();
        assert(header_entries_of(headers@) =~= seq![]);
        let mut h: usize = 0;
        while h < n_headers
            invariant
                m == *mock_tx,
                n_deps == m.tx.cell_deps@.len(),
                n_headers == m.tx.header_deps@.len(),
                h <= n_headers,
                start == old(loader).fetches(),
                n0 == start.len(),
                n0 <= loader.fetches().len(),
                loader.fetches().take(n0) == start,
                cells_log == entries_of(cells@),
                forall|g: Seq<Fetch>|
                    extends(g, fetched_since(loader.fetches(), n0)) ==> #[trigger] resolve_deps(
                        m,
                        g,
                        n_deps as nat,
                    ) == Run::Going(cells_log, kd),
                forall|g: Seq<Fetch>|
                    extends(g, fetched_since(loader.fetches(), n0)) ==> #[trigger] resolve_headers(
                        m,
                        g,
                        h as nat,
                        kd,
                    ) == Run::Going(
                        header_entries_of(headers@),
                        fetched_since(loader.fetches(), n0).len(),
                    ),
                forall|q: int| 0 <= q < cells@.len() ==> #[trigger] cells@[q].loaded(),
            decreases n_headers - h,
        {
            let block_hash = &mock_tx.tx.header_deps[h];
            let ghost cur0 = fetched_since(loader.fetches(), n0);
            let ghost before = loader.fetches();
            let ghost hlog = header_entries_of(headers@);
            let got = mock_tx.get_header(block_hash, loader);
            let ghost cur1 = fetched_since(loader.fetches(), n0);
            proof {
                if m.header_override(block_hash@) is None {
                    assert(cur1 =~= cur0.push(
                        Fetch::Header(block_hash@, crate::mock::header_answer(got)),
                    ));
                    assert(loader.fetches().take(n0) =~= before.take(n0));
                }
                assert forall|g: Seq<Fetch>| extends(g, cur1) implies extends(g, cur0) by {}
                assert(resolve_headers(m, cur1, h as nat, kd) == Run::Going(hlog, cur0.len()));
                assert(resolve_deps(m, cur1, n_deps as nat) == Run::Going(cells_log, kd));
            }
            match got {
                Err(e) => {
                    proof {
                        lemma_headers_stop(m, cur1, (h + 1) as nat, n_headers as nat, kd);
                    }
                    return Err(ResolveError::Loader(e));
                },
                Ok(None) => {
                    proof {
                        lemma_headers_stop(m, cur1, (h + 1) as nat, n_headers as nat, kd);
                    }
                    return Err(ResolveError::HeaderNotFound(copy_bytes(block_hash)));
                },
                Ok(Some(header)) => {
                    let key = copy_bytes(block_hash);
                    let ghost entry = (key@, header@);
                    headers.push((key, header));
                    assert(header_entries_of(headers@) =~= hlog.push(entry));
                    proof {
                        assert forall|g: Seq<Fetch>| extends(g, cur1) implies #[trigger] resolve_headers(
                            m,
                            g,
                            (h + 1) as nat,
                            kd,
                        ) == Run::Going(header_entries_of(headers@), cur1.len()) by {
                            assert(resolve_headers(m, g, h as nat, kd) == Run::Going(
                                hlog,
                                cur0.len(),
                            ));
                            if m.header_override(block_hash@) is None {
                                assert(g[cur0.len() as int] == cur1[cur0.len() as int]);
                            }
                        }
                    }
                },
            }
            h = h + 1;
        }
        let res = Resource { required_cells: cells, required_headers: headers };
        proof {
            let cur = fetched_since(loader.fetches(), n0);
            assert(extends(cur, cur));
            assert(resolve_deps(m, cur, n_deps as nat) == Run::Going(cells_log, kd));
            assert(resolve_headers(m, cur, n_headers as nat, kd) == Run::Going(
                header_entries_of(res.required_headers@),
                cur.len(),
            ));
            assert(res.cells_log() == cells_log);
            assert(res.headers_log() == header_entries_of(res.required_headers@));
        }
        Ok(res)
    }
}

proof fn lemma_log_map_step<K, V>(log: Seq<(K, V)>, i: int)
    requires
        0 <= i < log.len(),
    ensures
        log_map(log.take(i + 1)) == log_map(log.take(i)).insert(log[i].0, log[i].1),
{
    assert(log.take(i + 1).drop_last() =~= log.take(i));
}

impl Resource {
    /// The position of the last write to `out_point`, if any.
    fn find_cell(&self, out_point: &OutPoint) -> (r: Option<usize>)
        ensures
            r is None ==> !self.cells().contains_key(out_point@),
            r is Some ==> r->Some_0 < self.required_cells@.len() && self.cells().contains_key(
                out_point@,
            ) && self.required_cells@[r->Some_0 as int].entry() == (
                out_point@,
                self.cells()[out_point@],
            ),
    {
        let ghost log = self.cells_log();
        let mut i: usize = self.required_cells.len();
        assert(log.take(i as int) =~= log);
        while i > 0
            invariant
                i <= self.required_cells@.len(),
                log == self.cells_log(),
                log.len() == self.required_cells@.len(),
                log_map(log.take(i as int)).contains_key(out_point@) == log_map(log).contains_key(
                    out_point@,
                ),
                log_map(log.take(i as int)).contains_key(out_point@) ==> log_map(log.take(i as int))[out_point@]
                    == log_map(log)[out_point@],
            decreases i,
        {
            let c = &self.required_cells[i - 1];
            proof {
                lemma_log_map_step(log, i - 1);
                assert(log[i - 1] == c.entry());
            }
            if c.out_point.same_as(out_point) {
                return Some(i - 1);
            }
            i = i - 1;
        }
        assert(log.take(0) =~= Seq::<CellEntry>::empty());
        None
    }

    /// The position of the last write to `block_hash`, if any.
    fn find_header(&self, block_hash: &Vec<u8>) -> (r: Option<usize>)
        ensures
            r is None ==> !self.headers().contains_key(block_hash@),
            r is Some ==> r->Some_0 < self.required_headers@.len() && self.headers().contains_key(
                block_hash@,
            ) && self.required_headers@[r->Some_0 as int].1@ == self.headers()[block_hash@],
    {
        let ghost log = self.headers_log();
        let mut i: usize = self.required_headers.len();
        assert(log.take(i as int) =~= log);
        while i > 0
            invariant
                i <= self.required_headers@.len(),
                log == self.headers_log(),
                log.len() == self.required_headers@.len(),
                log_map(log.take(i as int)).contains_key(block_hash@) == log_map(log).contains_key(
                    block_hash@,
                ),
                log_map(log.take(i as int)).contains_key(block_hash@) ==> log_map(log.take(i as int))[block_hash@]
                    == log_map(log)[block_hash@],
            decreases i,
        {
            proof {
                lemma_log_map_step(log, i - 1);
            }
            if bytes_equal(&self.required_headers[i - 1].0, block_hash) {
                return Some(i - 1);
            }
            i = i - 1;
        }
        assert(log.take(0) =~= Seq::<HeaderEntry>::empty());
        None
    }

    /// Whether `block_hash` is among the resolved headers.
    pub fn is_valid(&self, block_hash: &Vec<u8>) -> (r: bool)
        ensures
            r == self.headers().contains_key(block_hash@),
    {
        self.find_header(block_hash).is_some()
    }

    /// A resolved cell is live with its resolved contents; any other out-point
    /// is unknown. No cell is ever reported dead.
    pub fn cell(&self, out_point: &OutPoint, with_data: bool) -> (r: CellStatus)
        requires
            self.wf(),
        ensures
            r is Unknown <==> !self.cells().contains_key(out_point@),
            r matches CellStatus::Live(c) ==> c.entry() == (out_point@, self.cells()[out_point@])
                && c.loaded(),
    {
        match self.find_cell(out_point) {
            Some(i) => {
                assert(self.required_cells@[i as int].loaded());
                CellStatus::Live(self.required_cells[i].clone())
            },
            None => CellStatus::Unknown,
        }
    }

    /// The data of `cell` with its hash: what the cell carries if it carries
    /// data, else what the snapshot resolved for its out-point.
    pub fn load_cell_data(&self, cell: &CellMeta) -> (r: Option<(Vec<u8>, Vec<u8>)>)
        requires
            self.wf(),
        ensures
            cell.mem_cell_data is Some ==> r is Some && r->Some_0.0@ == cell.mem_cell_data->Some_0.0@
                && r->Some_0.1@ == cell.mem_cell_data->Some_0.1@,
            cell.mem_cell_data is None ==> (r is Some <==> self.cells().contains_key(
                cell.out_point@,
            )),
            cell.mem_cell_data is None && r is Some ==> r->Some_0.0@ == self.cells()[cell.out_point@].1
                && r->Some_0.1@ == blake2b_256_of(r->Some_0.0@),
    {
        match &cell.mem_cell_data {
            Some((d, h)) => Some((copy_bytes(d), copy_bytes(h))),
            None => match self.find_cell(&cell.out_point) {
                Some(i) => {
                    let found = &self.required_cells[i];
                    assert(found.loaded());
                    match &found.mem_cell_data {
                        Some((d, h)) => Some((copy_bytes(d), copy_bytes(h))),
                        None => None,
                    }
                },
                None => None,
            },
        }
    }

    /// Block metadata is not part of the snapshot: it is never available
    /// here, and a verifier that needs it must be given it otherwise.
    pub fn get_block_ext(&self, block_hash: &Vec<u8>) -> (r: Option<BlockExt>)
        ensures
            r is None,
    {
        None
    }

    /// Epoch facts are not part of the snapshot: they are never available here.
    pub fn get_block_epoch(&self, block_hash: &Vec<u8>) -> (r: Option<EpochExt>)
        ensures
            r is None,
    {
        None
    }

    /// The resolved header with hash `block_hash`, if any.
    pub fn get_header(&self, block_hash: &Vec<u8>) -> (r: Option<Header>)
        ensures
            r is Some <==> self.headers().contains_key(block_hash@),
            r is Some ==> r->Some_0@ == self.headers()[block_hash@],
    {
        match self.find_header(block_hash) {
            Some(i) => Some(self.required_headers[i].1.clone()),
            None => None,
        }
    }
}

} // verus!
