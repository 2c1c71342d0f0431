//! Laws of resolution that relate several resolutions, or a resolution and
//! the shape of its result.
use vstd::prelude::*;
use crate::group::{group_members, group_well_formed};
use crate::mock::{CellModel, Fetch, MockTransaction};
use crate::resource::{
    cell_step, dep_covered, log_map, overrides_cover, replay, resolve_dep, resolve_deps,
    resolve_headers, resolve_inputs, resolve_members, CellEntry, ResolveErrorModel,
    ResolveOutcome, Run, Step,
};
use crate::types::{DepType, OutPointModel};

verus! {

proof fn lemma_inputs_covered(m: MockTransaction, f: Seq<Fetch>, n: nat)
    requires
        overrides_cover(m),
        n <= m.tx.inputs@.len(),
    ensures
        resolve_inputs(m, f, n) == resolve_inputs(m, seq![], n),
        resolve_inputs(m, f, n) matches Run::Going(_, k) && k == 0,
    decreases n,
{
    if n > 0 {
        lemma_inputs_covered(m, f, (n - 1) as nat);
        assert(m.input_override(m.tx.inputs@[n - 1]@) is Some);
    }
}

proof fn lemma_members_covered(
    m: MockTransaction,
    f: Seq<Fetch>,
    members: Seq<OutPointModel>,
    n: nat,
    log: Seq<CellEntry>,
)
    requires
        n <= members.len(),
        forall|q: int| 0 <= q < members.len() ==> (#[trigger] m.dep_override(members[q])) is Some,
    ensures
        resolve_members(m, f, members, n, log, 0) == resolve_members(m, seq![], members, n, log, 0),
        resolve_members(m, f, members, n, log, 0) matches Run::Going(_, k) && k == 0,
    decreases n,
{
    if n > 0 {
        lemma_members_covered(m, f, members, (n - 1) as nat, log);
        assert(m.dep_override(members[n - 1]) is Some);
    }
}

proof fn lemma_deps_covered(m: MockTransaction, f: Seq<Fetch>, n: nat)
    requires
        overrides_cover(m),
        n <= m.tx.cell_deps@.len(),
    ensures
        resolve_deps(m, f, n) == resolve_deps(m, seq![], n),
        resolve_deps(m, f, n) matches Run::Going(_, k) && k == 0,
    decreases n,
{
    if n == 0 {
        lemma_inputs_covered(m, f, m.tx.inputs@.len());
    } else {
        lemma_deps_covered(m, f, (n - 1) as nat);
        let dep = m.tx.cell_deps@[n - 1]@;
        assert(dep_covered(m, dep));
        let log = resolve_deps(m, f, (n - 1) as nat)->Going_0;
        let c = m.dep_override(dep.0)->Some_0;
        if dep.1 == DepType::DepGroup {
            let members = group_members(c.1);
            assert forall|q: int| 0 <= q < members.len() implies (#[trigger] m.dep_override(
                members[q],
            )) is Some by {
                assert(m.dep_override(group_members(m.dep_override(dep.0)->Some_0.1)[q]) is Some);
            }
            lemma_members_covered(m, f, members, members.len(), log);
        }
        assert(resolve_dep(m, f, dep, log, 0) == resolve_dep(m, seq![], dep, log, 0));
    }
}

proof fn lemma_headers_covered(m: MockTransaction, f: Seq<Fetch>, n: nat)
    requires
        overrides_cover(m),
        n <= m.tx.header_deps@.len(),
    ensures
        resolve_headers(m, f, n, 0) == resolve_headers(m, seq![], n, 0),
        resolve_headers(m, f, n, 0) matches Run::Going(_, k) && k == 0,
    decreases n,
{
    if n > 0 {
        lemma_headers_covered(m, f, (n - 1) as nat);
        assert(m.header_override(m.tx.header_deps@[n - 1]@) is Some);
    }
}

/// Overrides take precedence: when the overrides of `m` cover every key its
/// resolution consults, resolution succeeds without fetching anything, so it
/// comes out alike whatever the live source holds or answers.
pub proof fn lemma_override_precedence(m: MockTransaction, f: Seq<Fetch>)
    requires
        overrides_cover(m),
    ensures
        replay(m, seq![]) matches Some(outcome) && outcome is Ok,
        replay(m, f) is Some ==> f.len() == 0,
{
    lemma_deps_covered(m, f, m.tx.cell_deps@.len());
    lemma_deps_covered(m, seq![], m.tx.cell_deps@.len());
    lemma_headers_covered(m, f, m.tx.header_deps@.len());
    lemma_headers_covered(m, seq![], m.tx.header_deps@.len());
}

proof fn lemma_members_log(
    m: MockTransaction,
    f: Seq<Fetch>,
    members: Seq<OutPointModel>,
    n: nat,
    k0: nat,
)
    requires
        n <= members.len(),
        resolve_members(m, f, members, n, seq![], k0) is Going,
    ensures
        resolve_members(m, f, members, n, seq![], k0)->Going_0.len() == n,
        forall|i: int|
            0 <= i < n ==> (#[trigger] resolve_members(m, f, members, n, seq![], k0)->Going_0[i]).0
                == members[i],
    decreases n,
{
    if n > 0 {
        lemma_members_log(m, f, members, (n - 1) as nat, k0);
    }
}

proof fn lemma_log_map_keys<K, V>(log: Seq<(K, V)>, key: K)
    ensures
        log_map(log).contains_key(key) <==> exists|i: int| 0 <= i < log.len() && (#[trigger] log[i]).0 == key,
    decreases log.len(),
{
    if log.len() > 0 {
        let rest = log.drop_last();
        lemma_log_map_keys(rest, key);
        if exists|i: int| 0 <= i < log.len() && (#[trigger] log[i]).0 == key {
            let i = choose|i: int| 0 <= i < log.len() && (#[trigger] log[i]).0 == key;
            if i < log.len() - 1 {
                assert(rest[i] == log[i]);
            }
        }
        if exists|i: int| 0 <= i < rest.len() && (#[trigger] rest[i]).0 == key {
            let i = choose|i: int| 0 <= i < rest.len() && (#[trigger] rest[i]).0 == key;
            assert(log[i] == rest[i]);
        }
    }
}

/// The group cell of the only dependency of `m`, as the first lookup finds it.
pub open spec fn first_group_cell(m: MockTransaction, f: Seq<Fetch>) -> CellModel {
    let op = m.tx.cell_deps@[0].out_point@;
    cell_step(m.dep_override(op), f, 0, op)->Found_0
}

/// A transaction whose only dependency is a group listing `N` out-points
/// resolves to `N + 1` cell writes: one per member and the group's own. The
/// resolved keys are exactly the members and the group; with no member
/// repeated and none equal to the group, that is `N + 1` entries.
pub proof fn lemma_dep_group_entries(m: MockTransaction, f: Seq<Fetch>)
    requires
        m.tx.inputs@.len() == 0,
        m.tx.cell_deps@.len() == 1,
        m.tx.cell_deps@[0].dep_type == DepType::DepGroup,
        replay(m, f) matches Some(outcome) && outcome is Ok,
    ensures
        ({
            let op = m.tx.cell_deps@[0].out_point@;
            let members = group_members(first_group_cell(m, f).1);
            let cells = replay(m, f)->Some_0->Ok_0.0;
            &&& cell_step(m.dep_override(op), f, 0, op) is Found
            &&& group_well_formed(first_group_cell(m, f).1)
            &&& cells.len() == members.len() + 1
            &&& log_map(cells).dom() =~= members.to_set().insert(op)
            &&& (members.no_duplicates() && !members.contains(op)) ==> log_map(cells).dom().len()
                == members.len() + 1
        }),
{
    let op = m.tx.cell_deps@[0].out_point@;
    let dep = m.tx.cell_deps@[0]@;
    assert(resolve_inputs(m, f, 0) == Run::<Seq<CellEntry>>::Going(seq![], 0));
    assert(resolve_deps(m, f, 0) == Run::<Seq<CellEntry>>::Going(seq![], 0));
    assert(resolve_deps(m, f, 1) == resolve_dep(m, f, dep, seq![], 0));
    let step = cell_step(m.dep_override(op), f, 0, op);
    assert(step is Found);
    let c = step->Found_0;
    let k2 = step->Found_1;
    let members = group_members(c.1);
    let cells = replay(m, f)->Some_0->Ok_0.0;
    lemma_members_log(m, f, members, members.len(), k2);
    let ml = resolve_members(m, f, members, members.len(), seq![], k2)->Going_0;
    assert(cells == ml.push((op, c)));
    assert forall|k: OutPointModel| log_map(cells).contains_key(k) <==> members.to_set().insert(
        op,
    ).contains(k) by {
        lemma_log_map_keys(cells, k);
        if members.to_set().insert(op).contains(k) {
            if k == op {
                assert(cells[cells.len() - 1].0 == k);
            } else {
                let i = choose|i: int| 0 <= i < members.len() && members[i] == k;
                assert(cells[i] == ml[i]);
                assert(cells[i].0 == k);
            }
        }
        if exists|i: int| 0 <= i < cells.len() && (#[trigger] cells[i]).0 == k {
            let i = choose|i: int| 0 <= i < cells.len() && (#[trigger] cells[i]).0 == k;
            if i < ml.len() {
                assert(cells[i] == ml[i]);
                assert(members[i] == k);
                assert(members.contains(k));
            }
        }
    }
    assert(log_map(cells).dom() =~= members.to_set().insert(op));
    if members.no_duplicates() && !members.contains(op) {
        members.unique_seq_to_set();
        assert(!members.to_set().contains(op));
    }
}

/// A group dependency whose payload is not a whole number of out-points fails
/// resolution with the parse error naming that dependency, once the inputs
/// and earlier dependencies have resolved; nothing is fetched after it.
pub proof fn lemma_malformed_group_fails(m: MockTransaction, f: Seq<Fetch>, j: nat)
    requires
        j < m.tx.cell_deps@.len(),
        resolve_deps(m, f, j) is Going,
        m.tx.cell_deps@[j as int].dep_type == DepType::DepGroup,
        cell_step(
            m.dep_override(m.tx.cell_deps@[j as int].out_point@),
            f,
            resolve_deps(m, f, j)->Going_1,
            m.tx.cell_deps@[j as int].out_point@,
        ) matches Step::Found(c, k2) && !group_well_formed(c.1) && k2 == f.len(),
    ensures
        replay(m, f) == Some(
            ResolveOutcome::Err(ResolveErrorModel::MalformedDepGroup(m.tx.cell_deps@[j as int]@)),
        ),
{
    crate::resource::lemma_deps_stop(m, f, j + 1, m.tx.cell_deps@.len());
}

/// `key` is the previous output of an input of `m`.
pub open spec fn input_key(m: MockTransaction, key: OutPointModel) -> bool {
    exists|t: int| 0 <= t < m.tx.inputs@.len() && (#[trigger] m.tx.inputs@[t]).previous_output@ == key
}

/// `key` is the out-point of a cell dependency of `m`.
pub open spec fn dep_key(m: MockTransaction, key: OutPointModel) -> bool {
    exists|t: int| 0 <= t < m.tx.cell_deps@.len() && (#[trigger] m.tx.cell_deps@[t]).out_point@ == key
}

/// `key` is listed by the data of one of `cells`, read as a group payload.
pub open spec fn listed_in(cells: Seq<CellEntry>, key: OutPointModel) -> bool {
    exists|q: int| 0 <= q < cells.len() && group_members((#[trigger] cells[q]).1.1).contains(key)
}

proof fn lemma_inputs_keys(m: MockTransaction, f: Seq<Fetch>, n: nat)
    requires
        n <= m.tx.inputs@.len(),
        resolve_inputs(m, f, n) is Going,
    ensures
        forall|i: int|
            0 <= i < resolve_inputs(m, f, n)->Going_0.len() ==> input_key(
                m,
                (#[trigger] resolve_inputs(m, f, n)->Going_0[i]).0,
            ),
    decreases n,
{
    if n > 0 {
        lemma_inputs_keys(m, f, (n - 1) as nat);
        let prev = resolve_inputs(m, f, (n - 1) as nat)->Going_0;
        let log = resolve_inputs(m, f, n)->Going_0;
        assert forall|i: int| 0 <= i < log.len() implies input_key(m, (#[trigger] log[i]).0) by {
            if i < prev.len() {
                assert(log[i] == prev[i]);
                assert(input_key(m, prev[i].0));
            } else {
                assert(m.tx.inputs@[n - 1].previous_output@ == log[i].0);
            }
        }
    }
}

proof fn lemma_members_keys(
    m: MockTransaction,
    f: Seq<Fetch>,
    members: Seq<OutPointModel>,
    n: nat,
    log: Seq<CellEntry>,
    k0: nat,
)
    requires
        n <= members.len(),
        resolve_members(m, f, members, n, log, k0) is Going,
    ensures
        ({
            let l = resolve_members(m, f, members, n, log, k0)->Going_0;
            &&& l.len() == log.len() + n
            &&& forall|i: int| 0 <= i < log.len() ==> l[i] == log[i]
            &&& forall|t: int| 0 <= t < n ==> (#[trigger] l[log.len() + t]).0 == members[t]
        }),
    decreases n,
{
    if n > 0 {
        lemma_members_keys(m, f, members, (n - 1) as nat, log, k0);
        let prev = resolve_members(m, f, members, (n - 1) as nat, log, k0)->Going_0;
        let l = resolve_members(m, f, members, n, log, k0)->Going_0;
        assert forall|t: int| 0 <= t < n implies (#[trigger] l[log.len() + t]).0 == members[t] by {
            if t < n - 1 {
                assert(l[log.len() + t] == prev[log.len() + t]);
            }
        }
    }
}

proof fn lemma_deps_keys(m: MockTransaction, f: Seq<Fetch>, n: nat)
    requires
        n <= m.tx.cell_deps@.len(),
        resolve_deps(m, f, n) is Going,
    ensures
        forall|i: int|
            0 <= i < resolve_deps(m, f, n)->Going_0.len() ==> {
                let key = (#[trigger] resolve_deps(m, f, n)->Going_0[i]).0;
                input_key(m, key) || dep_key(m, key) || listed_in(
                    resolve_deps(m, f, n)->Going_0,
                    key,
                )
            },
    decreases n,
{
    if n == 0 {
        lemma_inputs_keys(m, f, m.tx.inputs@.len());
    } else {
        lemma_deps_keys(m, f, (n - 1) as nat);
        let prev = resolve_deps(m, f, (n - 1) as nat)->Going_0;
        let k = resolve_deps(m, f, (n - 1) as nat)->Going_1;
        let dep = m.tx.cell_deps@[n - 1]@;
        let log = resolve_deps(m, f, n)->Going_0;
        let step = cell_step(m.dep_override(dep.0), f, k, dep.0);
        let c = step->Found_0;
        let k2 = step->Found_1;
        let members = group_members(c.1);
        let mid = if dep.1 == DepType::DepGroup {
            resolve_members(m, f, members, members.len(), prev, k2)->Going_0
        } else {
            prev
        };
        if dep.1 == DepType::DepGroup {
            lemma_members_keys(m, f, members, members.len(), prev, k2);
        }
        assert(log == mid.push((dep.0, c)));
        assert forall|i: int| 0 <= i < log.len() implies {
            let key = (#[trigger] log[i]).0;
            input_key(m, key) || dep_key(m, key) || listed_in(log, key)
        } by {
            let key = log[i].0;
            if i == log.len() - 1 {
                assert(m.tx.cell_deps@[n - 1].out_point@ == key);
            } else if i < prev.len() {
                assert(log[i] == prev[i]);
                let pk = prev[i].0;
                assert(input_key(m, pk) || dep_key(m, pk) || listed_in(prev, pk));
                if listed_in(prev, pk) {
                    let q = choose|q: int| 0 <= q < prev.len() && group_members(
                        (#[trigger] prev[q]).1.1,
                    ).contains(pk);
                    assert(log[q] == prev[q]);
                }
            } else {
                let t = i - prev.len();
                assert(log[prev.len() + t] == mid[prev.len() + t]);
                assert(members[t] == key);
                assert(members.contains(key));
                assert(log[log.len() - 1] == (dep.0, c));
            }
        }
    }
}

/// The snapshot holds only keys that the transaction references: the
/// previous output of an input, the out-point of a dependency, or an
/// out-point listed by a resolved group cell. Any other out-point is absent
/// from it, and a verifier's lookup of it finds it unknown.
pub proof fn lemma_unreferenced_absent(m: MockTransaction, f: Seq<Fetch>, key: OutPointModel)
    requires
        replay(m, f) matches Some(outcome) && outcome is Ok,
        !input_key(m, key),
        !dep_key(m, key),
        !listed_in(replay(m, f)->Some_0->Ok_0.0, key),
    ensures
        !log_map(replay(m, f)->Some_0->Ok_0.0).contains_key(key),
{
    let cells = replay(m, f)->Some_0->Ok_0.0;
    lemma_deps_keys(m, f, m.tx.cell_deps@.len());
    lemma_log_map_keys(cells, key);
    if exists|i: int| 0 <= i < cells.len() && (#[trigger] cells[i]).0 == key {
        let i = choose|i: int| 0 <= i < cells.len() && (#[trigger] cells[i]).0 == key;
        assert(cells[i] == resolve_deps(m, f, m.tx.cell_deps@.len())->Going_0[i]);
    }
}

} // verus!
