use ckb_mock_tx::mock::{
    MockCellDep, MockInfo, MockInput, MockResourceLoader, MockTransaction, Recorded, Transaction,
};
use ckb_mock_tx::resource::{CellMeta, CellStatus, ResolveError, Resource};
use ckb_mock_tx::types::{
    CellDep, CellInput, CellOutput, DepType, EpochNumberWithFraction, Header, OutPoint, Script,
};

fn op(tag: u8, index: u32) -> OutPoint {
    OutPoint::new(vec![tag; 32], index)
}

fn output(capacity: u64) -> CellOutput {
    CellOutput {
        capacity,
        lock: Script { code_hash: vec![9u8; 32], hash_type: 0, args: vec![1, 2, 3] },
        type_: None,
    }
}

fn header(tag: u8) -> Header {
    Header {
        hash: vec![tag; 32],
        parent_hash: vec![0u8; 32],
        number: tag as u64,
        timestamp: 1000,
        version: 0,
        compact_target: 0x1e08_3126,
        transactions_root: vec![0x21u8; 32],
        proposals_hash: vec![0u8; 32],
        extra_hash: vec![0x33u8; 32],
        nonce: 7,
        epoch: EpochNumberWithFraction::new(1, 2, 3),
        dao: vec![0u8; 32],
    }
}

fn input(out_point: OutPoint) -> CellInput {
    CellInput { previous_output: out_point, since: 0 }
}

fn group_payload(members: &[OutPoint]) -> Vec<u8> {
    let mut data = Vec::new();
    for m in members {
        data.extend_from_slice(&m.tx_hash);
        data.extend_from_slice(&m.index.to_le_bytes());
    }
    data
}

fn skeleton(inputs: Vec<CellInput>, cell_deps: Vec<CellDep>, header_deps: Vec<Vec<u8>>) -> Transaction {
    Transaction {
        version: 0,
        cell_deps,
        header_deps,
        inputs,
        outputs: vec![],
        outputs_data: vec![],
        witnesses: vec![],
    }
}

fn empty_info() -> MockInfo {
    MockInfo { inputs: vec![], cell_deps: vec![], header_deps: vec![] }
}

/// A live source that always fails in transport.
struct FailingLoader;

impl MockResourceLoader for FailingLoader {
    fn get_header(&mut self, _hash: &Vec<u8>) -> Result<Option<Header>, String> {
        Err("offline".to_string())
    }

    fn get_live_cell(&mut self, _out_point: &OutPoint) -> Result<Option<(CellOutput, Vec<u8>)>, String> {
        Err("offline".to_string())
    }
}

/// A live source answering from fixed lists.
struct ListLoader {
    cells: Vec<(OutPoint, u64, Vec<u8>)>,
    headers: Vec<Header>,
    asked: Vec<String>,
}

fn list_loader(cells: Vec<(OutPoint, u64, Vec<u8>)>, headers: Vec<Header>) -> Recorded<ListLoader> {
    Recorded::new(ListLoader { cells, headers, asked: vec![] })
}

impl MockResourceLoader for ListLoader {
    fn get_header(&mut self, hash: &Vec<u8>) -> Result<Option<Header>, String> {
        self.asked.push(format!("header {}", hash[0]));
        Ok(self.headers.iter().find(|h| &h.hash == hash).cloned())
    }

    fn get_live_cell(&mut self, out_point: &OutPoint) -> Result<Option<(CellOutput, Vec<u8>)>, String> {
        self.asked.push(format!("cell {}:{}", out_point.tx_hash[0], out_point.index));
        Ok(self
            .cells
            .iter()
            .find(|(o, _, _)| o == out_point)
            .map(|(_, cap, data)| (output(*cap), data.clone())))
    }
}

fn capacity_of(resource: &Resource, out_point: &OutPoint) -> Option<u64> {
    match resource.cell(out_point, true) {
        CellStatus::Live(meta) => Some(meta.cell_output.capacity),
        CellStatus::Unknown => None,
    }
}

fn fully_declared() -> MockTransaction {
    let code = op(3, 0);
    MockTransaction {
        mock_info: MockInfo {
            inputs: vec![MockInput { input: input(op(1, 0)), output: output(100), data: vec![7] }],
            cell_deps: vec![MockCellDep {
                cell_dep: CellDep { out_point: code.clone(), dep_type: DepType::Code },
                output: output(200),
                data: vec![1, 2],
            }],
            header_deps: vec![header(5)],
        },
        tx: skeleton(
            vec![input(op(1, 0))],
            vec![CellDep { out_point: code, dep_type: DepType::Code }],
            vec![vec![5u8; 32]],
        ),
    }
}

#[test]
fn declared_overrides_resolve_without_live_source() {
    let mtx = fully_declared();
    let resource = Resource::from_both(&mtx, &mut Recorded::new(FailingLoader)).expect("resolves from overrides");
    assert_eq!(capacity_of(&resource, &op(1, 0)), Some(100));
    assert_eq!(capacity_of(&resource, &op(3, 0)), Some(200));
    assert!(resource.is_valid(&vec![5u8; 32]));
    assert!(!resource.is_valid(&vec![6u8; 32]));
}

#[test]
fn overrides_win_over_live_source() {
    let mtx = fully_declared();
    let mut live = list_loader(vec![(op(1, 0), 999, vec![]), (op(3, 0), 999, vec![])], vec![]);
    let a = Resource::from_both(&mtx, &mut live).unwrap();
    let b = Resource::from_both(&mtx, &mut Recorded::new(FailingLoader)).unwrap();
    for key in [op(1, 0), op(3, 0)] {
        assert_eq!(capacity_of(&a, &key), capacity_of(&b, &key));
    }
}

#[test]
fn missing_keys_come_from_live_source() {
    let mtx = MockTransaction {
        mock_info: empty_info(),
        tx: skeleton(vec![input(op(1, 1))], vec![], vec![vec![8u8; 32]]),
    };
    let mut live = list_loader(vec![(op(1, 1), 55, vec![4])], vec![header(8)]);
    let resource = Resource::from_both(&mtx, &mut live).unwrap();
    assert_eq!(capacity_of(&resource, &op(1, 1)), Some(55));
    assert_eq!(resource.get_header(&vec![8u8; 32]).map(|h| h.number), Some(8));
    assert!(resource.get_header(&vec![9u8; 32]).is_none());
}

#[test]
fn transport_failure_is_reported() {
    let mtx = MockTransaction {
        mock_info: empty_info(),
        tx: skeleton(vec![input(op(1, 1))], vec![], vec![]),
    };
    match Resource::from_both(&mtx, &mut Recorded::new(FailingLoader)) {
        Err(ResolveError::Loader(msg)) => assert_eq!(msg, "offline"),
        other => panic!("unexpected: {:?}", other.err()),
    }
}

#[test]
fn missing_input_names_the_input() {
    let mtx = MockTransaction {
        mock_info: empty_info(),
        tx: skeleton(vec![input(op(1, 4))], vec![], vec![]),
    };
    let mut live = list_loader(vec![], vec![]);
    match Resource::from_both(&mtx, &mut live) {
        Err(ResolveError::InputNotFound(i)) => assert_eq!(i.previous_output, op(1, 4)),
        other => panic!("unexpected: {:?}", other.err()),
    }
}

#[test]
fn missing_dep_names_the_dep() {
    let mtx = MockTransaction {
        mock_info: empty_info(),
        tx: skeleton(vec![], vec![CellDep { out_point: op(2, 2), dep_type: DepType::Code }], vec![]),
    };
    let mut live = list_loader(vec![], vec![]);
    match Resource::from_both(&mtx, &mut live) {
        Err(ResolveError::DepNotFound(d)) => assert_eq!(d.out_point, op(2, 2)),
        other => panic!("unexpected: {:?}", other.err()),
    }
}

#[test]
fn missing_header_names_the_hash() {
    let mtx = MockTransaction { mock_info: empty_info(), tx: skeleton(vec![], vec![], vec![vec![4u8; 32]]) };
    let mut live = list_loader(vec![], vec![]);
    match Resource::from_both(&mtx, &mut live) {
        Err(ResolveError::HeaderNotFound(h)) => assert_eq!(h, vec![4u8; 32]),
        other => panic!("unexpected: {:?}", other.err()),
    }
}

fn group_tx(members: &[OutPoint], payload: Vec<u8>) -> MockTransaction {
    let group = op(6, 0);
    let mut deps = vec![MockCellDep {
        cell_dep: CellDep { out_point: group.clone(), dep_type: DepType::DepGroup },
        output: output(10),
        data: payload,
    }];
    for (k, m) in members.iter().enumerate() {
        deps.push(MockCellDep {
            cell_dep: CellDep { out_point: m.clone(), dep_type: DepType::Code },
            output: output(20 + k as u64),
            data: vec![k as u8],
        });
    }
    MockTransaction {
        mock_info: MockInfo { inputs: vec![], cell_deps: deps, header_deps: vec![] },
        tx: skeleton(vec![], vec![CellDep { out_point: group, dep_type: DepType::DepGroup }], vec![]),
    }
}

#[test]
fn dep_group_resolves_group_and_members() {
    let members = vec![op(7, 0), op(7, 1), op(8, 0)];
    let mtx = group_tx(&members, group_payload(&members));
    let resource = Resource::from_both(&mtx, &mut Recorded::new(FailingLoader)).unwrap();
    assert_eq!(capacity_of(&resource, &op(6, 0)), Some(10));
    assert_eq!(capacity_of(&resource, &op(7, 0)), Some(20));
    assert_eq!(capacity_of(&resource, &op(7, 1)), Some(21));
    assert_eq!(capacity_of(&resource, &op(8, 0)), Some(22));
    assert_eq!(capacity_of(&resource, &op(8, 1)), None);
}

#[test]
fn empty_dep_group_resolves_the_group_alone() {
    let mtx = group_tx(&[], vec![]);
    let resource = Resource::from_both(&mtx, &mut Recorded::new(FailingLoader)).unwrap();
    assert_eq!(capacity_of(&resource, &op(6, 0)), Some(10));
}

#[test]
fn malformed_dep_group_fails() {
    let members = vec![op(7, 0)];
    let mut payload = group_payload(&members);
    payload.push(0);
    let mtx = group_tx(&members, payload);
    match Resource::from_both(&mtx, &mut Recorded::new(FailingLoader)) {
        Err(ResolveError::MalformedDepGroup(d)) => assert_eq!(d.out_point, op(6, 0)),
        other => panic!("unexpected: {:?}", other.err()),
    }
}

#[test]
fn missing_group_member_names_the_member() {
    let declared = vec![op(7, 0)];
    let mtx = group_tx(&declared, group_payload(&[op(7, 0), op(9, 3)]));
    let mut live = list_loader(vec![], vec![]);
    match Resource::from_both(&mtx, &mut live) {
        Err(ResolveError::GroupMemberNotFound(o)) => assert_eq!(o, op(9, 3)),
        other => panic!("unexpected: {:?}", other.err()),
    }
}

#[test]
fn unknown_cell_is_unknown_not_an_error() {
    let mtx = fully_declared();
    let resource = Resource::from_both(&mtx, &mut Recorded::new(FailingLoader)).unwrap();
    assert!(matches!(resource.cell(&op(42, 9), false), CellStatus::Unknown));
}

#[test]
fn first_declared_override_wins() {
    let mut mtx = fully_declared();
    mtx.mock_info.inputs.push(MockInput { input: input(op(1, 0)), output: output(300), data: vec![] });
    let resource = Resource::from_both(&mtx, &mut Recorded::new(FailingLoader)).unwrap();
    assert_eq!(capacity_of(&resource, &op(1, 0)), Some(100));
}

#[test]
fn later_write_to_same_out_point_wins() {
    // The same out-point is spent as an input and used as a dependency.
    let shared = op(1, 0);
    let mut mtx = fully_declared();
    mtx.mock_info.cell_deps.push(MockCellDep {
        cell_dep: CellDep { out_point: shared.clone(), dep_type: DepType::Code },
        output: output(777),
        data: vec![],
    });
    mtx.tx.cell_deps.push(CellDep { out_point: shared.clone(), dep_type: DepType::Code });
    let resource = Resource::from_both(&mtx, &mut Recorded::new(FailingLoader)).unwrap();
    assert_eq!(capacity_of(&resource, &shared), Some(777));
}

#[test]
fn loaded_data_carries_its_hash() {
    let mtx = fully_declared();
    let resource = Resource::from_both(&mtx, &mut Recorded::new(FailingLoader)).unwrap();
    let meta = match resource.cell(&op(3, 0), true) {
        CellStatus::Live(meta) => meta,
        CellStatus::Unknown => panic!("resolved cell missing"),
    };
    let (data, hash) = resource.load_cell_data(&meta).unwrap();
    assert_eq!(data, vec![1, 2]);
    assert_eq!(hash, ckb_hash::blake2b_256(&[1u8, 2]).to_vec());
    assert_ne!(hash, data);
}

#[test]
fn data_load_falls_back_to_snapshot() {
    let mtx = fully_declared();
    let resource = Resource::from_both(&mtx, &mut Recorded::new(FailingLoader)).unwrap();
    let bare = CellMeta { out_point: op(1, 0), cell_output: output(0), mem_cell_data: None };
    let (data, hash) = resource.load_cell_data(&bare).unwrap();
    assert_eq!(data, vec![7]);
    assert_eq!(hash, ckb_hash::blake2b_256(&[7u8]).to_vec());
    let unknown = CellMeta { out_point: op(50, 0), cell_output: output(0), mem_cell_data: None };
    assert!(resource.load_cell_data(&unknown).is_none());
    let attached = CellMeta {
        out_point: op(50, 0),
        cell_output: output(0),
        mem_cell_data: Some((vec![3], vec![4])),
    };
    assert_eq!(resource.load_cell_data(&attached), Some((vec![3], vec![4])));
}

#[test]
fn empty_data_hashes_to_blank_hash() {
    let mtx = MockTransaction {
        mock_info: MockInfo {
            inputs: vec![MockInput { input: input(op(1, 0)), output: output(1), data: vec![] }],
            cell_deps: vec![],
            header_deps: vec![],
        },
        tx: skeleton(vec![input(op(1, 0))], vec![], vec![]),
    };
    let resource = Resource::from_both(&mtx, &mut Recorded::new(FailingLoader)).unwrap();
    let bare = CellMeta { out_point: op(1, 0), cell_output: output(0), mem_cell_data: None };
    let (_, hash) = resource.load_cell_data(&bare).unwrap();
    assert_eq!(hash, ckb_hash::BLANK_HASH.to_vec());
}

#[test]
fn overridden_keys_are_never_fetched() {
    let mtx = fully_declared();
    let mut live = list_loader(vec![], vec![]);
    Resource::from_both(&mtx, &mut live).unwrap();
    assert!(live.source.asked.is_empty());
}

#[test]
fn each_missing_key_is_fetched_once_in_order() {
    let members = vec![op(7, 0), op(9, 3)];
    let mut mtx = group_tx(&[op(7, 0)], group_payload(&members));
    mtx.tx.inputs.push(input(op(1, 1)));
    mtx.tx.header_deps.push(vec![8u8; 32]);
    let mut live = list_loader(vec![(op(1, 1), 55, vec![]), (op(9, 3), 66, vec![])], vec![header(8)]);
    let resource = Resource::from_both(&mtx, &mut live).unwrap();
    assert_eq!(live.source.asked, vec!["cell 1:1", "cell 9:3", "header 8"]);
    assert_eq!(capacity_of(&resource, &op(9, 3)), Some(66));
}

#[test]
fn nothing_is_fetched_after_the_first_failure() {
    let mtx = MockTransaction {
        mock_info: empty_info(),
        tx: skeleton(vec![input(op(1, 1)), input(op(1, 2))], vec![], vec![vec![8u8; 32]]),
    };
    let mut live = list_loader(vec![(op(1, 2), 5, vec![])], vec![header(8)]);
    match Resource::from_both(&mtx, &mut live) {
        Err(ResolveError::InputNotFound(i)) => assert_eq!(i.previous_output, op(1, 1)),
        other => panic!("unexpected: {:?}", other.err()),
    }
    assert_eq!(live.source.asked, vec!["cell 1:1"]);
}

#[test]
fn lookups_fetch_only_without_an_override() {
    let mtx = fully_declared();
    let mut live = list_loader(vec![(op(4, 4), 44, vec![9])], vec![]);
    let got = mtx.get_input_cell(&input(op(1, 0)), &mut live).unwrap().unwrap();
    assert_eq!(got.0.capacity, 100);
    assert!(live.source.asked.is_empty());
    let got = mtx.get_dep_cell(&op(4, 4), &mut live).unwrap().unwrap();
    assert_eq!((got.0.capacity, got.1), (44, vec![9]));
    assert!(mtx.get_header(&vec![6u8; 32], &mut live).unwrap().is_none());
    assert_eq!(live.source.asked, vec!["cell 4:4", "header 6"]);
    let mut failing = Recorded::new(FailingLoader);
    assert_eq!(mtx.get_input_cell(&input(op(2, 0)), &mut failing).err(), Some("offline".to_string()));
}

#[test]
fn block_metadata_is_never_available() {
    let resource = Resource::from_both(&fully_declared(), &mut Recorded::new(FailingLoader)).unwrap();
    assert!(resource.get_block_ext(&vec![5u8; 32]).is_none());
    assert!(resource.get_block_epoch(&vec![5u8; 32]).is_none());
}
