use ckb_mock_tx::group::parse_dep_group;
use ckb_mock_tx::hex::{decode_hex, encode_hex};
use ckb_mock_tx::mock::{MockCellDep, MockInfo, MockInput, MockTransaction, Transaction};
use ckb_mock_tx::portable::{Portable, ReprHeader};
use ckb_mock_tx::types::{
    CellDep, CellInput, CellOutput, DepType, EpochNumberWithFraction, Header, OutPoint, Script,
};

#[test]
fn hex_encodes_with_prefix_and_lower_case() {
    assert_eq!(encode_hex(&vec![]), "0x");
    assert_eq!(encode_hex(&vec![0x00, 0xab, 0x7f, 0x10]), "0x00ab7f10");
}

#[test]
fn hex_decodes_what_it_encodes() {
    let bytes: Vec<u8> = (0..=255u8).collect();
    assert_eq!(decode_hex(&encode_hex(&bytes)), Some(bytes));
    assert_eq!(decode_hex(&"0x".to_string()), Some(vec![]));
}

#[test]
fn hex_rejects_malformed_text() {
    for bad in ["", "0", "00ab", "0xa", "0xAB", "0xzz", "1xab", "0x0g", "0xé0"] {
        assert_eq!(decode_hex(&bad.to_string()), None, "{}", bad);
    }
}

#[test]
fn dep_group_payload_parses_into_out_points() {
    let mut data = vec![1u8; 32];
    data.extend_from_slice(&7u32.to_le_bytes());
    data.extend_from_slice(&[2u8; 32]);
    data.extend_from_slice(&0x0102_0304u32.to_le_bytes());
    let parsed = parse_dep_group(&data).unwrap();
    assert_eq!(parsed, vec![OutPoint::new(vec![1u8; 32], 7), OutPoint::new(vec![2u8; 32], 0x0102_0304)]);
    assert_eq!(parse_dep_group(&vec![]), Some(vec![]));
    assert_eq!(parse_dep_group(&vec![0u8; 35]), None);
    assert_eq!(parse_dep_group(&vec![0u8; 37]), None);
    // A molecule-style count header makes the length 4 + 36n: not accepted.
    assert_eq!(parse_dep_group(&vec![0u8; 40]), None);
}

fn script(tag: u8) -> Script {
    Script { code_hash: vec![tag; 32], hash_type: 1, args: vec![tag, tag + 1] }
}

/// A header whose recorded hash is deliberately not a hash of its fields.
fn adversarial_header() -> Header {
    Header {
        hash: vec![0xee; 32],
        parent_hash: vec![0x11; 32],
        number: 42,
        timestamp: 1_600_000_000_000,
        version: 0,
        compact_target: 0x1e08_3126,
        transactions_root: vec![0x21u8; 32],
        proposals_hash: vec![0u8; 32],
        extra_hash: vec![0x33u8; 32],
        nonce: 7,
        epoch: EpochNumberWithFraction::new(3, 4, 5),
        dao: (0..32u8).collect(),
    }
}

fn sample() -> MockTransaction {
    let out_point = OutPoint::new(vec![0xaa; 32], 1);
    MockTransaction {
        mock_info: MockInfo {
            inputs: vec![MockInput {
                input: CellInput { previous_output: out_point.clone(), since: 9 },
                output: CellOutput { capacity: 500, lock: script(1), type_: Some(script(2)) },
                data: vec![1, 2, 3],
            }],
            cell_deps: vec![MockCellDep {
                cell_dep: CellDep { out_point: OutPoint::new(vec![0xbb; 32], 0), dep_type: DepType::DepGroup },
                output: CellOutput { capacity: 10, lock: script(3), type_: None },
                data: vec![],
            }],
            header_deps: vec![adversarial_header()],
        },
        tx: Transaction {
            version: 0,
            cell_deps: vec![CellDep { out_point: OutPoint::new(vec![0xbb; 32], 0), dep_type: DepType::DepGroup }],
            header_deps: vec![vec![0xee; 32]],
            inputs: vec![CellInput { previous_output: out_point, since: 9 }],
            outputs: vec![CellOutput { capacity: 490, lock: script(4), type_: None }],
            outputs_data: vec![vec![]],
            witnesses: vec![vec![0x55; 65]],
        },
    }
}

fn same_header(a: &Header, b: &Header) -> bool {
    a.hash == b.hash
        && a.parent_hash == b.parent_hash
        && a.number == b.number
        && a.timestamp == b.timestamp
        && a.epoch == b.epoch
        && a.dao == b.dao
        && a.version == b.version
        && a.compact_target == b.compact_target
        && a.transactions_root == b.transactions_root
        && a.proposals_hash == b.proposals_hash
        && a.extra_hash == b.extra_hash
        && a.nonce == b.nonce
}

#[test]
fn mock_transaction_round_trips() {
    let m = sample();
    let repr = m.to_repr();
    let back = MockTransaction::from_repr(&repr).expect("readable");
    let a = format!("{:?}", m);
    let b = format!("{:?}", back);
    assert_eq!(a, b);
    assert!(same_header(&back.mock_info.header_deps[0], &adversarial_header()));
}

#[test]
fn header_hash_is_recorded_literally() {
    let repr = adversarial_header().to_repr();
    assert_eq!(repr.hash, format!("0x{}", "ee".repeat(32)));
    assert_eq!(repr.dao, format!("0x{}", (0..32u8).map(|b| format!("{:02x}", b)).collect::<String>()));
    let back = Header::from_repr(&repr).unwrap();
    assert_eq!(back.hash, vec![0xee; 32]);
}

#[test]
fn portable_fields_are_hex_text() {
    let repr = sample().to_repr();
    assert_eq!(repr.mock_info.inputs[0].data, "0x010203");
    assert_eq!(repr.mock_info.cell_deps[0].data, "0x");
    assert_eq!(repr.tx.witnesses[0], format!("0x{}", "55".repeat(65)));
    assert_eq!(repr.tx.inputs[0].since, 9);
}

#[test]
fn unreadable_portable_form_is_refused() {
    let mut repr = adversarial_header().to_repr();
    repr.parent_hash = "0x1".to_string();
    assert!(Header::from_repr(&repr).is_none());
    let mut repr = sample().to_repr();
    repr.tx.outputs_data[0] = "zz".to_string();
    assert!(MockTransaction::from_repr(&repr).is_none());
    let header = ReprHeader {
        hash: "0x".to_string(),
        parent_hash: "0x".to_string(),
        number: 0,
        timestamp: 0,
        epoch: EpochNumberWithFraction::new(0, 0, 1),
        version: 0,
        compact_target: 0,
        transactions_root: "0x".to_string(),
        proposals_hash: "0x".to_string(),
        extra_hash: "0x".to_string(),
        dao: "0x".to_string(),
        nonce: 0,
    };
    assert!(Header::from_repr(&header).is_some());
}
