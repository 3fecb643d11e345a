use ultrasonic::confined::SmallVec;
use ultrasonic::encoding::{Canonical, DecodeError};
use ultrasonic::ids::{AccessId, CallId, CodexId, ContractId, GenesisId, Opid};
use ultrasonic::encoding::bytes_eq;
use ultrasonic::operation::{
    parse_addr_parts, CellAddr, Genesis, Input, Operation, ParseAddrError,
};
use ultrasonic::text::{parse_u16, str_eq};
use ultrasonic::state::{fe128, AuthToken, StateCell, StateData, StateValue};

const ID_TEXT: &str = "AAECAwQF-BgcICQo-LDA0ODx-AREhMUF-RYXGBka-GxwdHh8";

fn id_bytes() -> [u8; 32] {
    let mut bytes = [0u8; 32];
    for (i, byte) in bytes.iter_mut().enumerate() {
        *byte = i as u8;
    }
    bytes
}

fn operation() -> Operation {
    Operation {
        contract_id: ContractId([1; 32]),
        call_id: CallId([2; 32]),
        nonce: 3,
        destructible_in: SmallVec::try_from_vec(vec![Input {
            addr: CellAddr::new(Opid([4; 32]), 5),
            witness: StateValue::Single(fe128(6)),
        }])
        .expect("one input"),
        immutable_in: SmallVec::try_from_vec(vec![CellAddr::new(Opid([7; 32]), 8)])
            .expect("one address"),
        destructible_out: SmallVec::try_from_vec(vec![StateCell {
            data: StateValue::Empty,
            seal: fe128(9),
            lock: None,
        }])
        .expect("one cell"),
        immutable_out: SmallVec::try_from_vec(vec![StateData {
            value: StateValue::Empty,
            auth: AuthToken([10; 30]),
            raw: None,
        }])
        .expect("one cell"),
    }
}

#[test]
fn address_with_position() {
    let text = format!("opid:{ID_TEXT}/7");
    assert_eq!(parse_addr_parts(&text), Ok((ID_TEXT.to_string(), 7)));
    assert_eq!(
        CellAddr::from_parts(Some(id_bytes()), 7),
        Ok(CellAddr { opid: Opid(id_bytes()), pos: 7 })
    );
}

#[test]
fn address_without_position_is_at_zero() {
    let text = format!("opid:{ID_TEXT}");
    assert_eq!(parse_addr_parts(&text), Ok((ID_TEXT.to_string(), 0)));
    assert_eq!(
        CellAddr::from_parts(Some(id_bytes()), 0),
        Ok(CellAddr { opid: Opid(id_bytes()), pos: 0 })
    );
}

#[test]
fn address_with_a_bad_position() {
    for pos in ["x", "", "7x", "-1", "+7", " 7", "65536", "99999999999999999999", "1/2"] {
        let text = format!("opid:{ID_TEXT}/{pos}");
        assert_eq!(parse_addr_parts(&text), Err(ParseAddrError::BadPos), "for {pos:?}");
    }
}

#[test]
fn address_with_a_bad_identifier() {
    assert_eq!(CellAddr::from_parts(None, 7), Err(ParseAddrError::BadId));
    assert_eq!(parse_addr_parts(&format!("op:{ID_TEXT}/7")), Err(ParseAddrError::BadId));
    assert_eq!(parse_addr_parts(&format!("Opid:{ID_TEXT}")), Err(ParseAddrError::BadId));
    assert_eq!(parse_addr_parts(&format!(":{ID_TEXT}")), Err(ParseAddrError::BadId));
}

#[test]
fn address_without_separator() {
    assert_eq!(parse_addr_parts(ID_TEXT), Err(ParseAddrError::MissingSeparator));
    assert_eq!(parse_addr_parts(""), Err(ParseAddrError::MissingSeparator));
    assert_eq!(parse_addr_parts("opid/7"), Err(ParseAddrError::MissingSeparator));
}

#[test]
fn address_is_split_at_the_first_separators() {
    assert_eq!(parse_addr_parts("opid:/0"), Ok((String::new(), 0)));
    assert_eq!(parse_addr_parts("opid:"), Ok((String::new(), 0)));
    assert_eq!(parse_addr_parts("opid:a:b/12"), Ok(("a:b".to_string(), 12)));
    assert_eq!(parse_addr_parts("opid:é~/65535"), Ok(("é~".to_string(), 65535)));
}

#[test]
fn positions_are_decimal_numbers_of_16_bits() {
    assert_eq!(parse_u16("0"), Some(0));
    assert_eq!(parse_u16("7"), Some(7));
    assert_eq!(parse_u16("007"), Some(7));
    assert_eq!(parse_u16("65535"), Some(65535));
    assert_eq!(parse_u16("065535"), Some(65535));
    assert_eq!(parse_u16("65536"), None);
    assert_eq!(parse_u16("655350"), None);
    assert_eq!(parse_u16(""), None);
    assert_eq!(parse_u16("1a"), None);
    assert_eq!(parse_u16("٣"), None);
}

#[test]
fn address_is_written_as_it_is_read() {
    for pos in [0u16, 7, 10, 65535] {
        let addr = CellAddr::new(Opid(id_bytes()), pos);
        let text = addr.render();
        assert_eq!(text, format!("opid:{ID_TEXT}/{pos}"));
        assert_eq!(parse_addr_parts(&text), Ok((ID_TEXT.to_string(), pos)));
    }
}

#[test]
fn addresses_are_compared_by_operation_and_position() {
    let addr = CellAddr::new(Opid([1; 32]), 2);
    assert!(addr.matches(&CellAddr::new(Opid([1; 32]), 2)));
    assert!(!addr.matches(&CellAddr::new(Opid([1; 32]), 3)));
    assert!(!addr.matches(&CellAddr::new(Opid([2; 32]), 2)));
    assert_eq!(addr, CellAddr::new(Opid([1; 32]), 2));
    assert_ne!(addr, CellAddr::new(Opid([1; 32]), 3));
    assert!(bytes_eq(&[1u8, 2, 3], &[1, 2, 3]));
    assert!(!bytes_eq(&[1u8, 2, 3], &[1, 2, 4]));
    assert!(str_eq("abc", "abc"));
    assert!(!str_eq("abc", "abd"));
    assert!(!str_eq("abc", "ab"));
    assert!(str_eq("", ""));
}

#[test]
fn address_layout() {
    let addr = CellAddr::new(Opid([0xAB; 32]), 0x0102);
    let mut bytes = Vec::new();
    addr.encode(&mut bytes);
    assert_eq!(bytes.len(), 34);
    assert_eq!(&bytes[..32], &[0xAB; 32]);
    assert_eq!(&bytes[32..], &[2, 1]);
    assert_eq!(CellAddr::decode(&bytes, 0), Ok((addr, 34)));
    assert_eq!(CellAddr::decode(&bytes[..33], 0), Err(DecodeError::UnexpectedEof));
}

#[test]
fn operation_layout() {
    let op = operation();
    let bytes = op.to_bytes();
    let mut expected = vec![1u8; 32];
    expected.extend_from_slice(&[2; 32]);
    expected.extend_from_slice(&3u64.to_le_bytes());
    expected.extend_from_slice(&[1, 0]);
    expected.extend_from_slice(&[4; 32]);
    expected.extend_from_slice(&[5, 0]);
    expected.push(1);
    expected.extend_from_slice(&6u128.to_le_bytes());
    expected.extend_from_slice(&[1, 0]);
    expected.extend_from_slice(&[7; 32]);
    expected.extend_from_slice(&[8, 0]);
    expected.extend_from_slice(&[1, 0]);
    expected.push(0);
    expected.extend_from_slice(&9u128.to_le_bytes());
    expected.push(0);
    expected.extend_from_slice(&[1, 0]);
    expected.push(0);
    expected.extend_from_slice(&[10; 30]);
    expected.push(0);
    assert_eq!(bytes, expected);
    assert_eq!(op.opid(), Opid::commit(&expected));
}

#[test]
fn operations_round_trip() {
    let op = operation();
    let bytes = op.to_bytes();
    assert_eq!(Operation::decode(&bytes, 0), Ok((operation(), bytes.len())));
    for len in 0..bytes.len() {
        assert_eq!(Operation::decode(&bytes[..len], 0), Err(DecodeError::UnexpectedEof));
    }
}

#[test]
fn the_identifier_of_an_operation_follows_each_field() {
    let base = operation().opid();
    assert_eq!(operation().opid(), base);
    let mut op = operation();
    op.contract_id = ContractId([0; 32]);
    assert_ne!(op.opid(), base);
    let mut op = operation();
    op.call_id = CallId([0; 32]);
    assert_ne!(op.opid(), base);
    let mut op = operation();
    op.nonce = 4;
    assert_ne!(op.opid(), base);
    let mut op = operation();
    op.destructible_in = SmallVec::new();
    assert_ne!(op.opid(), base);
    let mut op = operation();
    op.immutable_in = SmallVec::new();
    assert_ne!(op.opid(), base);
    let mut op = operation();
    op.destructible_out = SmallVec::new();
    assert_ne!(op.opid(), base);
    let mut op = operation();
    op.immutable_out = SmallVec::new();
    assert_ne!(op.opid(), base);
}

#[test]
fn the_access_of_an_operation_commits_to_its_inputs() {
    let op = operation();
    let mut inputs = Vec::new();
    op.destructible_in.encode(&mut inputs);
    op.immutable_in.encode(&mut inputs);
    assert_eq!(op.access_id(), AccessId::commit(&inputs));
    let mut other = operation();
    other.nonce = 99;
    other.destructible_out = SmallVec::new();
    assert_eq!(other.access_id(), op.access_id());
    let mut other = operation();
    other.immutable_in = SmallVec::new();
    assert_ne!(other.access_id(), op.access_id());
    assert_ne!(op.access_id().to_bytes(), op.opid().to_bytes());
}

#[test]
fn a_genesis_is_an_operation_without_inputs() {
    let cell = StateCell { data: StateValue::Single(fe128(1)), seal: fe128(2), lock: None };
    let genesis = Genesis {
        codex_id: CodexId([3; 32]),
        call_id: CallId([4; 32]),
        nonce: 5,
        destructible_out: SmallVec::try_from_vec(vec![cell]).expect("one cell"),
        immutable_out: SmallVec::new(),
    };
    let mut bytes = Vec::new();
    genesis.encode(&mut bytes);
    assert_eq!(bytes.len(), 32 + 32 + 8 + 2 + (17 + 16 + 1) + 2);
    assert_eq!(genesis.genesis_id(), GenesisId::commit(&bytes));
    let (back, end) = Genesis::decode(&bytes, 0).expect("the bytes of a genesis");
    assert_eq!(end, bytes.len());
    assert_eq!(back, genesis);

    let op = genesis.to_operation(ContractId([6; 32]));
    assert_eq!(op.contract_id, ContractId([6; 32]));
    assert_eq!(op.call_id, CallId([4; 32]));
    assert_eq!(op.nonce, 5);
    assert_eq!(op.destructible_in.len(), 0);
    assert_eq!(op.immutable_in.len(), 0);
    assert_eq!(op.destructible_out.as_slice(), &[cell]);
    assert_eq!(op.immutable_out.len(), 0);
}
