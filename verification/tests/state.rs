use ultrasonic::encoding::{Canonical, DecodeError};
use ultrasonic::library::{LibId, LibSite};
use ultrasonic::state::{fe128, AuthToken, RawData, StateCell, StateData, StateValue};

fn encoded<T: Canonical>(value: &T) -> Vec<u8> {
    let mut bytes = Vec::new();
    value.encode(&mut bytes);
    bytes
}

#[test]
fn four_elements_by_position() {
    let val = StateValue::Four(fe128(1), fe128(2), fe128(3), fe128(4));
    assert_eq!(val.get(0), Some(fe128(1)));
    assert_eq!(val.get(1), Some(fe128(2)));
    assert_eq!(val.get(2), Some(fe128(3)));
    assert_eq!(val.get(3), Some(fe128(4)));
    assert_eq!(val.get(4), None);
}

#[test]
fn element_is_there_below_the_arity_only() {
    let values = [
        StateValue::Empty,
        StateValue::Single(fe128(10)),
        StateValue::Double(fe128(10), fe128(11)),
        StateValue::Three(fe128(10), fe128(11), fe128(12)),
        StateValue::Four(fe128(10), fe128(11), fe128(12), fe128(13)),
    ];
    for (arity, value) in values.iter().enumerate() {
        assert_eq!(value.arity() as usize, arity);
        for pos in 0..=255u8 {
            let el = value.get(pos);
            assert_eq!(el.is_some(), (pos as usize) < arity);
            if let Some(el) = el {
                assert_eq!(el, fe128(10 + pos as u128));
            }
        }
    }
}

#[test]
fn cell_data_reads_its_value() {
    let cell = StateData {
        value: StateValue::Double(fe128(5), fe128(6)),
        auth: AuthToken([7; 30]),
        raw: None,
    };
    assert_eq!(cell.get(0), Some(fe128(5)));
    assert_eq!(cell.get(1), Some(fe128(6)));
    assert_eq!(cell.get(2), None);
}

#[test]
fn state_value_layout() {
    assert_eq!(encoded(&StateValue::Empty), vec![0u8]);
    let mut expected = vec![2u8];
    expected.extend_from_slice(&0x0102_0304_0506_0708_090A_0B0C_0D0E_0F10u128.to_le_bytes());
    expected.extend_from_slice(&2u128.to_le_bytes());
    let value = StateValue::Double(fe128(0x0102_0304_0506_0708_090A_0B0C_0D0E_0F10), fe128(2));
    assert_eq!(encoded(&value), expected);
    assert_eq!(expected.len(), 1 + 2 * 16);
    assert_eq!(expected[1], 0x10);
    assert_eq!(expected[16], 0x01);
}

#[test]
fn state_value_round_trip() {
    let values = [
        StateValue::Empty,
        StateValue::Single(fe128(u128::MAX)),
        StateValue::Double(fe128(1), fe128(2)),
        StateValue::Three(fe128(1), fe128(2), fe128(3)),
        StateValue::Four(fe128(1), fe128(2), fe128(3), fe128(0)),
    ];
    for value in values {
        let mut bytes = encoded(&value);
        let len = bytes.len();
        bytes.push(0xAA);
        assert_eq!(StateValue::decode(&bytes, 0), Ok((value, len)));
    }
}

#[test]
fn state_value_decodes_in_the_middle_of_bytes() {
    let mut bytes = vec![9u8, 9, 9];
    bytes.extend(encoded(&StateValue::Single(fe128(77))));
    assert_eq!(StateValue::decode(&bytes, 3), Ok((StateValue::Single(fe128(77)), 20)));
}

#[test]
fn state_value_refuses_unknown_arity() {
    let bytes = [5u8; 100];
    assert_eq!(StateValue::decode(&bytes, 0), Err(DecodeError::InvalidTag(5)));
}

#[test]
fn state_value_refuses_short_bytes() {
    assert_eq!(StateValue::decode(&[], 0), Err(DecodeError::UnexpectedEof));
    let mut bytes = encoded(&StateValue::Double(fe128(1), fe128(2)));
    bytes.pop();
    assert_eq!(StateValue::decode(&bytes, 0), Err(DecodeError::UnexpectedEof));
}

#[test]
fn state_cell_round_trip() {
    let locked = StateCell {
        data: StateValue::Single(fe128(3)),
        seal: fe128(0xABCD),
        lock: Some(LibSite::new(LibId([0x11; 32]), 0x0203)),
    };
    let bytes = encoded(&locked);
    assert_eq!(bytes.len(), 17 + 16 + 1 + 32 + 2);
    assert_eq!(bytes[33], 1);
    assert_eq!(&bytes[66..], &[0x03, 0x02]);
    assert_eq!(StateCell::decode(&bytes, 0), Ok((locked, bytes.len())));

    let open = StateCell { data: StateValue::Empty, seal: fe128(1), lock: None };
    let bytes = encoded(&open);
    assert_eq!(bytes.len(), 1 + 16 + 1);
    assert_eq!(bytes[17], 0);
    assert_eq!(StateCell::decode(&bytes, 0), Ok((open, bytes.len())));
}

#[test]
fn option_refuses_unknown_tag() {
    let mut bytes = encoded(&StateCell { data: StateValue::Empty, seal: fe128(1), lock: None });
    bytes[17] = 2;
    assert_eq!(StateCell::decode(&bytes, 0), Err(DecodeError::InvalidTag(2)));
}

#[test]
fn state_data_round_trip() {
    let raw = RawData::new(vec![1, 2, 3]).expect("three bytes fit");
    let cell = StateData {
        value: StateValue::Single(fe128(9)),
        auth: AuthToken([0x42; 30]),
        raw: Some(raw),
    };
    let bytes = encoded(&cell);
    assert_eq!(bytes.len(), 17 + 30 + 1 + 2 + 3);
    assert_eq!(&bytes[47..], &[1, 3, 0, 1, 2, 3]);
    let (back, end) = StateData::decode(&bytes, 0).expect("the bytes of a cell");
    assert_eq!(end, bytes.len());
    assert_eq!(back, cell);
    assert_eq!(back.clone(), cell);
}

#[test]
fn raw_data_is_bounded() {
    assert!(RawData::new(vec![0; 0xFFFF]).is_some());
    assert!(RawData::new(vec![0; 0x1_0000]).is_none());
    let raw = RawData::new(vec![5, 6]).expect("two bytes fit");
    assert_eq!(raw.as_slice(), &[5, 6]);
    assert_eq!(raw.clone().as_slice(), &[5, 6]);
}

#[test]
fn a_token_is_the_start_of_a_digest() {
    let mut digest = [0u8; 32];
    for (i, byte) in digest.iter_mut().enumerate() {
        *byte = 0xA0 + i as u8;
    }
    let token = AuthToken::from_digest(&digest);
    assert_eq!(&token.0[..], &digest[..30]);
    assert_eq!(token.0[29], 0xA0 + 29);
    let mut bytes = Vec::new();
    token.encode(&mut bytes);
    assert_eq!(bytes, digest[..30].to_vec());
    assert_eq!(AuthToken::decode(&digest, 0), Ok((token, 30)));
    assert_ne!(token, AuthToken([0; 30]));
}
