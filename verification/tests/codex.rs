use ultrasonic::codex::{Call, CallError, Codex, IoCat, Verifiers, VERIFIERS_HINT};
use ultrasonic::confined::{SmallVec, Text};
use ultrasonic::encoding::{Canonical, DecodeError};
use ultrasonic::ids::{CallId, CodexId, ContractId, Opid};
use ultrasonic::isa::machine::{FieldOrder, Status};
use ultrasonic::library::{LibId, LibSite};
use ultrasonic::memory::Memory;
use ultrasonic::operation::{CellAddr, Input, Operation};
use ultrasonic::state::{fe128, AuthToken, StateCell, StateData, StateValue};

fn codex() -> Codex {
    let mut verifiers = Verifiers::new();
    assert!(verifiers.insert(CallId([1; 32]), LibSite::new(LibId([0xA1; 32]), 10)));
    assert!(verifiers.insert(CallId([2; 32]), LibSite::new(LibId([0xA2; 32]), 20)));
    Codex {
        name: Text::try_from_string("Fungible".to_string()).expect("short"),
        developer: Text::try_from_string("dev".to_string()).expect("short"),
        field_order: FieldOrder::Stark,
        verifiers,
        timestamp: 1,
        version: 0,
    }
}

fn operation(call: u8, spends: Vec<Input>, reads: Vec<CellAddr>) -> Operation {
    Operation {
        contract_id: ContractId([9; 32]),
        call_id: CallId([call; 32]),
        nonce: 0,
        destructible_in: SmallVec::try_from_vec(spends).expect("few inputs"),
        immutable_in: SmallVec::try_from_vec(reads).expect("few inputs"),
        destructible_out: SmallVec::try_from_vec(vec![StateCell {
            data: StateValue::Single(fe128(50)),
            seal: fe128(0),
            lock: None,
        }])
        .expect("one cell"),
        immutable_out: SmallVec::new(),
    }
}

fn memory() -> (Memory, Opid) {
    let mut memory = Memory::new();
    let opid = Opid([7; 32]);
    let cells = SmallVec::try_from_vec(vec![
        StateCell { data: StateValue::Single(fe128(1)), seal: fe128(0), lock: None },
        StateCell { data: StateValue::Single(fe128(2)), seal: fe128(0), lock: None },
    ])
    .expect("two cells");
    let datas = SmallVec::try_from_vec(vec![
        StateData { value: StateValue::Single(fe128(30)), auth: AuthToken([0; 30]), raw: None },
        StateData {
            value: StateValue::Double(fe128(31), fe128(32)),
            auth: AuthToken([0; 30]),
            raw: None,
        },
    ])
    .expect("two cells");
    memory.commit(opid, &cells, &datas);
    (memory, opid)
}

#[test]
fn an_unknown_call_is_refused_first() {
    let (memory, opid) = memory();
    let missing = CellAddr::new(Opid([0xEE; 32]), 0);
    let unknown = operation(3, vec![], vec![]);
    assert_eq!(codex().prepare(&unknown, &memory), Err(CallError::UnknownCallId(CallId([3; 32]))));
    let unknown = operation(
        3,
        vec![Input { addr: missing, witness: StateValue::Empty }],
        vec![missing, CellAddr::new(opid, 0)],
    );
    assert_eq!(codex().prepare(&unknown, &memory), Err(CallError::UnknownCallId(CallId([3; 32]))));
}

#[test]
fn inputs_have_to_resolve() {
    let (memory, opid) = memory();
    let missing = CellAddr::new(Opid([0xEE; 32]), 0);
    let spent = operation(1, vec![Input { addr: missing, witness: StateValue::Empty }], vec![]);
    assert_eq!(codex().prepare(&spent, &memory), Err(CallError::DoubleSpend(missing)));
    let unresolved = operation(1, vec![], vec![CellAddr::new(opid, 1), missing]);
    assert_eq!(codex().prepare(&unresolved, &memory), Err(CallError::UnresolvedInput(missing)));
    let twice = operation(
        1,
        vec![
            Input { addr: CellAddr::new(opid, 0), witness: StateValue::Empty },
            Input { addr: CellAddr::new(opid, 0), witness: StateValue::Empty },
        ],
        vec![],
    );
    assert_eq!(
        codex().prepare(&twice, &memory),
        Err(CallError::DoubleSpend(CellAddr::new(opid, 0)))
    );
}

#[test]
fn a_call_holds_what_the_program_is_to_see() {
    let (memory, opid) = memory();
    let op = operation(
        2,
        vec![
            Input { addr: CellAddr::new(opid, 1), witness: StateValue::Single(fe128(40)) },
            Input { addr: CellAddr::new(opid, 0), witness: StateValue::Empty },
        ],
        vec![CellAddr::new(opid, 1), CellAddr::new(opid, 0), CellAddr::new(opid, 1)],
    );
    let call = codex().prepare(&op, &memory).expect("a valid operation");
    assert_eq!(
        call,
        Call {
            entry: LibSite::new(LibId([0xA2; 32]), 20),
            field_order: FieldOrder::Stark,
            read_once_input: vec![StateValue::Single(fe128(40)), StateValue::Empty],
            immutable_input: vec![
                StateValue::Double(fe128(31), fe128(32)),
                StateValue::Single(fe128(30)),
                StateValue::Double(fe128(31), fe128(32)),
            ],
        }
    );
    let context = call.context(&op);
    assert!(context.is_wf());
    assert_eq!(context.len(IoCat::IN_RO), 2);
    assert_eq!(context.len(IoCat::IN_AO), 3);
    assert_eq!(context.len(IoCat::OUT_RO), 1);
    assert_eq!(context.len(IoCat::OUT_AO), 0);
    assert_eq!(context.state_value(IoCat::IN_RO, 0), Some(StateValue::Single(fe128(40))));
    assert_eq!(context.state_value(IoCat::IN_AO, 1), Some(StateValue::Single(fe128(30))));
    assert_eq!(context.state_value(IoCat::OUT_RO, 0), Some(StateValue::Single(fe128(50))));
    assert_eq!(context.state_value(IoCat::OUT_AO, 0), None);
    // preparing spends nothing
    assert!(memory.destructible(&CellAddr::new(opid, 1)).is_some());
    assert!(codex().prepare(&op, &memory).is_ok());
}

#[test]
fn an_operation_is_valid_where_the_run_leaves_the_check_register_clear() {
    let (memory, opid) = memory();
    let op = operation(
        1,
        vec![Input { addr: CellAddr::new(opid, 0), witness: StateValue::Single(fe128(40)) }],
        vec![CellAddr::new(opid, 1)],
    );
    let mut seen = None;
    let valid = codex().verify(&op, &memory, |call, context| {
        seen = Some((call.entry, call.field_order, context.len(IoCat::IN_AO)));
        assert_eq!(context.state_value(IoCat::IN_RO, 0), Some(StateValue::Single(fe128(40))));
        assert_eq!(context.state_value(IoCat::OUT_RO, 0), Some(StateValue::Single(fe128(50))));
        Status::Okay
    });
    assert_eq!(valid, Ok(()));
    assert_eq!(seen, Some((LibSite::new(LibId([0xA1; 32]), 10), FieldOrder::Stark, 1)));
    assert_eq!(codex().verify(&op, &memory, |_, _| Status::Fail), Err(CallError::VerifierFail));
}

#[test]
fn nothing_is_run_for_an_operation_which_is_refused() {
    let (memory, _) = memory();
    let missing = CellAddr::new(Opid([0xEE; 32]), 0);
    let unknown = operation(3, vec![], vec![]);
    let mut runs = 0;
    let refused = codex().verify(&unknown, &memory, |_, _| {
        runs += 1;
        Status::Okay
    });
    assert_eq!(refused, Err(CallError::UnknownCallId(CallId([3; 32]))));
    let unresolved = operation(1, vec![], vec![missing]);
    let refused = codex().verify(&unresolved, &memory, |_, _| {
        runs += 1;
        Status::Okay
    });
    assert_eq!(refused, Err(CallError::UnresolvedInput(missing)));
    let spent = operation(1, vec![Input { addr: missing, witness: StateValue::Empty }], vec![]);
    let refused = codex().verify(&spent, &memory, |_, _| {
        runs += 1;
        Status::Okay
    });
    assert_eq!(refused, Err(CallError::DoubleSpend(missing)));
    assert_eq!(runs, 0);
}

#[test]
fn the_verdict_is_the_check_register() {
    assert_eq!(Codex::conclude(Status::Okay), Ok(()));
    assert_eq!(Codex::conclude(Status::Fail), Err(CallError::VerifierFail));
}

#[test]
fn a_call_has_one_verifier() {
    let mut verifiers = Verifiers::new();
    let site = LibSite::new(LibId([1; 32]), 1);
    let other = LibSite::new(LibId([2; 32]), 2);
    assert_eq!(verifiers.get(CallId([1; 32])), None);
    assert!(verifiers.insert(CallId([1; 32]), site));
    assert!(!verifiers.insert(CallId([1; 32]), other));
    assert!(verifiers.insert(CallId([2; 32]), other));
    assert_eq!(verifiers.len(), 2);
    assert_eq!(verifiers.get(CallId([1; 32])), Some(site));
    assert_eq!(verifiers.get(CallId([2; 32])), Some(other));
    assert_eq!(verifiers.get(CallId([3; 32])), None);
}

#[test]
fn verifiers_with_a_call_twice_are_refused() {
    let mut bytes = vec![2u8, 0];
    for _ in 0..2 {
        bytes.extend_from_slice(&[1; 32]);
        bytes.extend_from_slice(&[5; 32]);
        bytes.extend_from_slice(&[0, 0]);
    }
    assert_eq!(
        Verifiers::decode(&bytes, 0),
        Err(DecodeError::DataIntegrityError(VERIFIERS_HINT.to_string()))
    );
    bytes[2] = 9;
    let (verifiers, end) = Verifiers::decode(&bytes, 0).expect("two calls");
    assert_eq!(end, bytes.len());
    assert_eq!(verifiers.len(), 2);
    let mut first = [1u8; 32];
    first[0] = 9;
    assert_eq!(verifiers.get(CallId(first)), Some(LibSite::new(LibId([5; 32]), 0)));
    let mut again = Vec::new();
    verifiers.encode(&mut again);
    assert_eq!(again, bytes);
}

#[test]
fn codex_layout_and_identifier() {
    let codex = codex();
    let bytes = codex.to_bytes();
    let mut expected = vec![8u8, 0];
    expected.extend_from_slice(b"Fungible");
    expected.extend_from_slice(&[3, 0]);
    expected.extend_from_slice(b"dev");
    expected.push(1);
    expected.extend_from_slice(&[2, 0]);
    expected.extend_from_slice(&[1; 32]);
    expected.extend_from_slice(&[0xA1; 32]);
    expected.extend_from_slice(&[10, 0]);
    expected.extend_from_slice(&[2; 32]);
    expected.extend_from_slice(&[0xA2; 32]);
    expected.extend_from_slice(&[20, 0]);
    expected.extend_from_slice(&1i64.to_le_bytes());
    expected.extend_from_slice(&[0, 0]);
    assert_eq!(bytes, expected);
    assert_eq!(codex.codex_id(), CodexId::commit(&expected));
    let (back, end) = Codex::decode(&bytes, 0).expect("the bytes of a codex");
    assert_eq!(end, bytes.len());
    assert_eq!(back, codex);
}

#[test]
fn field_orders_are_told_by_one_byte() {
    for (order, tag) in
        [(FieldOrder::Curve25519, 0u8), (FieldOrder::Stark, 1), (FieldOrder::Secp, 2)]
    {
        let mut bytes = Vec::new();
        order.encode(&mut bytes);
        assert_eq!(bytes, vec![tag]);
        assert_eq!(FieldOrder::decode(&bytes, 0), Ok((order, 1)));
    }
    assert_eq!(FieldOrder::decode(&[3], 0), Err(DecodeError::InvalidTag(3)));
    assert_eq!(FieldOrder::decode(&[], 0), Err(DecodeError::UnexpectedEof));
}

#[test]
fn names_of_a_codex_are_bounded() {
    let mut bytes = codex().to_bytes();
    bytes[0] = 0;
    bytes[1] = 1;
    assert_eq!(Codex::decode(&bytes, 0), Err(DecodeError::OverLimit));
    assert!(Text::<255>::try_from_string("n".repeat(255)).is_ok());
    assert!(Text::<255>::try_from_string("n".repeat(256)).is_err());
    assert!(Text::<4096>::try_from_string("n".repeat(4096)).is_ok());
    assert!(Text::<4096>::try_from_string("n".repeat(4097)).is_err());
}
