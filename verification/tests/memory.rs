use ultrasonic::confined::SmallVec;
use ultrasonic::ids::{CallId, ContractId, Opid};
use ultrasonic::memory::{CellKind, CellMap, Memory, MemoryError};
use ultrasonic::operation::{CellAddr, Input, Operation};
use ultrasonic::state::{fe128, AuthToken, RawData, StateCell, StateData, StateValue};

fn cell(value: u128) -> StateCell {
    StateCell { data: StateValue::Single(fe128(value)), seal: fe128(value + 100), lock: None }
}

fn data(value: u128) -> StateData {
    StateData {
        value: StateValue::Single(fe128(value)),
        auth: AuthToken([value as u8; 30]),
        raw: RawData::new(vec![value as u8; 3]),
    }
}

fn operation(
    nonce: u64,
    spends: Vec<CellAddr>,
    reads: Vec<CellAddr>,
    cells: Vec<StateCell>,
    datas: Vec<StateData>,
) -> Operation {
    let inputs = spends
        .into_iter()
        .map(|addr| Input { addr, witness: StateValue::Empty })
        .collect::<Vec<_>>();
    Operation {
        contract_id: ContractId([1; 32]),
        call_id: CallId([2; 32]),
        nonce,
        destructible_in: SmallVec::try_from_vec(inputs).expect("few inputs"),
        immutable_in: SmallVec::try_from_vec(reads).expect("few inputs"),
        destructible_out: SmallVec::try_from_vec(cells).expect("few outputs"),
        immutable_out: SmallVec::try_from_vec(datas).expect("few outputs"),
    }
}

#[test]
fn outputs_stand_at_the_positions_of_the_operation() {
    let mut memory = Memory::new();
    let first = operation(1, vec![], vec![], vec![cell(0), cell(1)], vec![data(5)]);
    let opid = memory.apply(&first).expect("an operation without inputs");
    assert_eq!(opid, first.opid());
    assert_eq!(memory.destructible(&CellAddr::new(opid, 0)), Some(&cell(0)));
    assert_eq!(memory.destructible(&CellAddr::new(opid, 1)), Some(&cell(1)));
    assert_eq!(memory.destructible(&CellAddr::new(opid, 2)), None);
    assert_eq!(memory.immutable(&CellAddr::new(opid, 0)), Some(&data(5)));
    assert_eq!(memory.immutable(&CellAddr::new(opid, 1)), None);

    let second = operation(2, vec![CellAddr::new(opid, 1)], vec![], vec![], vec![]);
    assert_eq!(memory.destructible(&second.destructible_in.as_slice()[0].addr), Some(&cell(1)));
    let second_id = memory.apply(&second).expect("the cell is unspent");
    assert_ne!(second_id, opid);
    assert_eq!(memory.destructible(&CellAddr::new(opid, 1)), None);
    assert_eq!(memory.destructible(&CellAddr::new(opid, 0)), Some(&cell(0)));
    assert_eq!(memory.immutable(&CellAddr::new(opid, 0)), Some(&data(5)));
    assert_eq!(memory.destructible.len(), 1);
    assert_eq!(memory.immutable.len(), 1);
}

#[test]
fn a_cell_is_spent_once() {
    let mut memory = Memory::new();
    let genesis = operation(1, vec![], vec![], vec![cell(0), cell(1)], vec![]);
    let opid = memory.apply(&genesis).expect("an operation without inputs");
    let spent = CellAddr::new(opid, 0);
    let first = operation(2, vec![spent], vec![], vec![cell(2)], vec![]);
    memory.apply(&first).expect("the cell is unspent");
    let again = operation(3, vec![spent], vec![], vec![cell(3)], vec![]);
    assert_eq!(memory.apply(&again), Err(MemoryError::DoubleSpend(spent)));
    assert_eq!(memory.apply(&first), Err(MemoryError::DoubleSpend(spent)));
    assert_eq!(memory.check_inputs(&again).err(), Some(MemoryError::DoubleSpend(spent)));
}

#[test]
fn a_cell_is_not_spent_twice_by_one_operation() {
    let mut memory = Memory::new();
    let genesis = operation(1, vec![], vec![], vec![cell(0)], vec![]);
    let opid = memory.apply(&genesis).expect("an operation without inputs");
    let addr = CellAddr::new(opid, 0);
    let twice = operation(2, vec![addr, addr], vec![], vec![], vec![]);
    assert_eq!(memory.apply(&twice), Err(MemoryError::DoubleSpend(addr)));
    assert_eq!(memory.destructible(&addr), Some(&cell(0)));
}

#[test]
fn an_operation_is_applied_as_a_whole_or_not_at_all() {
    let mut memory = Memory::new();
    let genesis = operation(1, vec![], vec![], vec![cell(0), cell(1)], vec![data(7)]);
    let opid = memory.apply(&genesis).expect("an operation without inputs");
    let missing = CellAddr::new(Opid([9; 32]), 0);

    let unresolved =
        operation(2, vec![CellAddr::new(opid, 0)], vec![missing], vec![cell(5)], vec![data(6)]);
    assert_eq!(memory.apply(&unresolved), Err(MemoryError::UnresolvedInput(missing)));
    assert_eq!(memory.destructible(&CellAddr::new(opid, 0)), Some(&cell(0)));
    assert_eq!(memory.destructible(&CellAddr::new(opid, 1)), Some(&cell(1)));
    assert_eq!(memory.destructible.len(), 2);
    assert_eq!(memory.immutable.len(), 1);

    let unspendable = operation(
        3,
        vec![CellAddr::new(opid, 1), missing, CellAddr::new(opid, 0)],
        vec![CellAddr::new(opid, 0)],
        vec![cell(5)],
        vec![],
    );
    assert_eq!(memory.apply(&unspendable), Err(MemoryError::DoubleSpend(missing)));
    assert_eq!(memory.destructible.len(), 2);
    assert_eq!(memory.destructible(&CellAddr::new(opid, 1)), Some(&cell(1)));

    let both = operation(4, vec![missing], vec![missing], vec![], vec![]);
    assert_eq!(memory.apply(&both), Err(MemoryError::DoubleSpend(missing)));

    let valid = operation(
        5,
        vec![CellAddr::new(opid, 1), CellAddr::new(opid, 0)],
        vec![CellAddr::new(opid, 0)],
        vec![cell(5)],
        vec![data(6)],
    );
    let valid_id = memory.apply(&valid).expect("all inputs resolve");
    assert_eq!(memory.destructible.len(), 1);
    assert_eq!(memory.immutable.len(), 2);
    assert_eq!(memory.destructible(&CellAddr::new(valid_id, 0)), Some(&cell(5)));
    assert_eq!(memory.immutable(&CellAddr::new(valid_id, 0)), Some(&data(6)));
    assert_eq!(memory.immutable(&CellAddr::new(opid, 0)), Some(&data(7)));
}

#[test]
fn immutable_cells_stay() {
    let mut memory = Memory::new();
    let genesis = operation(1, vec![], vec![], vec![], vec![data(1), data(2)]);
    let opid = memory.apply(&genesis).expect("an operation without inputs");
    let reader = operation(
        2,
        vec![],
        vec![CellAddr::new(opid, 1), CellAddr::new(opid, 1), CellAddr::new(opid, 0)],
        vec![],
        vec![data(3)],
    );
    memory.apply(&reader).expect("the cells are there");
    memory.apply(&reader).expect("the cells are still there");
    assert_eq!(memory.immutable(&CellAddr::new(opid, 0)), Some(&data(1)));
    assert_eq!(memory.immutable(&CellAddr::new(opid, 1)), Some(&data(2)));
    assert_eq!(memory.immutable.len(), 3);
}

#[test]
fn consume_takes_a_cell_out() {
    let mut memory = Memory::new();
    let opid = Opid([3; 32]);
    let cells = SmallVec::try_from_vec(vec![cell(1), cell(2)]).expect("two cells");
    let datas = SmallVec::try_from_vec(vec![data(3)]).expect("one cell");
    memory.commit(opid, &cells, &datas);
    assert_eq!(memory.consume(&CellAddr::new(opid, 0)), Ok(cell(1)));
    assert_eq!(
        memory.consume(&CellAddr::new(opid, 0)),
        Err(MemoryError::DoubleSpend(CellAddr::new(opid, 0)))
    );
    assert_eq!(
        memory.consume(&CellAddr::new(opid, 2)),
        Err(MemoryError::DoubleSpend(CellAddr::new(opid, 2)))
    );
    assert_eq!(memory.destructible(&CellAddr::new(opid, 1)), Some(&cell(2)));
    assert_eq!(memory.immutable(&CellAddr::new(opid, 0)), Some(&data(3)));
}

#[test]
fn cell_map_is_a_map() {
    let mut map: CellMap<StateCell> = CellMap::new();
    let (a, b) = (CellAddr::new(Opid([1; 32]), 0), CellAddr::new(Opid([1; 32]), 1));
    assert_eq!(map.len(), 0);
    assert!(!map.contains(&a));
    map.insert(a, cell(1));
    map.insert(b, cell(2));
    assert_eq!(map.len(), 2);
    map.insert(a, cell(3));
    assert_eq!(map.len(), 2);
    assert_eq!(map.get(&a), Some(&cell(3)));
    assert_eq!(map.get(&b), Some(&cell(2)));
    let copy = map.duplicate();
    assert_eq!(map.remove(&a), Some(cell(3)));
    assert_eq!(map.remove(&a), None);
    assert_eq!(map.len(), 1);
    assert!(map.contains(&b));
    assert_eq!(copy.len(), 2);
    assert_eq!(copy.get(&a), Some(&cell(3)));
}

#[test]
fn cells_resolve_by_their_kind() {
    let mut memory = Memory::new();
    let opid = Opid([3; 32]);
    let cells = SmallVec::try_from_vec(vec![cell(1), cell(2)]).expect("two cells");
    let datas = SmallVec::try_from_vec(vec![data(3)]).expect("one cell");
    memory.commit(opid, &cells, &datas);
    let value = |v: u128| Some(StateValue::Single(fe128(v)));
    assert_eq!(memory.resolve(&CellAddr::new(opid, 0), CellKind::Destructible), value(1));
    assert_eq!(memory.resolve(&CellAddr::new(opid, 1), CellKind::Destructible), value(2));
    assert_eq!(memory.resolve(&CellAddr::new(opid, 2), CellKind::Destructible), None);
    assert_eq!(memory.resolve(&CellAddr::new(opid, 0), CellKind::Immutable), value(3));
    assert_eq!(memory.resolve(&CellAddr::new(opid, 1), CellKind::Immutable), None);
    assert_eq!(memory.resolve(&CellAddr::new(Opid([4; 32]), 0), CellKind::Immutable), None);
}
