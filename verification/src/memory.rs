//! The memory of a contract: its unspent destructible cells and its immutable cells, by their
//! addresses.

use vstd::prelude::*;

use crate::confined::SmallVec;
use crate::encoding::{Canonical, SEQ_MAX_LEN};
use crate::ids::Opid;
use crate::operation::{CellAddr, Input, Operation};
use crate::state::{StateCell, StateData, StateDataView, StateValue};

verus! {

/// The addresses of entries, in their order.
pub open spec fn addrs_of<V>(entries: Seq<(CellAddr, V)>) -> Seq<CellAddr> {
    entries.map_values(|entry: (CellAddr, V)| entry.0)
}

/// The map which entries stand for, where no address occurs twice among them.
pub open spec fn map_of<V>(entries: Seq<(CellAddr, V)>) -> Map<CellAddr, V> {
    Map::new(
        |addr: CellAddr| addrs_of(entries).contains(addr),
        |addr: CellAddr| entries[addrs_of(entries).index_of(addr)].1,
    )
}

/// An entry stands in the map under its address.
pub proof fn lemma_map_of_entry<V>(entries: Seq<(CellAddr, V)>, i: int)
    requires
        addrs_of(entries).no_duplicates(),
        0 <= i < entries.len(),
    ensures
        map_of(entries).dom().contains(entries[i].0),
        map_of(entries)[entries[i].0] == entries[i].1,
{
    let addrs = addrs_of(entries);
    assert(addrs[i] == entries[i].0);
    assert(addrs.contains(entries[i].0));
    addrs.index_of_first_ensures(entries[i].0);
    let j = addrs.index_of(entries[i].0);
    assert(addrs[j] == addrs[i]);
}

/// Cells by their addresses.
pub struct CellMap<V> {
    entries: Vec<(CellAddr, V)>,
}

impl<V> View for CellMap<V> {
    type V = Map<CellAddr, V>;

    closed spec fn view(&self) -> Map<CellAddr, V> {
        map_of(self.entries@)
    }
}

impl<V> CellMap<V> {
    #[verifier::type_invariant]
    spec fn distinct(self) -> bool {
        addrs_of(self.entries@).no_duplicates()
    }

    /// The map without cells.
    pub fn new() -> (map: CellMap<V>)
        ensures
            map@ == Map::<CellAddr, V>::empty(),
    {
        let map = CellMap { entries: Vec::new() };
        assert(map@ =~= Map::<CellAddr, V>::empty());
        map
    }

    /// Number of cells.
    pub fn len(&self) -> (n: usize)
        ensures
            n == self@.dom().len(),
            self@.dom().finite(),
    {
        proof {
            use_type_invariant(self);
            Self::lemma_dom_len(self.entries@);
        }
        self.entries.len()
    }

    /// A map of entries has as many addresses as there are entries.
    proof fn lemma_dom_len(entries: Seq<(CellAddr, V)>)
        requires
            addrs_of(entries).no_duplicates(),
        ensures
            map_of(entries).dom().finite(),
            map_of(entries).dom().len() == entries.len(),
    {
        let addrs = addrs_of(entries);
        addrs.unique_seq_to_set();
        assert(map_of(entries).dom() =~= addrs.to_set());
    }

    /// Place of an address among the entries.
    fn position(&self, addr: &CellAddr) -> (found: Option<usize>)
        ensures
            match found {
                Some(i) => i < self.entries@.len() && self.entries@[i as int].0 == *addr,
                None => !addrs_of(self.entries@).contains(*addr),
            },
    {
        let mut i: usize = 0;
        while i < self.entries.len()
            invariant
                i <= self.entries@.len(),
                forall|k: int| 0 <= k < i ==> self.entries@[k].0 != *addr,
            decreases self.entries@.len() - i,
        {
            if self.entries[i].0.matches(addr) {
                return Some(i);
            }
            i += 1;
        }
        None
    }

    /// The cell at an address, where there is one.
    pub fn get(&self, addr: &CellAddr) -> (cell: Option<&V>)
        ensures
            cell is Some <==> self@.dom().contains(*addr),
            cell matches Some(c) ==> *c == self@[*addr],
    {
        proof {
            use_type_invariant(self);
        }
        match self.position(addr) {
            Some(i) => {
                proof {
                    lemma_map_of_entry(self.entries@, i as int);
                }
                Some(&self.entries[i].1)
            },
            None => None,
        }
    }

    /// Tells whether there is a cell at an address.
    pub fn contains(&self, addr: &CellAddr) -> (held: bool)
        ensures
            held == self@.dom().contains(*addr),
    {
        self.get(addr).is_some()
    }

    /// Puts a cell at an address, in place of the cell which may be there.
    pub fn insert(&mut self, addr: CellAddr, cell: V)
        ensures
            final(self)@ == old(self)@.insert(addr, cell),
    {
        proof {
            use_type_invariant(&*self);
        }
        let found = self.position(&addr);
        let mut entries: Vec<(CellAddr, V)> = Vec::new();
        core::mem::swap(&mut self.entries, &mut entries);
        assert(addrs_of(self.entries@) =~= Seq::<CellAddr>::empty());
        let ghost before = entries@;
        match found {
            Some(i) => {
                entries.set(i, (addr, cell));
                proof {
                    Self::lemma_update(before, i as int, cell);
                }
            },
            None => {
                entries.push((addr, cell));
                proof {
                    Self::lemma_push(before, addr, cell);
                }
            },
        }
        core::mem::swap(&mut self.entries, &mut entries);
    }

    /// Entries with the cell of one of them set anew stand for the map with that address
    /// inserted.
    proof fn lemma_update(before: Seq<(CellAddr, V)>, i: int, cell: V)
        requires
            addrs_of(before).no_duplicates(),
            0 <= i < before.len(),
        ensures
            addrs_of(before.update(i, (before[i].0, cell))) == addrs_of(before),
            map_of(before.update(i, (before[i].0, cell))) == map_of(before).insert(
                before[i].0,
                cell,
            ),
    {
        let addr = before[i].0;
        let after = before.update(i, (addr, cell));
        assert(addrs_of(after) =~= addrs_of(before));
        assert(addrs_of(before)[i] == addr);
        let (ma, mb) = (map_of(after), map_of(before).insert(addr, cell));
        assert(ma.dom() =~= mb.dom());
        assert forall|a: CellAddr| ma.dom().contains(a) implies ma[a] == mb[a] by {
            let k = addrs_of(after).index_of(a);
            addrs_of(after).index_of_first_ensures(a);
            lemma_map_of_entry(after, k);
            lemma_map_of_entry(before, k);
        }
        assert(ma =~= mb);
    }

    /// Entries with one more, at an address which none of them has, stand for the map with
    /// that address inserted.
    proof fn lemma_push(before: Seq<(CellAddr, V)>, addr: CellAddr, cell: V)
        requires
            addrs_of(before).no_duplicates(),
            !addrs_of(before).contains(addr),
        ensures
            addrs_of(before.push((addr, cell))).no_duplicates(),
            map_of(before.push((addr, cell))) == map_of(before).insert(addr, cell),
    {
        let after = before.push((addr, cell));
        let last = before.len() as int;
        assert(addrs_of(after) =~= addrs_of(before).push(addr));
        assert(addrs_of(after)[last] == addr);
        let (ma, mb) = (map_of(after), map_of(before).insert(addr, cell));
        assert forall|a: CellAddr| ma.dom().contains(a) <==> mb.dom().contains(a) by {
            if ma.dom().contains(a) && a != addr {
                let k = addrs_of(after).index_of(a);
                addrs_of(after).index_of_first_ensures(a);
                assert(addrs_of(before)[k] == a);
            }
            if mb.dom().contains(a) && a != addr {
                let k = addrs_of(before).index_of(a);
                addrs_of(before).index_of_first_ensures(a);
                assert(addrs_of(after)[k] == a);
            }
        }
        assert forall|a: CellAddr| ma.dom().contains(a) implies ma[a] == mb[a] by {
            let k = addrs_of(after).index_of(a);
            addrs_of(after).index_of_first_ensures(a);
            lemma_map_of_entry(after, k);
            if a != addr {
                assert(addrs_of(before)[k] == a);
                lemma_map_of_entry(before, k);
            }
        }
        assert(ma =~= mb);
    }

    /// A copy of the map.
    pub fn duplicate(&self) -> (copy: CellMap<V>) where V: Copy
        ensures
            copy@ == self@,
    {
        proof {
            use_type_invariant(self);
        }
        let mut entries: Vec<(CellAddr, V)> = Vec::new();
        let mut i: usize = 0;
        while i < self.entries.len()
            invariant
                i <= self.entries@.len(),
                entries@ == self.entries@.take(i as int),
            decreases self.entries@.len() - i,
        {
            let (addr, cell) = self.entries[i];
            entries.push((addr, cell));
            assert(entries@ =~= self.entries@.take(i + 1));
            i += 1;
        }
        assert(entries@ =~= self.entries@);
        CellMap { entries }
    }

    /// Takes the cell at an address out of the map, where there is one.
    pub fn remove(&mut self, addr: &CellAddr) -> (cell: Option<V>)
        ensures
            cell is Some <==> old(self)@.dom().contains(*addr),
            cell matches Some(c) ==> c == old(self)@[*addr],
            final(self)@ == old(self)@.remove(*addr),
    {
        proof {
            use_type_invariant(&*self);
        }
        match self.position(addr) {
            Some(i) => {
                let mut entries: Vec<(CellAddr, V)> = Vec::new();
                core::mem::swap(&mut self.entries, &mut entries);
                assert(addrs_of(self.entries@) =~= Seq::<CellAddr>::empty());
                let ghost before = entries@;
                let entry = entries.remove(i);
                proof {
                    lemma_map_of_entry(before, i as int);
                    Self::lemma_remove(before, i as int);
                }
                core::mem::swap(&mut self.entries, &mut entries);
                Some(entry.1)
            },
            None => {
                assert(self@.remove(*addr) =~= self@);
                None
            },
        }
    }

    /// Entries without one of them stand for the map without its address.
    proof fn lemma_remove(before: Seq<(CellAddr, V)>, i: int)
        requires
            addrs_of(before).no_duplicates(),
            0 <= i < before.len(),
        ensures
            addrs_of(before.remove(i)).no_duplicates(),
            map_of(before.remove(i)) == map_of(before).remove(before[i].0),
    {
        let after = before.remove(i);
        let addr = before[i].0;
        assert(addrs_of(after) =~= addrs_of(before).remove(i));
        assert forall|x: int, y: int|
            0 <= x < after.len() && 0 <= y < after.len() && x != y implies addrs_of(after)[x]
            != addrs_of(after)[y] by {
            let (bx, by) = (if x < i { x } else { x + 1 }, if y < i { y } else { y + 1 });
            assert(addrs_of(after)[x] == addrs_of(before)[bx]);
            assert(addrs_of(after)[y] == addrs_of(before)[by]);
        }
        let (ma, mb) = (map_of(after), map_of(before).remove(addr));
        assert forall|a: CellAddr| ma.dom().contains(a) <==> mb.dom().contains(a) by {
            if ma.dom().contains(a) {
                let k = addrs_of(after).index_of(a);
                addrs_of(after).index_of_first_ensures(a);
                let bk = if k < i { k } else { k + 1 };
                assert(addrs_of(before)[bk] == a);
                assert(addrs_of(before)[i] == addr);
            }
            if mb.dom().contains(a) {
                let k = addrs_of(before).index_of(a);
                addrs_of(before).index_of_first_ensures(a);
                assert(addrs_of(before)[i] == addr);
                let ak = if k < i { k } else { k - 1 };
                assert(addrs_of(after)[ak] == a);
            }
        }
        assert forall|a: CellAddr| ma.dom().contains(a) implies ma[a] == mb[a] by {
            let k = addrs_of(after).index_of(a);
            addrs_of(after).index_of_first_ensures(a);
            lemma_map_of_entry(after, k);
            let bk = if k < i { k } else { k + 1 };
            assert(addrs_of(before)[bk] == a);
            lemma_map_of_entry(before, bk);
        }
        assert(ma =~= mb);
    }
}

/// Kind of a memory cell.
#[derive(Copy, Clone, PartialEq, Eq, Structural, Hash, Debug)]
pub enum CellKind {
    /// The cell is read once: it is spent by the operation which takes it for an input.
    Destructible,
    /// The cell is there to stay: operations read it and leave it.
    Immutable,
}

/// Why an operation cannot be applied to the memory.
#[derive(Copy, Clone, PartialEq, Eq, Hash, Debug)]
pub enum MemoryError {
    /// An immutable input is at an address where the memory has no immutable cell.
    UnresolvedInput(CellAddr),
    /// A destructible input is at an address where the memory has no unspent cell: the cell
    /// was spent before, or was never there.
    DoubleSpend(CellAddr),
}

/// What the memory of a contract holds.
pub struct MemoryView {
    /// The destructible cells which are not spent.
    pub destructible: Map<CellAddr, StateCell>,
    /// The immutable cells.
    pub immutable: Map<CellAddr, StateDataView>,
}

/// The destructible cells which are left when the inputs are consumed one after another, or
/// the first input which cannot be consumed.
pub open spec fn consume_all(cells: Map<CellAddr, StateCell>, inputs: Seq<Input>) -> Result<
    Map<CellAddr, StateCell>,
    MemoryError,
>
    decreases inputs.len(),
{
    if inputs.len() == 0 {
        Ok(cells)
    } else {
        match consume_all(cells, inputs.drop_last()) {
            Ok(left) => if left.dom().contains(inputs.last().addr) {
                Ok(left.remove(inputs.last().addr))
            } else {
                Err(MemoryError::DoubleSpend(inputs.last().addr))
            },
            Err(e) => Err(e),
        }
    }
}

/// The first of the addresses at which there is no immutable cell.
pub open spec fn first_unresolved(
    cells: Map<CellAddr, StateDataView>,
    addrs: Seq<CellAddr>,
) -> Option<CellAddr>
    decreases addrs.len(),
{
    if addrs.len() == 0 {
        None
    } else {
        match first_unresolved(cells, addrs.drop_last()) {
            Some(addr) => Some(addr),
            None => if cells.dom().contains(addrs.last()) {
                None
            } else {
                Some(addrs.last())
            },
        }
    }
}

/// The cells with the outputs of an operation put in: each output at the address made of the
/// identifier of the operation and the position of the output.
pub open spec fn commit_all<V>(cells: Map<CellAddr, V>, opid: Opid, outputs: Seq<V>) -> Map<
    CellAddr,
    V,
>
    decreases outputs.len(),
{
    if outputs.len() == 0 {
        cells
    } else {
        commit_all(cells, opid, outputs.drop_last()).insert(
            CellAddr { opid, pos: (outputs.len() - 1) as u16 },
            outputs.last(),
        )
    }
}

impl MemoryView {
    /// The destructible cells which are left when an operation has consumed its inputs; or
    /// why the operation cannot be applied: the first destructible input which is not there to
    /// be consumed, or else the first immutable input which is not there.
    pub open spec fn check_inputs(self, op: Operation) -> Result<
        Map<CellAddr, StateCell>,
        MemoryError,
    > {
        match consume_all(self.destructible, op.destructible_in@) {
            Ok(left) => match first_unresolved(self.immutable, op.immutable_in@) {
                Some(addr) => Err(MemoryError::UnresolvedInput(addr)),
                None => Ok(left),
            },
            Err(e) => Err(e),
        }
    }

    /// The memory after an operation with the identifier `opid`: the destructible inputs are
    /// consumed and the outputs put in. Where an input does not resolve, there is no such
    /// memory.
    pub open spec fn apply(self, op: Operation, opid: Opid) -> Result<MemoryView, MemoryError> {
        match self.check_inputs(op) {
            Ok(left) => Ok(
                MemoryView {
                    destructible: commit_all(left, opid, op.destructible_out@),
                    immutable: commit_all(
                        self.immutable,
                        opid,
                        op.immutable_out@.map_values(|cell: StateData| cell@),
                    ),
                },
            ),
            Err(e) => Err(e),
        }
    }
}

/// Once an input cannot be consumed, further inputs do not change the failure.
pub proof fn lemma_consume_all_fails(
    cells: Map<CellAddr, StateCell>,
    inputs: Seq<Input>,
    upto: int,
)
    requires
        0 <= upto <= inputs.len(),
        consume_all(cells, inputs.take(upto)) is Err,
    ensures
        consume_all(cells, inputs) == consume_all(cells, inputs.take(upto)),
    decreases inputs.len() - upto,
{
    if upto < inputs.len() {
        assert(inputs.take(upto + 1).drop_last() =~= inputs.take(upto));
        lemma_consume_all_fails(cells, inputs, upto + 1);
    } else {
        assert(inputs.take(upto) =~= inputs);
    }
}

/// Once an address does not resolve, further addresses do not change the finding.
pub proof fn lemma_first_unresolved_found(
    cells: Map<CellAddr, StateDataView>,
    addrs: Seq<CellAddr>,
    upto: int,
)
    requires
        0 <= upto <= addrs.len(),
        first_unresolved(cells, addrs.take(upto)) is Some,
    ensures
        first_unresolved(cells, addrs) == first_unresolved(cells, addrs.take(upto)),
    decreases addrs.len() - upto,
{
    if upto < addrs.len() {
        assert(addrs.take(upto + 1).drop_last() =~= addrs.take(upto));
        lemma_first_unresolved_found(cells, addrs, upto + 1);
    } else {
        assert(addrs.take(upto) =~= addrs);
    }
}

/// Where no address fails to resolve, there is an immutable cell at each of the addresses.
pub proof fn lemma_first_unresolved_none(
    cells: Map<CellAddr, StateDataView>,
    addrs: Seq<CellAddr>,
    at: int,
)
    requires
        first_unresolved(cells, addrs) is None,
        0 <= at < addrs.len(),
    ensures
        cells.dom().contains(addrs[at]),
    decreases addrs.len(),
{
    if at < addrs.len() - 1 {
        assert(addrs.drop_last()[at] == addrs[at]);
        lemma_first_unresolved_none(cells, addrs.drop_last(), at);
    }
}

/// Consumption takes cells away and brings none: what is left was there before, and no
/// consumed cell is left.
pub proof fn lemma_consume_all_left(cells: Map<CellAddr, StateCell>, inputs: Seq<Input>)
    requires
        consume_all(cells, inputs) is Ok,
    ensures
        consume_all(cells, inputs)->Ok_0.dom().subset_of(cells.dom()),
        forall|i: int|
            0 <= i < inputs.len() ==> !consume_all(cells, inputs)->Ok_0.dom().contains(
                #[trigger] inputs[i].addr,
            ),
    decreases inputs.len(),
{
    if inputs.len() > 0 {
        lemma_consume_all_left(cells, inputs.drop_last());
        let left = consume_all(cells, inputs)->Ok_0;
        assert forall|i: int| 0 <= i < inputs.len() implies !left.dom().contains(
            #[trigger] inputs[i].addr,
        ) by {
            if i < inputs.len() - 1 {
                assert(inputs.drop_last()[i] == inputs[i]);
            }
        }
    }
}

/// Inputs among which one is at an address without an unspent cell cannot be consumed: the
/// consumption fails with a double spend.
pub proof fn lemma_consume_all_absent(
    cells: Map<CellAddr, StateCell>,
    inputs: Seq<Input>,
    at: int,
)
    requires
        0 <= at < inputs.len(),
        !cells.dom().contains(inputs[at].addr),
    ensures
        consume_all(cells, inputs) matches Err(MemoryError::DoubleSpend(_)),
    decreases inputs.len(),
{
    let before = inputs.drop_last();
    if at < inputs.len() - 1 {
        assert(before[at] == inputs[at]);
        lemma_consume_all_absent(cells, before, at);
    } else {
        if consume_all(cells, before) is Ok {
            lemma_consume_all_left(cells, before);
        } else {
            lemma_consume_all_error(cells, before);
        }
    }
}

/// A consumption fails with a double spend, or not at all.
pub proof fn lemma_consume_all_error(cells: Map<CellAddr, StateCell>, inputs: Seq<Input>)
    ensures
        consume_all(cells, inputs) is Err ==> (consume_all(cells, inputs) matches Err(
            MemoryError::DoubleSpend(_),
        )),
    decreases inputs.len(),
{
    if inputs.len() > 0 {
        lemma_consume_all_error(cells, inputs.drop_last());
    }
}

/// The outputs of an operation come to stand at addresses of that operation, and nowhere else.
pub proof fn lemma_commit_all_dom<V>(cells: Map<CellAddr, V>, opid: Opid, outputs: Seq<V>)
    ensures
        forall|addr: CellAddr|
            #![trigger commit_all(cells, opid, outputs).dom().contains(addr)]
            commit_all(cells, opid, outputs).dom().contains(addr) ==> cells.dom().contains(addr)
                || addr.opid == opid,
    decreases outputs.len(),
{
    if outputs.len() > 0 {
        let before = commit_all(cells, opid, outputs.drop_last());
        lemma_commit_all_dom(cells, opid, outputs.drop_last());
        assert forall|addr: CellAddr|
            #![trigger commit_all(cells, opid, outputs).dom().contains(addr)]
            commit_all(cells, opid, outputs).dom().contains(addr) implies cells.dom().contains(
            addr,
        ) || addr.opid == opid by {
            if addr.opid != opid {
                assert(before.dom().contains(addr));
            }
        }
    }
}

/// The outputs of an operation stand at their positions, counted from zero without a gap: the
/// output at the position `pos` is found at the address of the operation and `pos`.
pub proof fn lemma_commit_all_at<V>(cells: Map<CellAddr, V>, opid: Opid, outputs: Seq<V>, pos: u16)
    requires
        pos < outputs.len() <= u16::MAX + 1,
    ensures
        commit_all(cells, opid, outputs).dom().contains(CellAddr { opid, pos }),
        commit_all(cells, opid, outputs)[CellAddr { opid, pos }] == outputs[pos as int],
    decreases outputs.len(),
{
    if pos < outputs.len() - 1 {
        lemma_commit_all_at(cells, opid, outputs.drop_last(), pos);
        assert(outputs.drop_last()[pos as int] == outputs[pos as int]);
        let last = CellAddr { opid, pos: (outputs.len() - 1) as u16 };
        assert(last != CellAddr { opid, pos });
    }
}

/// What the memory holds before the outputs of an operation are put in, it holds afterwards:
/// the same cells at all addresses but those of the operation.
pub proof fn lemma_commit_all_keeps<V>(cells: Map<CellAddr, V>, opid: Opid, outputs: Seq<V>)
    ensures
        forall|addr: CellAddr|
            #![trigger commit_all(cells, opid, outputs).dom().contains(addr)]
            cells.dom().contains(addr) ==> {
                &&& commit_all(cells, opid, outputs).dom().contains(addr)
                &&& addr.opid != opid ==> commit_all(cells, opid, outputs)[addr] == cells[addr]
            },
    decreases outputs.len(),
{
    if outputs.len() > 0 {
        lemma_commit_all_keeps(cells, opid, outputs.drop_last());
        let before = commit_all(cells, opid, outputs.drop_last());
        assert forall|addr: CellAddr|
            #![trigger commit_all(cells, opid, outputs).dom().contains(addr)]
            cells.dom().contains(addr) implies {
            &&& commit_all(cells, opid, outputs).dom().contains(addr)
            &&& addr.opid != opid ==> commit_all(cells, opid, outputs)[addr] == cells[addr]
        } by {
            assert(before.dom().contains(addr));
        }
    }
}

/// An immutable cell, once it is in the memory, is never removed: after an operation has been
/// applied, every immutable cell is still there, and unchanged unless the operation has put
/// its own output at the address.
pub proof fn lemma_immutable_stays(memory: MemoryView, op: Operation, opid: Opid, addr: CellAddr)
    requires
        memory.apply(op, opid) is Ok,
        memory.immutable.dom().contains(addr),
    ensures
        memory.apply(op, opid)->Ok_0.immutable.dom().contains(addr),
        addr.opid != opid ==> memory.apply(op, opid)->Ok_0.immutable[addr]
            == memory.immutable[addr],
{
    let outputs = op.immutable_out@.map_values(|cell: StateData| cell@);
    lemma_commit_all_keeps(memory.immutable, opid, outputs);
    assert(commit_all(memory.immutable, opid, outputs).dom().contains(addr));
}

/// A destructible cell which an operation does not spend stays unspent when the operation is
/// applied.
pub proof fn lemma_unspent_stays(memory: MemoryView, op: Operation, opid: Opid, addr: CellAddr)
    requires
        memory.apply(op, opid) is Ok,
        memory.destructible.dom().contains(addr),
        forall|i: int| 0 <= i < op.destructible_in@.len() ==> op.destructible_in@[i].addr != addr,
    ensures
        memory.apply(op, opid)->Ok_0.destructible.dom().contains(addr),
        addr.opid != opid ==> memory.apply(op, opid)->Ok_0.destructible[addr]
            == memory.destructible[addr],
{
    let left = memory.check_inputs(op)->Ok_0;
    lemma_consume_all_others(memory.destructible, op.destructible_in@, addr);
    lemma_commit_all_keeps(left, opid, op.destructible_out@);
    assert(commit_all(left, opid, op.destructible_out@).dom().contains(addr));
}

/// Consumption leaves the cells which are not among the inputs as they are.
pub proof fn lemma_consume_all_others(
    cells: Map<CellAddr, StateCell>,
    inputs: Seq<Input>,
    addr: CellAddr,
)
    requires
        consume_all(cells, inputs) is Ok,
        cells.dom().contains(addr),
        forall|i: int| 0 <= i < inputs.len() ==> inputs[i].addr != addr,
    ensures
        consume_all(cells, inputs)->Ok_0.dom().contains(addr),
        consume_all(cells, inputs)->Ok_0[addr] == cells[addr],
    decreases inputs.len(),
{
    if inputs.len() > 0 {
        let before = inputs.drop_last();
        assert forall|i: int| 0 <= i < before.len() implies before[i].addr != addr by {
            assert(before[i] == inputs[i]);
        }
        lemma_consume_all_others(cells, before, addr);
        assert(inputs.last() == inputs[inputs.len() - 1]);
    }
}

/// A destructible cell is consumed exactly once.
///
/// When an operation has been applied which spends a cell, then an operation which spends that
/// cell again cannot be applied: it is refused as a double spend. (The cell is the output of
/// an earlier operation, not of the first of the two.)
pub proof fn lemma_double_spend(
    memory: MemoryView,
    first: Operation,
    first_id: Opid,
    second: Operation,
    second_id: Opid,
    i: int,
    j: int,
)
    requires
        memory.apply(first, first_id) is Ok,
        0 <= i < first.destructible_in@.len(),
        0 <= j < second.destructible_in@.len(),
        first.destructible_in@[i].addr == second.destructible_in@[j].addr,
        first.destructible_in@[i].addr.opid != first_id,
    ensures
        memory.apply(first, first_id)->Ok_0.apply(second, second_id) matches Err(
            MemoryError::DoubleSpend(_),
        ),
{
    let after = memory.apply(first, first_id)->Ok_0;
    let left = memory.check_inputs(first)->Ok_0;
    let addr = first.destructible_in@[i].addr;
    lemma_consume_all_left(memory.destructible, first.destructible_in@);
    lemma_commit_all_dom(left, first_id, first.destructible_out@);
    assert(!after.destructible.dom().contains(addr));
    lemma_consume_all_absent(after.destructible, second.destructible_in@, j);
}

/// The memory of a contract: its unspent destructible cells and its immutable cells.
pub struct Memory {
    /// The destructible cells which are not spent.
    pub destructible: CellMap<StateCell>,
    /// The immutable cells.
    pub immutable: CellMap<StateData>,
}

impl View for Memory {
    type V = MemoryView;

    open spec fn view(&self) -> MemoryView {
        MemoryView {
            destructible: self.destructible@,
            immutable: self.immutable@.map_values(|cell: StateData| cell@),
        }
    }
}

impl Memory {
    /// The memory without cells.
    pub fn new() -> (memory: Memory)
        ensures
            memory@.destructible == Map::<CellAddr, StateCell>::empty(),
            memory@.immutable == Map::<CellAddr, StateDataView>::empty(),
    {
        let memory = Memory { destructible: CellMap::new(), immutable: CellMap::new() };
        assert(memory@.immutable =~= Map::<CellAddr, StateDataView>::empty());
        memory
    }

    /// The unspent destructible cell at an address, where there is one.
    pub fn destructible(&self, addr: &CellAddr) -> (cell: Option<&StateCell>)
        ensures
            cell is Some <==> self@.destructible.dom().contains(*addr),
            cell matches Some(c) ==> *c == self@.destructible[*addr],
    {
        self.destructible.get(addr)
    }

    /// The immutable cell at an address, where there is one.
    pub fn immutable(&self, addr: &CellAddr) -> (cell: Option<&StateData>)
        ensures
            cell is Some <==> self@.immutable.dom().contains(*addr),
            cell matches Some(c) ==> c@ == self@.immutable[*addr],
    {
        self.immutable.get(addr)
    }

    /// The value of the cell at an address, among the unspent destructible cells or among the
    /// immutable cells; nothing where there is no such cell.
    pub fn resolve(&self, addr: &CellAddr, kind: CellKind) -> (value: Option<StateValue>)
        ensures
            value == (match kind {
                CellKind::Destructible => if self@.destructible.dom().contains(*addr) {
                    Some(self@.destructible[*addr].data)
                } else {
                    None
                },
                CellKind::Immutable => if self@.immutable.dom().contains(*addr) {
                    Some(self@.immutable[*addr].value)
                } else {
                    None
                },
            }),
    {
        match kind {
            CellKind::Destructible => match self.destructible(addr) {
                Some(cell) => Some(cell.data),
                None => None,
            },
            CellKind::Immutable => match self.immutable(addr) {
                Some(cell) => Some(cell.value),
                None => None,
            },
        }
    }

    /// Takes an unspent destructible cell out of the memory: the cell is spent. Where there
    /// is no unspent cell at the address, nothing changes.
    pub fn consume(&mut self, addr: &CellAddr) -> (r: Result<StateCell, MemoryError>)
        ensures
            match r {
                Ok(cell) => {
                    &&& old(self)@.destructible.dom().contains(*addr)
                    &&& cell == old(self)@.destructible[*addr]
                    &&& final(self)@ == (MemoryView {
                        destructible: old(self)@.destructible.remove(*addr),
                        ..old(self)@
                    })
                },
                Err(e) => {
                    &&& !old(self)@.destructible.dom().contains(*addr)
                    &&& e == MemoryError::DoubleSpend(*addr)
                    &&& final(self)@ == old(self)@
                },
            },
    {
        match self.destructible.remove(addr) {
            Some(cell) => Ok(cell),
            None => {
                assert(self@.destructible =~= old(self)@.destructible);
                Err(MemoryError::DoubleSpend(*addr))
            },
        }
    }

    /// Checks that the inputs of an operation resolve, and gives the destructible cells which
    /// are left when the operation has consumed its inputs. The memory does not change.
    pub fn check_inputs(&self, op: &Operation) -> (r: Result<CellMap<StateCell>, MemoryError>)
        ensures
            match r {
                Ok(left) => self@.check_inputs(*op) == Ok::<Map<CellAddr, StateCell>, MemoryError>(
                    left@,
                ),
                Err(e) => self@.check_inputs(*op) == Err::<Map<CellAddr, StateCell>, MemoryError>(
                    e,
                ),
            },
    {
        let mut stage = self.destructible.duplicate();
        let inputs = op.destructible_in.as_slice();
        let mut i: usize = 0;
        assert(inputs@.take(0) =~= Seq::<Input>::empty());
        while i < inputs.len()
            invariant
                i <= inputs@.len(),
                inputs@ == op.destructible_in@,
                consume_all(self@.destructible, inputs@.take(i as int)) == Ok::<
                    Map<CellAddr, StateCell>,
                    MemoryError,
                >(stage@),
            decreases inputs@.len() - i,
        {
            proof {
                assert(inputs@.take(i + 1).drop_last() =~= inputs@.take(i as int));
                assert(inputs@.take(i + 1).last() == inputs@[i as int]);
            }
            let addr = inputs[i].addr;
            if stage.remove(&addr).is_none() {
                proof {
                    lemma_consume_all_fails(self@.destructible, inputs@, i + 1);
                }
                return Err(MemoryError::DoubleSpend(addr));
            }
            i += 1;
        }
        assert(inputs@.take(i as int) =~= inputs@);
        let addrs = op.immutable_in.as_slice();
        let mut j: usize = 0;
        assert(addrs@.take(0) =~= Seq::<CellAddr>::empty());
        while j < addrs.len()
            invariant
                j <= addrs@.len(),
                addrs@ == op.immutable_in@,
                consume_all(self@.destructible, op.destructible_in@) == Ok::<
                    Map<CellAddr, StateCell>,
                    MemoryError,
                >(stage@),
                first_unresolved(self@.immutable, addrs@.take(j as int)) is None,
            decreases addrs@.len() - j,
        {
            proof {
                assert(addrs@.take(j + 1).drop_last() =~= addrs@.take(j as int));
                assert(addrs@.take(j + 1).last() == addrs@[j as int]);
            }
            let addr = addrs[j];
            if !self.immutable.contains(&addr) {
                proof {
                    lemma_first_unresolved_found(self@.immutable, addrs@, j + 1);
                }
                return Err(MemoryError::UnresolvedInput(addr));
            }
            j += 1;
        }
        assert(addrs@.take(j as int) =~= addrs@);
        Ok(stage)
    }

    /// Applies an operation: its destructible inputs are consumed and its outputs put in, under
    /// the identifier of the operation, which is the answer.
    ///
    /// The operation is applied as a whole or not at all: where an input does not resolve,
    /// the memory stays as it was.
    pub fn apply(&mut self, op: &Operation) -> (r: Result<Opid, MemoryError>)
        ensures
            match r {
                Ok(opid) => {
                    &&& opid@ == op.spec_opid()
                    &&& old(self)@.apply(*op, opid) == Ok::<MemoryView, MemoryError>(final(self)@)
                },
                Err(e) => {
                    &&& old(self)@.check_inputs(*op) == Err::<
                        Map<CellAddr, StateCell>,
                        MemoryError,
                    >(e)
                    &&& final(self)@ == old(self)@
                },
            },
    {
        let mut stage = match self.check_inputs(op) {
            Ok(left) => left,
            Err(e) => {
                return Err(e);
            },
        };
        let opid = op.opid();
        commit_cells(&mut stage, opid, &op.destructible_out);
        commit_data(&mut self.immutable, opid, &op.immutable_out);
        self.destructible = stage;
        Ok(opid)
    }

    /// Puts the outputs of an operation into the memory, each at the address made of the
    /// identifier of the operation and the position of the output.
    pub fn commit(
        &mut self,
        opid: Opid,
        destructible_out: &SmallVec<StateCell>,
        immutable_out: &SmallVec<StateData>,
    )
        ensures
            final(self)@.destructible == commit_all(
                old(self)@.destructible,
                opid,
                destructible_out@,
            ),
            final(self)@.immutable == commit_all(
                old(self)@.immutable,
                opid,
                immutable_out@.map_values(|cell: StateData| cell@),
            ),
    {
        commit_cells(&mut self.destructible, opid, destructible_out);
        commit_data(&mut self.immutable, opid, immutable_out);
    }
}

/// Puts destructible outputs into a map of cells.
fn commit_cells(cells: &mut CellMap<StateCell>, opid: Opid, outputs: &SmallVec<StateCell>)
    ensures
        final(cells)@ == commit_all(old(cells)@, opid, outputs@),
{
    let items = outputs.as_slice();
    let mut i: usize = 0;
    assert(items@.take(0) =~= Seq::<StateCell>::empty());
    while i < items.len()
        invariant
            i <= items@.len() <= SEQ_MAX_LEN,
            cells@ == commit_all(old(cells)@, opid, items@.take(i as int)),
        decreases items@.len() - i,
    {
        proof {
            let now = items@.take(i + 1);
            assert(now.drop_last() =~= items@.take(i as int));
            assert(now.last() == items@[i as int]);
        }
        cells.insert(CellAddr { opid, pos: i as u16 }, items[i]);
        i += 1;
    }
    assert(items@.take(i as int) =~= items@);
}

/// Puts immutable outputs into a map of cells.
fn commit_data(cells: &mut CellMap<StateData>, opid: Opid, outputs: &SmallVec<StateData>)
    ensures
        final(cells)@.map_values(|cell: StateData| cell@) == commit_all(
            old(cells)@.map_values(|cell: StateData| cell@),
            opid,
            outputs@.map_values(|cell: StateData| cell@),
        ),
{
    let items = outputs.as_slice();
    let ghost views = items@.map_values(|cell: StateData| cell@);
    let ghost start = old(cells)@.map_values(|cell: StateData| cell@);
    let mut i: usize = 0;
    assert(views.take(0) =~= Seq::<StateDataView>::empty());
    while i < items.len()
        invariant
            i <= items@.len() <= SEQ_MAX_LEN,
            views == items@.map_values(|cell: StateData| cell@),
            cells@.map_values(|cell: StateData| cell@) == commit_all(
                start,
                opid,
                views.take(i as int),
            ),
        decreases items@.len() - i,
    {
        let ghost before = cells@;
        let cell = items[i].clone();
        let addr = CellAddr { opid, pos: i as u16 };
        proof {
            let now = views.take(i + 1);
            assert(now.drop_last() =~= views.take(i as int));
            assert(now.last() == items@[i as int]@);
        }
        cells.insert(addr, cell);
        proof {
            assert(cells@.map_values(|cell: StateData| cell@) =~= before.map_values(
                |cell: StateData| cell@,
            ).insert(addr, cell@));
        }
        i += 1;
    }
    assert(views.take(i as int) =~= views);
}

} // verus!
