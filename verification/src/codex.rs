//! The codex: the logic of a contract, which does not change; and the view which its
//! verification programs have of one operation.

use vstd::prelude::*;

use crate::confined::{items_encoding, lemma_items_encoding_injective, SmallVec, Text};
use crate::encoding::{
    bytes_eq, le_value, lemma_le_bytes_len, lemma_le_value_of_bytes, lemma_pow256_values,
    u16_bytes, Canonical, DecodeError, Scan, SEQ_MAX_LEN,
};
use crate::ids::{CallId, CodexId};
use crate::isa::machine::{FieldOrder, Status};
use crate::library::LibSite;
use crate::memory::{Memory, MemoryError, MemoryView};
use crate::operation::{CellAddr, Input, Operation};
use crate::state::{StateCell, StateData, StateValue};

verus! {

/// Largest number of items that one category of an operation holds.
pub const CATEGORY_MAX_LEN: usize = 0xFFFF;

/// Category of the state which a program walks through: the direction (input or output of the
/// operation) and the kind of memory (read-once or append-only).
#[allow(non_camel_case_types)]
#[derive(Copy, Clone, PartialEq, Eq, Structural, Hash, Debug)]
pub enum IoCat {
    /// Destructible (read-once) input.
    IN_RO,
    /// Immutable (append-only) input.
    IN_AO,
    /// Destructible (read-once) output.
    OUT_RO,
    /// Immutable (append-only) output.
    OUT_AO,
}

impl IoCat {
    /// Place of the category among the iterator registers.
    pub open spec fn spec_index(self) -> int {
        match self {
            IoCat::IN_RO => 0,
            IoCat::IN_AO => 1,
            IoCat::OUT_RO => 2,
            IoCat::OUT_AO => 3,
        }
    }

    /// Place of the category among the iterator registers.
    pub fn index(self) -> (i: usize)
        ensures
            i == self.spec_index(),
    {
        match self {
            IoCat::IN_RO => 0,
            IoCat::IN_AO => 1,
            IoCat::OUT_RO => 2,
            IoCat::OUT_AO => 3,
        }
    }
}

/// Read-only view of one operation, as the verification program sees it.
#[derive(Copy, Clone, Debug)]
pub struct VmContext<'ctx> {
    /// Witnesses given for the destructible inputs.
    pub read_once_input: &'ctx [StateValue],
    /// Values of the immutable cells which the operation reads.
    pub immutable_input: &'ctx [StateValue],
    /// Destructible cells which the operation defines.
    pub read_once_output: &'ctx [StateCell],
    /// Immutable cells which the operation defines.
    pub immutable_output: &'ctx [StateData],
}

impl<'ctx> VmContext<'ctx> {
    /// The state values of a category, in the order in which a program meets them.
    pub open spec fn values(self, cat: IoCat) -> Seq<StateValue> {
        match cat {
            IoCat::IN_RO => self.read_once_input@,
            IoCat::IN_AO => self.immutable_input@,
            IoCat::OUT_RO => self.read_once_output@.map_values(|cell: StateCell| cell.data),
            IoCat::OUT_AO => self.immutable_output@.map_values(|cell: StateData| cell.value),
        }
    }

    /// No category holds more items than an iterator register can count.
    pub open spec fn wf(self) -> bool {
        &&& self.read_once_input@.len() <= CATEGORY_MAX_LEN
        &&& self.immutable_input@.len() <= CATEGORY_MAX_LEN
        &&& self.read_once_output@.len() <= CATEGORY_MAX_LEN
        &&& self.immutable_output@.len() <= CATEGORY_MAX_LEN
    }

    /// Tells whether no category holds more items than an iterator register can count.
    pub fn is_wf(&self) -> (ok: bool)
        ensures
            ok == self.wf(),
    {
        self.read_once_input.len() <= CATEGORY_MAX_LEN
            && self.immutable_input.len() <= CATEGORY_MAX_LEN
            && self.read_once_output.len() <= CATEGORY_MAX_LEN
            && self.immutable_output.len() <= CATEGORY_MAX_LEN
    }

    /// Number of items in a category.
    pub fn len(&self, cat: IoCat) -> (n: usize)
        ensures
            n == self.values(cat).len(),
    {
        match cat {
            IoCat::IN_RO => self.read_once_input.len(),
            IoCat::IN_AO => self.immutable_input.len(),
            IoCat::OUT_RO => self.read_once_output.len(),
            IoCat::OUT_AO => self.immutable_output.len(),
        }
    }

    /// The state value at the position `pos` of a category, where there is one.
    pub fn state_value(&self, cat: IoCat, pos: u16) -> (val: Option<StateValue>)
        ensures
            val == (if pos < self.values(cat).len() {
                Some(self.values(cat)[pos as int])
            } else {
                None
            }),
    {
        let pos = pos as usize;
        if pos >= self.len(cat) {
            return None;
        }
        match cat {
            IoCat::IN_RO => Some(self.read_once_input[pos]),
            IoCat::IN_AO => Some(self.immutable_input[pos]),
            IoCat::OUT_RO => Some(self.read_once_output[pos].data),
            IoCat::OUT_AO => Some(self.immutable_output[pos].value),
        }
    }
}

impl Canonical for FieldOrder {
    /// One byte: 0 for the curve 25519, 1 for the STARK curve, 2 for the curve secp256k1.
    open spec fn encoding(&self) -> Seq<u8> {
        seq![
            match self {
                FieldOrder::Curve25519 => 0u8,
                FieldOrder::Stark => 1u8,
                FieldOrder::Secp => 2u8,
            },
        ]
    }

    open spec fn canonical(&self) -> bool {
        true
    }

    open spec fn same(&self, other: &Self) -> bool {
        *self == *other
    }

    open spec fn scan(bytes: Seq<u8>) -> Scan {
        if bytes.len() == 0 {
            Scan::UnexpectedEof
        } else if bytes[0] > 2 {
            Scan::InvalidTag(bytes[0])
        } else {
            Scan::Found(1)
        }
    }

    fn encode(&self, out: &mut Vec<u8>) {
        out.push(
            match self {
                FieldOrder::Curve25519 => 0,
                FieldOrder::Stark => 1,
                FieldOrder::Secp => 2,
            },
        );
        assert(out@ =~= old(out)@ + self.encoding());
    }

    fn decode(bytes: &[u8], pos: usize) -> (r: Result<(Self, usize), DecodeError>) {
        if pos >= bytes.len() {
            return Err(DecodeError::UnexpectedEof);
        }
        let tag = bytes[pos];
        let order = match tag {
            0 => FieldOrder::Curve25519,
            1 => FieldOrder::Stark,
            2 => FieldOrder::Secp,
            _ => {
                return Err(DecodeError::InvalidTag(tag));
            },
        };
        assert(bytes@.subrange(pos as int, pos + 1) =~= order.encoding());
        Ok((order, pos + 1))
    }

    proof fn lemma_scan_encoding(&self, rest: Seq<u8>) {
    }

    proof fn lemma_encoding_injective(&self, other: &Self) {
        let (a, b) = (self.encoding()[0], other.encoding()[0]);
        assert(a == b);
        assert(a == 0 <==> *self == FieldOrder::Curve25519);
        assert(a == 1 <==> *self == FieldOrder::Stark);
        assert(b == 0 <==> *other == FieldOrder::Curve25519);
        assert(b == 1 <==> *other == FieldOrder::Stark);
    }
}

/// What an error says of verifiers among which one call occurs twice.
pub const VERIFIERS_HINT: &'static str = "a call has more than one verifier";

/// The calls of the entries of a table of verifiers, in the order of the table.
pub open spec fn calls_of(entries: Seq<(CallId, LibSite)>) -> Seq<CallId> {
    entries.map_values(|entry: (CallId, LibSite)| entry.0)
}

/// The verifiers of a codex: for each call which the codex knows, the place at which the
/// verification of the call begins. No call occurs twice.
#[derive(PartialEq, Eq, Debug)]
pub struct Verifiers {
    entries: SmallVec<(CallId, LibSite)>,
}

impl View for Verifiers {
    type V = Seq<(CallId, LibSite)>;

    closed spec fn view(&self) -> Seq<(CallId, LibSite)> {
        self.entries@
    }
}

impl Verifiers {
    #[verifier::type_invariant]
    spec fn distinct(self) -> bool {
        calls_of(self.entries@).no_duplicates()
    }

    /// The table as a map from calls to places.
    pub open spec fn as_map(self) -> Map<CallId, LibSite> {
        Map::new(
            |call: CallId| calls_of(self@).contains(call),
            |call: CallId| self@[calls_of(self@).index_of(call)].1,
        )
    }

    /// The table without entries.
    pub fn new() -> (table: Verifiers)
        ensures
            table@ == Seq::<(CallId, LibSite)>::empty(),
    {
        Verifiers { entries: SmallVec::new() }
    }

    /// Number of entries.
    pub fn len(&self) -> (n: usize)
        ensures
            n == self@.len(),
            n <= SEQ_MAX_LEN,
            calls_of(self@).no_duplicates(),
    {
        proof {
            use_type_invariant(self);
        }
        self.entries.len()
    }

    /// Place of a call in the table.
    fn position(&self, call_id: CallId) -> (found: Option<usize>)
        ensures
            match found {
                Some(i) => i < self@.len() && self@[i as int].0 == call_id,
                None => !calls_of(self@).contains(call_id),
            },
    {
        let entries = self.entries.as_slice();
        let mut i: usize = 0;
        while i < entries.len()
            invariant
                i <= entries@.len(),
                entries@ == self@,
                forall|k: int| 0 <= k < i ==> entries@[k].0 != call_id,
            decreases entries@.len() - i,
        {
            if bytes_eq(&entries[i].0.0, &call_id.0) {
                return Some(i);
            }
            i += 1;
        }
        None
    }

    /// The place at which the verification of a call begins, where the codex knows the call.
    pub fn get(&self, call_id: CallId) -> (site: Option<LibSite>)
        ensures
            site is Some <==> self.as_map().dom().contains(call_id),
            site matches Some(s) ==> s == self.as_map()[call_id],
            site is Some <==> calls_of(self@).contains(call_id),
    {
        proof {
            use_type_invariant(self);
        }
        match self.position(call_id) {
            Some(i) => {
                let entries = self.entries.as_slice();
                proof {
                    let calls = calls_of(self@);
                    assert(calls[i as int] == call_id);
                    assert(calls.contains(call_id));
                    calls.index_of_first_ensures(call_id);
                    let j = calls.index_of(call_id);
                    assert(calls[j] == call_id);
                }
                Some(entries[i].1)
            },
            None => None,
        }
    }

    /// Adds the verifier of a call which the table does not hold yet.
    ///
    /// Where the table holds the call already, or is full, nothing changes and the answer is
    /// `false`.
    pub fn insert(&mut self, call_id: CallId, site: LibSite) -> (added: bool)
        ensures
            added == (!calls_of(old(self)@).contains(call_id) && old(self)@.len() < SEQ_MAX_LEN),
            added ==> final(self)@ == old(self)@.push((call_id, site)),
            !added ==> final(self)@ == old(self)@,
    {
        proof {
            use_type_invariant(&*self);
        }
        let held = self.position(call_id);
        proof {
            if let Some(i) = held {
                assert(calls_of(self@)[i as int] == call_id);
            }
        }
        if held.is_some() || self.entries.len() >= SEQ_MAX_LEN {
            return false;
        }
        let mut entries: SmallVec<(CallId, LibSite)> = SmallVec::new();
        core::mem::swap(&mut self.entries, &mut entries);
        assert(calls_of(self.entries@) =~= Seq::<CallId>::empty());
        let ghost before = entries@;
        let pushed = entries.push((call_id, site));
        assert(pushed is Ok);
        proof {
            let calls = calls_of(entries@);
            assert(calls =~= calls_of(before).push(call_id));
            assert(calls.no_duplicates());
        }
        core::mem::swap(&mut self.entries, &mut entries);
        true
    }
}

/// Tells whether a call occurs twice among entries.
fn has_duplicate_call(items: &[(CallId, LibSite)]) -> (twice: bool)
    ensures
        twice == !calls_of(items@).no_duplicates(),
{
    let mut i: usize = 0;
    assert(calls_of(items@.take(0)) =~= Seq::<CallId>::empty());
    while i < items.len()
        invariant
            i <= items@.len(),
            calls_of(items@.take(i as int)).no_duplicates(),
        decreases items@.len() - i,
    {
        let mut j: usize = 0;
        while j < i
            invariant
                j <= i < items@.len(),
                forall|k: int| 0 <= k < j ==> items@[k].0 != items@[i as int].0,
            decreases i - j,
        {
            if bytes_eq(&items[j].0.0, &items[i].0.0) {
                proof {
                    let calls = calls_of(items@);
                    assert(calls[j as int] == calls[i as int]);
                }
                return true;
            }
            j += 1;
        }
        proof {
            let before = calls_of(items@.take(i as int));
            let now = calls_of(items@.take(i + 1));
            assert(now =~= before.push(items@[i as int].0));
        }
        i += 1;
    }
    assert(items@.take(i as int) =~= items@);
    false
}

/// The entries which a run of bytes holds one after another, where it holds `count` entries
/// and nothing else.
pub open spec fn entries_in(bytes: Seq<u8>, count: nat) -> Seq<(CallId, LibSite)> {
    choose|entries: Seq<(CallId, LibSite)>|
        entries.len() == count && items_encoding(entries) == bytes
}

/// A run of bytes holds the entries which it is the layout of, and no others.
pub proof fn lemma_entries_in(entries: Seq<(CallId, LibSite)>)
    ensures
        entries_in(items_encoding(entries), entries.len()) == entries,
{
    let found = entries_in(items_encoding(entries), entries.len());
    lemma_items_encoding_injective(found, entries);
    assert(found =~= entries);
}

impl Canonical for Verifiers {
    /// The sequence of the entries, each one a call and then its place.
    open spec fn encoding(&self) -> Seq<u8> {
        u16_bytes(self@.len() as u16) + items_encoding(self@)
    }

    open spec fn canonical(&self) -> bool {
        self@.len() <= SEQ_MAX_LEN && calls_of(self@).no_duplicates()
    }

    open spec fn same(&self, other: &Self) -> bool {
        self@ == other@
    }

    /// A sequence of entries, among which no call occurs twice.
    open spec fn scan(bytes: Seq<u8>) -> Scan {
        match SmallVec::<(CallId, LibSite)>::scan(bytes) {
            Scan::Found(len) => {
                let entries = entries_in(
                    bytes.subrange(2, len as int),
                    le_value(bytes.subrange(0, 2)),
                );
                if calls_of(entries).no_duplicates() {
                    Scan::Found(len)
                } else {
                    Scan::DataIntegrityError(VERIFIERS_HINT@)
                }
            },
            failed => failed,
        }
    }

    fn encode(&self, out: &mut Vec<u8>) {
        self.entries.encode(out);
    }

    fn decode(bytes: &[u8], pos: usize) -> (r: Result<(Self, usize), DecodeError>) {
        let (entries, end) = match SmallVec::<(CallId, LibSite)>::decode(bytes, pos) {
            Ok(found) => found,
            Err(e) => {
                return Err(e);
            },
        };
        proof {
            let part = bytes@.skip(pos as int);
            let whole = bytes@.subrange(pos as int, end as int);
            lemma_pow256_values();
            lemma_le_bytes_len(entries@.len(), 2);
            lemma_le_value_of_bytes(entries@.len(), 2);
            assert(part.subrange(0, 2) =~= whole.subrange(0, 2));
            assert(whole.subrange(0, 2) =~= u16_bytes(entries@.len() as u16));
            assert(whole.skip(2) =~= items_encoding(entries@));
            assert(part.subrange(2, end - pos) =~= whole.skip(2));
            lemma_entries_in(entries@);
        }
        if has_duplicate_call(entries.as_slice()) {
            Err(DecodeError::DataIntegrityError(String::from_str(VERIFIERS_HINT)))
        } else {
            Ok((Verifiers { entries }, end))
        }
    }

    proof fn lemma_scan_encoding(&self, rest: Seq<u8>) {
        let bytes = self.encoding() + rest;
        assert forall|i: int| 0 <= i < self.entries@.len() implies (#[trigger] self.entries@[
            i
        ]).canonical() by {
            assert(self.entries@[i].0.canonical() && self.entries@[i].1.canonical());
        }
        self.entries.lemma_scan_encoding(rest);
        lemma_pow256_values();
        lemma_le_bytes_len(self@.len(), 2);
        lemma_le_value_of_bytes(self@.len(), 2);
        assert(bytes.subrange(0, 2) =~= u16_bytes(self@.len() as u16));
        assert(bytes.subrange(2, self.encoding().len() as int) =~= items_encoding(self@));
        lemma_entries_in(self@);
    }

    proof fn lemma_encoding_injective(&self, other: &Self) {
        self.entries.lemma_encoding_injective(&other.entries);
        assert(self@ =~= other@);
    }
}

/// Largest number of bytes of the name of a codex.
pub const CODEX_NAME_MAX_LEN: usize = 255;

/// Largest number of bytes of the name of the developer of a codex.
pub const DEVELOPER_MAX_LEN: usize = 4096;

/// The fields of a codex in the order of the layout.
pub type CodexFields = (Text<CODEX_NAME_MAX_LEN>, (Text<DEVELOPER_MAX_LEN>, (FieldOrder, (Verifiers, (i64, u16)))));

/// The logic of a contract, which does not change over the life of the contract: the field in
/// which its programs compute, and the verifier of each call.
#[derive(PartialEq, Eq, Debug)]
pub struct Codex {
    /// Name of the codex.
    pub name: Text<CODEX_NAME_MAX_LEN>,
    /// Who has developed the codex.
    pub developer: Text<DEVELOPER_MAX_LEN>,
    /// The field in which the verification programs compute.
    pub field_order: FieldOrder,
    /// Where the verification of each call begins.
    pub verifiers: Verifiers,
    /// When the codex was made.
    pub timestamp: i64,
    /// Version of the codex.
    pub version: u16,
}

impl Codex {
    /// The fields in the order of the layout.
    pub open spec fn fields(self) -> CodexFields {
        (
            self.name,
            (
                self.developer,
                (self.field_order, (self.verifiers, (self.timestamp, self.version))),
            ),
        )
    }

    /// The identifier of the codex.
    pub open spec fn spec_codex_id(self) -> Seq<u8> {
        CodexId::spec_commit(self.encoding())
    }

    /// The canonical bytes of the codex.
    pub fn to_bytes(&self) -> (bytes: Vec<u8>)
        ensures
            bytes@ == self.encoding(),
    {
        let mut bytes: Vec<u8> = Vec::new();
        self.encode(&mut bytes);
        assert(bytes@ =~= self.encoding());
        bytes
    }

    /// The identifier of the codex: the commitment to its canonical bytes.
    pub fn codex_id(&self) -> (id: CodexId)
        ensures
            id@ == self.spec_codex_id(),
    {
        let bytes = self.to_bytes();
        CodexId::commit(bytes.as_slice())
    }
}

impl Canonical for Codex {
    /// The name, the developer, the field, the verifiers, the time and the version.
    open spec fn encoding(&self) -> Seq<u8> {
        self.fields().encoding()
    }

    open spec fn canonical(&self) -> bool {
        self.fields().canonical()
    }

    /// The same in every field, the texts character by character and the verifiers entry by
    /// entry.
    open spec fn same(&self, other: &Self) -> bool {
        self.fields().same(&other.fields())
    }

    open spec fn scan(bytes: Seq<u8>) -> Scan {
        CodexFields::scan(bytes)
    }

    fn encode(&self, out: &mut Vec<u8>) {
        self.name.encode(out);
        self.developer.encode(out);
        self.field_order.encode(out);
        self.verifiers.encode(out);
        self.timestamp.encode(out);
        self.version.encode(out);
        assert(out@ =~= old(out)@ + self.encoding());
    }

    fn decode(bytes: &[u8], pos: usize) -> (r: Result<(Self, usize), DecodeError>) {
        match CodexFields::decode(bytes, pos) {
            Ok(((name, (developer, (field_order, (verifiers, (timestamp, version))))), end)) => Ok(
                (Codex { name, developer, field_order, verifiers, timestamp, version }, end),
            ),
            Err(e) => Err(e),
        }
    }

    proof fn lemma_scan_encoding(&self, rest: Seq<u8>) {
        self.fields().lemma_scan_encoding(rest);
    }

    proof fn lemma_encoding_injective(&self, other: &Self) {
        self.fields().lemma_encoding_injective(&other.fields());
    }
}

/// Why an operation is not valid under a codex.
#[derive(Copy, Clone, PartialEq, Eq, Hash, Debug)]
pub enum CallError {
    /// The codex has no verifier for the call which the operation makes.
    UnknownCallId(CallId),
    /// An immutable input is at an address where the memory has no immutable cell.
    UnresolvedInput(CellAddr),
    /// A destructible input is at an address where the memory has no unspent cell.
    DoubleSpend(CellAddr),
    /// The verifier has run and has not accepted the operation.
    VerifierFail,
}

impl CallError {
    /// The failure of a call which a failure of the memory amounts to.
    pub open spec fn of_memory(e: MemoryError) -> CallError {
        match e {
            MemoryError::UnresolvedInput(addr) => CallError::UnresolvedInput(addr),
            MemoryError::DoubleSpend(addr) => CallError::DoubleSpend(addr),
        }
    }
}

/// What the machine is to run for the verification of one operation.
pub struct CallView {
    /// Where the verification program is entered.
    pub entry: LibSite,
    /// The field in which the program computes.
    pub field_order: FieldOrder,
    /// The witnesses of the destructible inputs, in the order of the inputs.
    pub read_once_input: Seq<StateValue>,
    /// The values of the immutable inputs, in the order of the inputs.
    pub immutable_input: Seq<StateValue>,
}

/// What the machine is to run for the verification of one operation.
#[derive(PartialEq, Eq, Debug)]
pub struct Call {
    /// Where the verification program is entered.
    pub entry: LibSite,
    /// The field in which the program computes.
    pub field_order: FieldOrder,
    /// The witnesses of the destructible inputs, in the order of the inputs.
    pub read_once_input: Vec<StateValue>,
    /// The values of the immutable inputs, in the order of the inputs.
    pub immutable_input: Vec<StateValue>,
}

impl View for Call {
    type V = CallView;

    open spec fn view(&self) -> CallView {
        CallView {
            entry: self.entry,
            field_order: self.field_order,
            read_once_input: self.read_once_input@,
            immutable_input: self.immutable_input@,
        }
    }
}

impl Call {
    /// The view of the operation which the verification program gets: the inputs as the call
    /// holds them, and the outputs of the operation.
    pub fn context<'ctx>(&'ctx self, op: &'ctx Operation) -> (context: VmContext<'ctx>)
        requires
            self.read_once_input@.len() <= CATEGORY_MAX_LEN,
            self.immutable_input@.len() <= CATEGORY_MAX_LEN,
        ensures
            context.wf(),
            context.read_once_input@ == self.read_once_input@,
            context.immutable_input@ == self.immutable_input@,
            context.read_once_output@ == op.destructible_out@,
            context.immutable_output@ == op.immutable_out@,
    {
        VmContext {
            read_once_input: self.read_once_input.as_slice(),
            immutable_input: self.immutable_input.as_slice(),
            read_once_output: op.destructible_out.as_slice(),
            immutable_output: op.immutable_out.as_slice(),
        }
    }
}

impl Codex {
    /// What is to be run for the verification of an operation, or why the operation is not
    /// valid before anything is run.
    ///
    /// The call of the operation is looked up first: an operation whose call the codex does
    /// not know is refused whatever its inputs are. Then the inputs have to resolve in the
    /// memory, as they have to when the operation is applied.
    pub open spec fn spec_prepare(self, op: Operation, memory: MemoryView) -> Result<
        CallView,
        CallError,
    > {
        if !self.verifiers.as_map().dom().contains(op.call_id) {
            Err(CallError::UnknownCallId(op.call_id))
        } else {
            match memory.check_inputs(op) {
                Err(e) => Err(CallError::of_memory(e)),
                Ok(_) => Ok(
                    CallView {
                        entry: self.verifiers.as_map()[op.call_id],
                        field_order: self.field_order,
                        read_once_input: op.destructible_in@.map_values(
                            |input: Input| input.witness,
                        ),
                        immutable_input: op.immutable_in@.map_values(
                            |addr: CellAddr| memory.immutable[addr].value,
                        ),
                    },
                ),
            }
        }
    }

    /// Prepares the verification of an operation against the memory: finds the verifier of
    /// its call, resolves its inputs and collects what the verification program is to see.
    pub fn prepare(&self, op: &Operation, memory: &Memory) -> (r: Result<Call, CallError>)
        ensures
            match r {
                Ok(call) => {
                    &&& self.spec_prepare(*op, memory@) == Ok::<CallView, CallError>(call@)
                    &&& call.read_once_input@.len() <= CATEGORY_MAX_LEN
                    &&& call.immutable_input@.len() <= CATEGORY_MAX_LEN
                },
                Err(e) => self.spec_prepare(*op, memory@) == Err::<CallView, CallError>(e),
            },
    {
        let entry = match self.verifiers.get(op.call_id) {
            Some(site) => site,
            None => {
                return Err(CallError::UnknownCallId(op.call_id));
            },
        };
        match memory.check_inputs(op) {
            Ok(_) => {},
            Err(MemoryError::UnresolvedInput(addr)) => {
                return Err(CallError::UnresolvedInput(addr));
            },
            Err(MemoryError::DoubleSpend(addr)) => {
                return Err(CallError::DoubleSpend(addr));
            },
        }
        let inputs = op.destructible_in.as_slice();
        let mut read_once_input: Vec<StateValue> = Vec::new();
        let mut i: usize = 0;
        while i < inputs.len()
            invariant
                i <= inputs@.len(),
                read_once_input@ == inputs@.take(i as int).map_values(
                    |input: Input| input.witness,
                ),
            decreases inputs@.len() - i,
        {
            read_once_input.push(inputs[i].witness);
            i += 1;
            assert(read_once_input@ =~= inputs@.take(i as int).map_values(
                |input: Input| input.witness,
            ));
        }
        assert(inputs@.take(i as int) =~= inputs@);
        let addrs = op.immutable_in.as_slice();
        let mut immutable_input: Vec<StateValue> = Vec::new();
        let mut j: usize = 0;
        while j < addrs.len()
            invariant
                j <= addrs@.len(),
                addrs@ == op.immutable_in@,
                memory@.check_inputs(*op) is Ok,
                immutable_input@ == addrs@.take(j as int).map_values(
                    |addr: CellAddr| memory@.immutable[addr].value,
                ),
            decreases addrs@.len() - j,
        {
            proof {
                crate::memory::lemma_first_unresolved_none(memory@.immutable, addrs@, j as int);
            }
            match memory.immutable(&addrs[j]) {
                Some(cell) => {
                    immutable_input.push(cell.value);
                },
                None => {},
            }
            j += 1;
            assert(immutable_input@ =~= addrs@.take(j as int).map_values(
                |addr: CellAddr| memory@.immutable[addr].value,
            ));
        }
        assert(addrs@.take(j as int) =~= addrs@);
        Ok(Call { entry, field_order: self.field_order, read_once_input, immutable_input })
    }

    /// Verifies an operation against the memory. The program which the codex names for the
    /// call of the operation is run by `run`, which is given what the program is to see and
    /// answers with the check register of the halted machine.
    ///
    /// An operation whose call the codex does not know, or whose inputs do not resolve, is
    /// refused without a run. Else the operation is valid where the run has left the check
    /// register clear, and the verifier has failed where it has not.
    pub fn verify<F: FnOnce(&Call, &VmContext) -> Status>(
        &self,
        op: &Operation,
        memory: &Memory,
        run: F,
    ) -> (r: Result<(), CallError>)
        requires
            forall|call: &Call, context: &VmContext|
                self.spec_prepare(*op, memory@) == Ok::<CallView, CallError>(call@) && context.wf()
                    && context.read_once_input@ == call.read_once_input@
                    && context.immutable_input@ == call.immutable_input@
                    && context.read_once_output@ == op.destructible_out@
                    && context.immutable_output@ == op.immutable_out@ ==> run.requires(
                    (call, context),
                ),
        ensures
            match self.spec_prepare(*op, memory@) {
                Err(e) => r == Err::<(), CallError>(e),
                Ok(view) => exists|call: &Call, context: &VmContext, ck: Status|
                    {
                        &&& call@ == view
                        &&& context.read_once_input@ == call.read_once_input@
                        &&& context.immutable_input@ == call.immutable_input@
                        &&& context.read_once_output@ == op.destructible_out@
                        &&& context.immutable_output@ == op.immutable_out@
                        &&& #[trigger] run.ensures((call, context), ck)
                        &&& r == Self::spec_conclude(ck)
                    },
            },
    {
        let call = match self.prepare(op, memory) {
            Ok(call) => call,
            Err(e) => {
                return Err(e);
            },
        };
        let context = call.context(op);
        let ck = run(&call, &context);
        let verdict = Self::conclude(ck);
        assert(run.ensures((&call, &context), ck));
        verdict
    }

    /// The verdict which the check register of the halted machine stands for: the operation is
    /// valid where the register is clear, and the verifier has failed where it is not.
    pub open spec fn spec_conclude(ck: Status) -> Result<(), CallError> {
        match ck {
            Status::Okay => Ok(()),
            Status::Fail => Err(CallError::VerifierFail),
        }
    }

    /// The verdict on an operation whose verification program has halted with the check
    /// register in the given state: the operation is valid where the register is clear.
    pub fn conclude(ck: Status) -> (r: Result<(), CallError>)
        ensures
            r == Self::spec_conclude(ck),
    {
        match ck {
            Status::Okay => Ok(()),
            Status::Fail => Err(CallError::VerifierFail),
        }
    }
}

/// An operation whose call the codex does not know is refused for that, whatever the memory
/// holds: nothing is resolved and nothing is run for it.
pub proof fn lemma_unknown_call(codex: Codex, op: Operation, memory: MemoryView)
    requires
        !codex.verifiers.as_map().dom().contains(op.call_id),
    ensures
        codex.spec_prepare(op, memory) == Err::<CallView, CallError>(
            CallError::UnknownCallId(op.call_id),
        ),
{
}

} // verus!
