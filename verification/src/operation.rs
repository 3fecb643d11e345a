//! Operations: the transitions of the state of a contract, and the addresses of the cells they
//! read and define.

use vstd::prelude::*;
use vstd::std_specs::cmp::PartialEqSpecImpl;
use vstd::string::{StrSliceExecFns, StringExecFns};

use crate::commit::id_text;
use crate::confined::SmallVec;
use crate::encoding::{bytes_eq, Canonical, DecodeError, Scan};
use crate::ids::{AccessId, CallId, CodexId, ContractId, GenesisId, Opid};
use crate::state::{StateCell, StateData, StateValue};
use crate::text::{
    decimal, decimal_u16, find_char, lemma_decimal_value, parse_u16, push_decimal, str_eq,
};

verus! {

/// Address of a memory cell: the operation which defined it, and its place among the outputs
/// of that operation.
#[derive(Copy, Clone, Eq, Hash, Debug)]
pub struct CellAddr {
    pub opid: Opid,
    pub pos: u16,
}

impl PartialEq for CellAddr {
    fn eq(&self, other: &Self) -> (same: bool) {
        self.opid == other.opid && self.pos == other.pos
    }
}

impl PartialEqSpecImpl for CellAddr {
    open spec fn obeys_eq_spec() -> bool {
        true
    }

    open spec fn eq_spec(&self, other: &Self) -> bool {
        *self == *other
    }
}

impl CellAddr {
    pub fn new(opid: Opid, pos: u16) -> (addr: CellAddr)
        ensures
            addr == (CellAddr { opid, pos }),
    {
        CellAddr { opid, pos }
    }

    /// Tells whether this is the address `other`.
    pub fn matches(&self, other: &CellAddr) -> (same: bool)
        ensures
            same == (*self == *other),
    {
        bytes_eq(&self.opid.0, &other.opid.0) && self.pos == other.pos
    }

    /// The fields in the order of the layout.
    pub open spec fn fields(self) -> (Opid, u16) {
        (self.opid, self.pos)
    }
}

impl Canonical for CellAddr {
    /// The identifier of the operation, and then the position in two bytes.
    open spec fn encoding(&self) -> Seq<u8> {
        self.fields().encoding()
    }

    open spec fn canonical(&self) -> bool {
        true
    }

    open spec fn same(&self, other: &Self) -> bool {
        *self == *other
    }

    open spec fn scan(bytes: Seq<u8>) -> Scan {
        <(Opid, u16)>::scan(bytes)
    }

    fn encode(&self, out: &mut Vec<u8>) {
        self.opid.encode(out);
        self.pos.encode(out);
        assert(out@ =~= old(out)@ + self.encoding());
    }

    fn decode(bytes: &[u8], pos: usize) -> (r: Result<(Self, usize), DecodeError>) {
        match <(Opid, u16)>::decode(bytes, pos) {
            Ok(((opid, pos), end)) => Ok((CellAddr { opid, pos }, end)),
            Err(e) => Err(e),
        }
    }

    proof fn lemma_scan_encoding(&self, rest: Seq<u8>) {
        self.fields().lemma_scan_encoding(rest);
    }

    proof fn lemma_encoding_injective(&self, other: &Self) {
        self.fields().lemma_encoding_injective(&other.fields());
    }
}

/// Destructible input of an operation: the cell which is spent, and the witness which the
/// spender gives to satisfy the lock of the cell.
#[derive(Copy, Clone, PartialEq, Eq, Hash, Debug)]
pub struct Input {
    pub addr: CellAddr,
    pub witness: StateValue,
}

impl Input {
    /// The fields in the order of the layout.
    pub open spec fn fields(self) -> (CellAddr, StateValue) {
        (self.addr, self.witness)
    }
}

impl Canonical for Input {
    /// The address of the cell, and then the witness.
    open spec fn encoding(&self) -> Seq<u8> {
        self.fields().encoding()
    }

    open spec fn canonical(&self) -> bool {
        true
    }

    open spec fn same(&self, other: &Self) -> bool {
        *self == *other
    }

    open spec fn scan(bytes: Seq<u8>) -> Scan {
        <(CellAddr, StateValue)>::scan(bytes)
    }

    fn encode(&self, out: &mut Vec<u8>) {
        self.addr.encode(out);
        self.witness.encode(out);
        assert(out@ =~= old(out)@ + self.encoding());
    }

    fn decode(bytes: &[u8], pos: usize) -> (r: Result<(Self, usize), DecodeError>) {
        match <(CellAddr, StateValue)>::decode(bytes, pos) {
            Ok(((addr, witness), end)) => Ok((Input { addr, witness }, end)),
            Err(e) => Err(e),
        }
    }

    proof fn lemma_scan_encoding(&self, rest: Seq<u8>) {
        self.fields().lemma_scan_encoding(rest);
    }

    proof fn lemma_encoding_injective(&self, other: &Self) {
        self.fields().lemma_encoding_injective(&other.fields());
    }
}

/// The fields of an operation in the order of the layout.
pub type OperationFields = (
    ContractId,
    (
        CallId,
        (u64, (SmallVec<Input>, (SmallVec<CellAddr>, (SmallVec<StateCell>, SmallVec<StateData>)))),
    ),
);

/// The fields of a genesis in the order of the layout.
pub type GenesisFields = (CodexId, (CallId, (u64, (SmallVec<StateCell>, SmallVec<StateData>))));

/// One transition of the state of a contract.
#[derive(PartialEq, Eq, Debug)]
pub struct Operation {
    /// The contract whose state the operation changes.
    pub contract_id: ContractId,
    /// The call which is made: it selects the verifier which the operation is held against.
    pub call_id: CallId,
    /// Number which tells apart operations which are otherwise the same.
    pub nonce: u64,
    /// Destructible cells which the operation spends.
    pub destructible_in: SmallVec<Input>,
    /// Immutable cells which the operation reads.
    pub immutable_in: SmallVec<CellAddr>,
    /// Destructible cells which the operation defines.
    pub destructible_out: SmallVec<StateCell>,
    /// Immutable cells which the operation defines.
    pub immutable_out: SmallVec<StateData>,
}

impl Operation {
    /// The fields in the order of the layout.
    pub open spec fn fields(self) -> OperationFields {
        (
            self.contract_id,
            (
                self.call_id,
                (
                    self.nonce,
                    (
                        self.destructible_in,
                        (self.immutable_in, (self.destructible_out, self.immutable_out)),
                    ),
                ),
            ),
        )
    }

    /// The inputs in the order of the layout: what the operation reads of the state.
    pub open spec fn inputs(self) -> (SmallVec<Input>, SmallVec<CellAddr>) {
        (self.destructible_in, self.immutable_in)
    }

    /// The identifier of the operation.
    pub open spec fn spec_opid(self) -> Seq<u8> {
        Opid::spec_commit(self.encoding())
    }

    /// The identifier of the access which the operation makes.
    pub open spec fn spec_access_id(self) -> Seq<u8> {
        AccessId::spec_commit(self.inputs().encoding())
    }

    /// The canonical bytes of the operation.
    pub fn to_bytes(&self) -> (bytes: Vec<u8>)
        ensures
            bytes@ == self.encoding(),
    {
        let mut bytes: Vec<u8> = Vec::new();
        self.encode(&mut bytes);
        assert(bytes@ =~= self.encoding());
        bytes
    }

    /// The identifier of the operation: the commitment to its canonical bytes.
    pub fn opid(&self) -> (id: Opid)
        ensures
            id@ == self.spec_opid(),
    {
        let bytes = self.to_bytes();
        Opid::commit(bytes.as_slice())
    }

    /// The identifier of the access which the operation makes: the commitment to the inputs
    /// it reads, the destructible ones and then the immutable ones.
    pub fn access_id(&self) -> (id: AccessId)
        ensures
            id@ == self.spec_access_id(),
    {
        let mut bytes: Vec<u8> = Vec::new();
        self.destructible_in.encode(&mut bytes);
        self.immutable_in.encode(&mut bytes);
        assert(bytes@ =~= self.inputs().encoding());
        AccessId::commit(bytes.as_slice())
    }
}

impl Canonical for Operation {
    /// The contract, the call, the nonce, and then the four sequences: destructible inputs,
    /// immutable inputs, destructible outputs, immutable outputs.
    open spec fn encoding(&self) -> Seq<u8> {
        self.fields().encoding()
    }

    open spec fn canonical(&self) -> bool {
        self.fields().canonical()
    }

    /// The same in every field, sequence by sequence and item by item.
    open spec fn same(&self, other: &Self) -> bool {
        self.fields().same(&other.fields())
    }

    open spec fn scan(bytes: Seq<u8>) -> Scan {
        OperationFields::scan(bytes)
    }

    fn encode(&self, out: &mut Vec<u8>) {
        self.contract_id.encode(out);
        self.call_id.encode(out);
        self.nonce.encode(out);
        self.destructible_in.encode(out);
        self.immutable_in.encode(out);
        self.destructible_out.encode(out);
        self.immutable_out.encode(out);
        assert(out@ =~= old(out)@ + self.encoding());
    }

    fn decode(bytes: &[u8], pos: usize) -> (r: Result<(Self, usize), DecodeError>) {
        match OperationFields::decode(bytes, pos) {
            Ok((
                (
                    contract_id,
                    (
                        call_id,
                        (
                            nonce,
                            (destructible_in, (immutable_in, (destructible_out, immutable_out))),
                        ),
                    ),
                ),
                end,
            )) => Ok(
                (
                    Operation {
                        contract_id,
                        call_id,
                        nonce,
                        destructible_in,
                        immutable_in,
                        destructible_out,
                        immutable_out,
                    },
                    end,
                ),
            ),
            Err(e) => Err(e),
        }
    }

    proof fn lemma_scan_encoding(&self, rest: Seq<u8>) {
        self.fields().lemma_scan_encoding(rest);
    }

    proof fn lemma_encoding_injective(&self, other: &Self) {
        self.fields().lemma_encoding_injective(&other.fields());
    }
}

/// The operation which a contract starts with: it has no inputs and defines the first state.
#[derive(PartialEq, Eq, Debug)]
pub struct Genesis {
    /// The codex under which the contract is made.
    pub codex_id: CodexId,
    /// The call which is made: it selects the verifier which the genesis is held against.
    pub call_id: CallId,
    /// Number which tells apart contracts which are otherwise the same.
    pub nonce: u64,
    /// Destructible cells which the genesis defines.
    pub destructible_out: SmallVec<StateCell>,
    /// Immutable cells which the genesis defines.
    pub immutable_out: SmallVec<StateData>,
}

impl Genesis {
    /// The fields in the order of the layout.
    pub open spec fn fields(self) -> GenesisFields {
        (
            self.codex_id,
            (self.call_id, (self.nonce, (self.destructible_out, self.immutable_out))),
        )
    }

    /// The identifier of the genesis.
    pub open spec fn spec_genesis_id(self) -> Seq<u8> {
        GenesisId::spec_commit(self.encoding())
    }

    /// The identifier of the genesis: the commitment to its canonical bytes.
    pub fn genesis_id(&self) -> (id: GenesisId)
        ensures
            id@ == self.spec_genesis_id(),
    {
        let mut bytes: Vec<u8> = Vec::new();
        self.encode(&mut bytes);
        assert(bytes@ =~= self.encoding());
        GenesisId::commit(bytes.as_slice())
    }

    /// The genesis as the first operation of a contract: the same call, nonce and outputs, and
    /// no inputs.
    pub fn to_operation(self, contract_id: ContractId) -> (op: Operation)
        ensures
            op.contract_id == contract_id,
            op.call_id == self.call_id,
            op.nonce == self.nonce,
            op.destructible_in@.len() == 0,
            op.immutable_in@.len() == 0,
            op.destructible_out == self.destructible_out,
            op.immutable_out == self.immutable_out,
    {
        Operation {
            contract_id,
            call_id: self.call_id,
            nonce: self.nonce,
            destructible_in: SmallVec::new(),
            immutable_in: SmallVec::new(),
            destructible_out: self.destructible_out,
            immutable_out: self.immutable_out,
        }
    }
}

impl Canonical for Genesis {
    /// The codex, the call, the nonce, and then the destructible and the immutable outputs.
    open spec fn encoding(&self) -> Seq<u8> {
        self.fields().encoding()
    }

    open spec fn canonical(&self) -> bool {
        self.fields().canonical()
    }

    /// The same in every field, sequence by sequence and item by item.
    open spec fn same(&self, other: &Self) -> bool {
        self.fields().same(&other.fields())
    }

    open spec fn scan(bytes: Seq<u8>) -> Scan {
        GenesisFields::scan(bytes)
    }

    fn encode(&self, out: &mut Vec<u8>) {
        self.codex_id.encode(out);
        self.call_id.encode(out);
        self.nonce.encode(out);
        self.destructible_out.encode(out);
        self.immutable_out.encode(out);
        assert(out@ =~= old(out)@ + self.encoding());
    }

    fn decode(bytes: &[u8], pos: usize) -> (r: Result<(Self, usize), DecodeError>) {
        match GenesisFields::decode(bytes, pos) {
            Ok(((codex_id, (call_id, (nonce, (destructible_out, immutable_out)))), end)) => Ok(
                (Genesis { codex_id, call_id, nonce, destructible_out, immutable_out }, end),
            ),
            Err(e) => Err(e),
        }
    }

    proof fn lemma_scan_encoding(&self, rest: Seq<u8>) {
        self.fields().lemma_scan_encoding(rest);
    }

    proof fn lemma_encoding_injective(&self, other: &Self) {
        self.fields().lemma_encoding_injective(&other.fields());
    }
}

/// Why a text is not the address of a cell.
#[derive(Copy, Clone, PartialEq, Eq, Structural, Hash, Debug)]
pub enum ParseAddrError {
    /// What stands for the identifier of the operation is not one.
    BadId,
    /// What stands for the position is not a decimal number of 16 bits.
    BadPos,
    /// The text has no colon.
    MissingSeparator,
}

/// What the text of an address starts with, before the colon.
pub const ADDR_PREFIX: &'static str = "opid";

/// The parts of the text of an address: the text of the identifier and the position.
///
/// The text is `opid`, a colon, the identifier, and then, where the position is not zero or is
/// written out all the same, a slash and the position in decimal digits.
pub open spec fn address_parts(text: Seq<char>) -> Result<(Seq<char>, u16), ParseAddrError> {
    match text.index_of_first(':') {
        None => Err(ParseAddrError::MissingSeparator),
        Some(colon) => if text.take(colon) != ADDR_PREFIX@ {
            Err(ParseAddrError::BadId)
        } else {
            let rest = text.skip(colon + 1);
            match rest.index_of_first('/') {
                None => Ok((rest, 0u16)),
                Some(slash) => match decimal_u16(rest.skip(slash + 1)) {
                    Some(pos) => Ok((rest.take(slash), pos)),
                    None => Err(ParseAddrError::BadPos),
                },
            }
        },
    }
}

/// The text of an address is read as it is written: from `opid`, a colon, the text of an
/// identifier without a slash in it, a slash and the decimal digits of a position, the parts
/// come out as that text and that position.
pub proof fn lemma_address_parts(id: Seq<char>, pos: u16)
    requires
        !id.contains('/'),
    ensures
        address_parts(ADDR_PREFIX@ + seq![':'] + id + seq!['/'] + decimal(pos as nat)) == Ok::<
            (Seq<char>, u16),
            ParseAddrError,
        >((id, pos)),
{
    reveal_strlit("opid");
    let digits = decimal(pos as nat);
    let text = ADDR_PREFIX@ + seq![':'] + id + seq!['/'] + digits;
    let rest = id + seq!['/'] + digits;
    lemma_decimal_value(pos as nat);
    assert(text[4] == ':');
    assert(text.contains(':'));
    text.index_of_first_ensures(':');
    let colon = text.index_of_first(':')->Some_0;
    assert(colon == 4) by {
        if colon < 4 {
            assert(text[colon] == ADDR_PREFIX@[colon]);
        }
    }
    assert(text.take(4) =~= ADDR_PREFIX@);
    assert(text.skip(5) =~= rest);
    let slash_at = id.len() as int;
    assert(rest[slash_at] == '/');
    assert(rest.contains('/'));
    rest.index_of_first_ensures('/');
    let slash = rest.index_of_first('/')->Some_0;
    assert(slash == slash_at) by {
        if slash < slash_at {
            assert(rest[slash] == id[slash]);
            assert(id.contains('/'));
        }
    }
    assert(rest.take(slash) =~= id);
    assert(rest.skip(slash + 1) =~= digits);
}

/// The parts of the text of an address: the text of the identifier, and the position.
pub fn parse_addr_parts(text: &str) -> (r: Result<(String, u16), ParseAddrError>)
    ensures
        match r {
            Ok((id, pos)) => address_parts(text@) == Ok::<(Seq<char>, u16), ParseAddrError>(
                (id@, pos),
            ),
            Err(e) => address_parts(text@) == Err::<(Seq<char>, u16), ParseAddrError>(e),
        },
{
    let len = text.unicode_len();
    let colon = match find_char(text, 0, len, ':') {
        Some(i) => i,
        None => {
            proof {
                text@.index_of_first_ensures(':');
            }
            return Err(ParseAddrError::MissingSeparator);
        },
    };
    proof {
        text@.index_of_first_ensures(':');
        assert(text@.index_of_first(':') == Some(colon as int));
    }
    if !str_eq(text.substring_char(0, colon), ADDR_PREFIX) {
        assert(text@.take(colon as int) =~= text@.subrange(0, colon as int));
        return Err(ParseAddrError::BadId);
    }
    assert(text@.take(colon as int) =~= text@.subrange(0, colon as int));
    let rest = text.substring_char(colon + 1, len);
    assert(rest@ =~= text@.skip(colon + 1));
    let rest_len = len - colon - 1;
    match find_char(rest, 0, rest_len, '/') {
        None => {
            proof {
                rest@.index_of_first_ensures('/');
            }
            Ok((String::from_str(rest), 0))
        },
        Some(slash) => {
            proof {
                rest@.index_of_first_ensures('/');
                assert(rest@.index_of_first('/') == Some(slash as int));
            }
            let digits = rest.substring_char(slash + 1, rest_len);
            assert(digits@ =~= rest@.skip(slash + 1));
            match parse_u16(digits) {
                Some(pos) => {
                    let id = rest.substring_char(0, slash);
                    assert(id@ =~= rest@.take(slash as int));
                    Ok((String::from_str(id), pos))
                },
                None => Err(ParseAddrError::BadPos),
            }
        },
    }
}

impl CellAddr {
    /// The address whose parts have been read from a text, where the text of the identifier
    /// has been found to stand for the given bytes, or for none.
    pub fn from_parts(id: Option<[u8; 32]>, pos: u16) -> (r: Result<CellAddr, ParseAddrError>)
        ensures
            match id {
                Some(bytes) => r == Ok::<CellAddr, ParseAddrError>(
                    CellAddr { opid: Opid(bytes), pos },
                ),
                None => r == Err::<CellAddr, ParseAddrError>(ParseAddrError::BadId),
            },
    {
        match id {
            Some(bytes) => Ok(CellAddr { opid: Opid(bytes), pos }),
            None => Err(ParseAddrError::BadId),
        }
    }

    /// The text of the address.
    pub open spec fn rendered(self) -> Seq<char> {
        ADDR_PREFIX@ + seq![':'] + id_text(self.opid@) + seq!['/'] + decimal(self.pos as nat)
    }

    /// The address as text: `opid`, a colon, the identifier, a slash and the position. The
    /// text is one from which the same parts are read again.
    pub fn render(&self) -> (text: String)
        ensures
            text@ == self.rendered(),
            address_parts(text@) == Ok::<(Seq<char>, u16), ParseAddrError>(
                (id_text(self.opid@), self.pos),
            ),
    {
        proof {
            reveal_strlit(":");
            reveal_strlit("/");
        }
        let mut text = String::from_str(ADDR_PREFIX);
        text.append(":");
        let id = self.opid.to_baid64_string();
        proof {
            lemma_address_parts(id@, self.pos);
        }
        text.append(id.as_str());
        text.append("/");
        push_decimal(&mut text, self.pos);
        assert(text@ =~= self.rendered());
        text
    }
}

} // verus!
