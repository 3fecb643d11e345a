//! Contracts: the header, the codex and the first operation, under one identifier.

use vstd::prelude::*;
use vstd::string::StringExecFns;

use crate::codex::Codex;
use crate::confined::Text;
use crate::encoding::{
    le_value, lemma_le_bytes_len, lemma_le_value_of_bytes, lemma_pow256_values,
    lemma_subrange_join, Canonical, DecodeError, Scan,
};
use crate::ids::ContractId;
use crate::operation::Operation;
use crate::text::{decimal, push_decimal};

verus! {

/// What an error says of a version code which this version of the library does not know.
pub const FFV_HINT: &'static str =
    "unsupported fast-forward version code belonging to a future version. Please update your software, or, if the problem persists, contact your vendor providing the following version information: ";

/// What an error says of reserved bytes which are not as this version of the library has them.
pub const RESERVED_HINT: &'static str =
    "unsupported reserved byte value indicating a future RGB version. Please update your software, or, if the problem persists, contact your vendor providing the following version information: reserved";

/// What the text of a version starts with.
pub const FFV_PREFIX: &'static str = "RGB/1.";

/// Fast-forward version code of a contract. This version of the library knows the code zero.
#[derive(Copy, Clone, PartialEq, Eq, Structural, Hash, Debug)]
pub struct Ffv(u16);

impl View for Ffv {
    type V = u16;

    closed spec fn view(&self) -> u16 {
        self.0
    }
}

impl Default for Ffv {
    fn default() -> (version: Ffv)
        ensures
            version@ == 0,
    {
        Ffv(0)
    }
}

impl Ffv {
    /// The text of the version with the given code.
    pub open spec fn rendered(code: u16) -> Seq<char> {
        FFV_PREFIX@ + decimal(code as nat)
    }

    /// What the error says when bytes hold the version code `code`, which is unknown.
    pub open spec fn integrity_text(code: u16) -> Seq<char> {
        FFV_HINT@ + Self::rendered(code)
    }

    /// The text of the version with the given code.
    pub fn render_code(code: u16) -> (text: String)
        ensures
            text@ == Self::rendered(code),
    {
        let mut text = String::from_str(FFV_PREFIX);
        push_decimal(&mut text, code);
        text
    }

    /// The version as text: `RGB/1.` and the code.
    pub fn render(&self) -> (text: String)
        ensures
            text@ == Self::rendered(self@),
    {
        Self::render_code(self.0)
    }

    /// The version code.
    pub fn code(&self) -> (code: u16)
        ensures
            code == self@,
    {
        self.0
    }
}

impl Canonical for Ffv {
    /// The two little-endian bytes of the code.
    open spec fn encoding(&self) -> Seq<u8> {
        self@.encoding()
    }

    /// Only the code zero is known.
    open spec fn canonical(&self) -> bool {
        self@ == 0
    }

    open spec fn same(&self, other: &Self) -> bool {
        *self == *other
    }

    /// Two bytes which hold zero; any other code is of a later version and is refused, with a
    /// text which names the version.
    open spec fn scan(bytes: Seq<u8>) -> Scan {
        if bytes.len() < 2 {
            Scan::UnexpectedEof
        } else if le_value(bytes.subrange(0, 2)) != 0 {
            Scan::DataIntegrityError(Self::integrity_text(le_value(bytes.subrange(0, 2)) as u16))
        } else {
            Scan::Found(2)
        }
    }

    fn encode(&self, out: &mut Vec<u8>) {
        self.0.encode(out);
    }

    fn decode(bytes: &[u8], pos: usize) -> (r: Result<(Self, usize), DecodeError>) {
        let (code, end) = match u16::decode(bytes, pos) {
            Ok(found) => found,
            Err(e) => {
                return Err(e);
            },
        };
        proof {
            lemma_pow256_values();
            lemma_le_value_of_bytes(code as nat, 2);
            assert(bytes@.skip(pos as int).subrange(0, 2) =~= bytes@.subrange(
                pos as int,
                end as int,
            ));
        }
        let ffv = Ffv(code);
        if code != 0 {
            let mut text = String::from_str(FFV_HINT);
            text.append(ffv.render().as_str());
            Err(DecodeError::DataIntegrityError(text))
        } else {
            Ok((ffv, end))
        }
    }

    proof fn lemma_scan_encoding(&self, rest: Seq<u8>) {
        lemma_pow256_values();
        lemma_le_bytes_len(0, 2);
        lemma_le_value_of_bytes(0, 2);
        assert((self.encoding() + rest).subrange(0, 2) =~= self.encoding());
    }

    proof fn lemma_encoding_injective(&self, other: &Self) {
    }
}

/// Bytes which are kept for later use: `len` bytes which all hold `val`.
pub open spec fn reserved_bytes(len: nat, val: u8) -> Seq<u8> {
    Seq::new(len, |i: int| val)
}

/// The scan of reserved bytes: `len` bytes which hold `val`; any other byte among them is of a
/// later version and is refused.
pub open spec fn scan_reserved(bytes: Seq<u8>, len: nat, val: u8) -> Scan {
    if bytes.len() < len {
        Scan::UnexpectedEof
    } else if bytes.subrange(0, len as int) != reserved_bytes(len, val) {
        Scan::DataIntegrityError(RESERVED_HINT@)
    } else {
        Scan::Found(len)
    }
}

/// Appends reserved bytes.
pub fn encode_reserved(out: &mut Vec<u8>, len: usize, val: u8)
    ensures
        final(out)@ == old(out)@ + reserved_bytes(len as nat, val),
{
    let mut i: usize = 0;
    assert(old(out)@ + reserved_bytes(0, val) =~= old(out)@);
    while i < len
        invariant
            i <= len,
            out@ == old(out)@ + reserved_bytes(i as nat, val),
        decreases len - i,
    {
        out.push(val);
        i += 1;
        assert(out@ =~= old(out)@ + reserved_bytes(i as nat, val));
    }
}

/// Passes over reserved bytes, and tells where they end.
pub fn decode_reserved(bytes: &[u8], pos: usize, len: usize, val: u8) -> (r: Result<
    usize,
    DecodeError,
>)
    requires
        pos <= bytes@.len(),
    ensures
        match r {
            Ok(end) => {
                &&& end == pos + len
                &&& end <= bytes@.len()
                &&& scan_reserved(bytes@.skip(pos as int), len as nat, val) == Scan::Found(
                    len as nat,
                )
                &&& bytes@.subrange(pos as int, end as int) == reserved_bytes(len as nat, val)
            },
            Err(e) => scan_reserved(bytes@.skip(pos as int), len as nat, val) == e.scan(),
        },
{
    let total = bytes.len();
    if total - pos < len {
        return Err(DecodeError::UnexpectedEof);
    }
    let ghost part = bytes@.skip(pos as int).subrange(0, len as int);
    let mut i: usize = 0;
    while i < len
        invariant
            i <= len,
            pos + len <= total == bytes@.len(),
            part == bytes@.skip(pos as int).subrange(0, len as int),
            forall|k: int| 0 <= k < i ==> part[k] == val,
        decreases len - i,
    {
        if bytes[pos + i] != val {
            assert(part[i as int] != reserved_bytes(len as nat, val)[i as int]);
            return Err(DecodeError::DataIntegrityError(String::from_str(RESERVED_HINT)));
        }
        i += 1;
    }
    proof {
        assert(part =~= reserved_bytes(len as nat, val));
        assert(bytes@.subrange(pos as int, pos + len) =~= part);
    }
    Ok(pos + len)
}

/// The ten bytes of the header of a contract which are kept for later use. They hold zero.
#[derive(Copy, Clone, PartialEq, Eq, Structural, Hash, Debug)]
pub struct HeaderReserved;

impl Canonical for HeaderReserved {
    /// Ten bytes which hold zero.
    open spec fn encoding(&self) -> Seq<u8> {
        reserved_bytes(10, 0)
    }

    open spec fn canonical(&self) -> bool {
        true
    }

    open spec fn same(&self, other: &Self) -> bool {
        *self == *other
    }

    open spec fn scan(bytes: Seq<u8>) -> Scan {
        scan_reserved(bytes, 10, 0)
    }

    fn encode(&self, out: &mut Vec<u8>) {
        encode_reserved(out, 10, 0);
    }

    fn decode(bytes: &[u8], pos: usize) -> (r: Result<(Self, usize), DecodeError>) {
        match decode_reserved(bytes, pos, 10, 0) {
            Ok(end) => Ok((HeaderReserved, end)),
            Err(e) => Err(e),
        }
    }

    proof fn lemma_scan_encoding(&self, rest: Seq<u8>) {
        assert((self.encoding() + rest).subrange(0, 10) =~= reserved_bytes(10, 0));
    }

    proof fn lemma_encoding_injective(&self, other: &Self) {
    }
}

/// How the operations of a contract are published.
///
/// The method is told by four bytes, which stand in the header of the contract.
pub trait ProofOfPubl: Copy + Canonical {
    /// The four bytes which tell the method.
    spec fn spec_discriminator(&self) -> Seq<u8>;

    /// The four bytes which tell the method.
    fn discriminator(&self) -> (bytes: [u8; 4])
        ensures
            bytes@ == self.spec_discriminator(),
    ;

    /// The canonical bytes of the method are the four bytes which tell it.
    proof fn lemma_discriminator(&self)
        ensures
            self.encoding() == self.spec_discriminator(),
            self.spec_discriminator().len() == 4,
    ;
}

/// The operations are not published: they pass between the parties of the contract.
#[derive(Copy, Clone, PartialEq, Eq, Structural, Hash, Debug)]
pub struct Private;

impl Private {
    /// The text of the method: a tilde.
    pub fn render(&self) -> (text: &'static str)
        ensures
            text@ == "~"@,
    {
        "~"
    }
}

impl Canonical for Private {
    /// Four bytes which hold 0xFF.
    open spec fn encoding(&self) -> Seq<u8> {
        reserved_bytes(4, 0xFF)
    }

    open spec fn canonical(&self) -> bool {
        true
    }

    open spec fn same(&self, other: &Self) -> bool {
        *self == *other
    }

    open spec fn scan(bytes: Seq<u8>) -> Scan {
        scan_reserved(bytes, 4, 0xFF)
    }

    fn encode(&self, out: &mut Vec<u8>) {
        encode_reserved(out, 4, 0xFF);
    }

    fn decode(bytes: &[u8], pos: usize) -> (r: Result<(Self, usize), DecodeError>) {
        match decode_reserved(bytes, pos, 4, 0xFF) {
            Ok(end) => Ok((Private, end)),
            Err(e) => Err(e),
        }
    }

    proof fn lemma_scan_encoding(&self, rest: Seq<u8>) {
        assert((self.encoding() + rest).subrange(0, 4) =~= reserved_bytes(4, 0xFF));
    }

    proof fn lemma_encoding_injective(&self, other: &Self) {
    }
}

impl ProofOfPubl for Private {
    open spec fn spec_discriminator(&self) -> Seq<u8> {
        seq![0xFFu8, 0xFFu8, 0xFFu8, 0xFFu8]
    }

    fn discriminator(&self) -> (bytes: [u8; 4]) {
        let bytes = [0xFFu8, 0xFFu8, 0xFFu8, 0xFFu8];
        assert(bytes@ =~= self.spec_discriminator());
        bytes
    }

    proof fn lemma_discriminator(&self) {
        assert(self.encoding() =~= self.spec_discriminator());
    }
}

/// Largest number of bytes of the name of a contract.
pub const CONTRACT_NAME_MAX_LEN: usize = 100;

/// Largest number of bytes of the name of the issuer of a contract.
pub const ISSUER_MAX_LEN: usize = 0xFFFF;

/// Name of a contract, where it has one.
#[derive(PartialEq, Eq, Debug)]
pub enum ContractName {
    /// The contract has no name.
    Unnamed,
    /// The contract goes by this name.
    Named(Text<CONTRACT_NAME_MAX_LEN>),
}

impl ContractName {
    /// The name as text: a tilde where there is none.
    pub fn render(&self) -> (text: &str)
        ensures
            text@ == (match self {
                ContractName::Unnamed => "~"@,
                ContractName::Named(name) => name@,
            }),
    {
        match self {
            ContractName::Unnamed => "~",
            ContractName::Named(name) => name.as_str(),
        }
    }
}

impl Canonical for ContractName {
    /// One byte which is 0 where there is no name; else 1, and then the name as a text.
    open spec fn encoding(&self) -> Seq<u8> {
        match self {
            ContractName::Unnamed => seq![0u8],
            ContractName::Named(name) => seq![1u8] + name.encoding(),
        }
    }

    open spec fn canonical(&self) -> bool {
        match self {
            ContractName::Unnamed => true,
            ContractName::Named(name) => name.canonical(),
        }
    }

    /// Both unnamed, or both named by the same characters.
    open spec fn same(&self, other: &Self) -> bool {
        match (self, other) {
            (ContractName::Unnamed, ContractName::Unnamed) => true,
            (ContractName::Named(a), ContractName::Named(b)) => a.same(b),
            _ => false,
        }
    }

    open spec fn scan(bytes: Seq<u8>) -> Scan {
        if bytes.len() == 0 {
            Scan::UnexpectedEof
        } else if bytes[0] == 0 {
            Scan::Found(1)
        } else if bytes[0] == 1 {
            Text::<CONTRACT_NAME_MAX_LEN>::scan(bytes.skip(1)).shift(1)
        } else {
            Scan::InvalidTag(bytes[0])
        }
    }

    fn encode(&self, out: &mut Vec<u8>) {
        match self {
            ContractName::Unnamed => {
                out.push(0);
                assert(out@ =~= old(out)@ + self.encoding());
            },
            ContractName::Named(name) => {
                out.push(1);
                name.encode(out);
                assert(out@ =~= old(out)@ + self.encoding());
            },
        }
    }

    fn decode(bytes: &[u8], pos: usize) -> (r: Result<(Self, usize), DecodeError>) {
        if pos >= bytes.len() {
            return Err(DecodeError::UnexpectedEof);
        }
        let tag = bytes[pos];
        if tag == 0 {
            assert(bytes@.subrange(pos as int, pos + 1) =~= seq![0u8]);
            Ok((ContractName::Unnamed, pos + 1))
        } else if tag == 1 {
            proof {
                lemma_subrange_join(bytes@, pos as int, pos + 1, bytes@.len() as int);
            }
            match Text::<CONTRACT_NAME_MAX_LEN>::decode(bytes, pos + 1) {
                Ok((name, end)) => {
                    proof {
                        lemma_subrange_join(bytes@, pos as int, pos + 1, end as int);
                        assert(bytes@.subrange(pos as int, pos + 1) =~= seq![1u8]);
                    }
                    Ok((ContractName::Named(name), end))
                },
                Err(e) => Err(e),
            }
        } else {
            Err(DecodeError::InvalidTag(tag))
        }
    }

    proof fn lemma_scan_encoding(&self, rest: Seq<u8>) {
        match self {
            ContractName::Unnamed => {},
            ContractName::Named(name) => {
                name.lemma_scan_encoding(rest);
                assert((self.encoding() + rest).skip(1) =~= name.encoding() + rest);
            },
        }
    }

    proof fn lemma_encoding_injective(&self, other: &Self) {
        assert(self.encoding()[0] == (if self is Named { 1u8 } else { 0u8 }));
        assert(other.encoding()[0] == (if other is Named { 1u8 } else { 0u8 }));
        match (self, other) {
            (ContractName::Named(a), ContractName::Named(b)) => {
                assert(self.encoding().skip(1) =~= a.encoding());
                assert(other.encoding().skip(1) =~= b.encoding());
                a.lemma_encoding_injective(b);
            },
            _ => {},
        }
    }
}

/// The fields of the header of a contract in the order of the layout.
pub type HeaderFields<PoP> = (Ffv, (PoP, (HeaderReserved, (u64, i64))));

/// The fields of a contract after its header, in the order of the layout.
pub type BodyFields = (ContractName, (Text<ISSUER_MAX_LEN>, (Codex, Operation)));

/// A contract: the header, the codex and the first operation.
#[derive(PartialEq, Eq, Debug)]
pub struct Contract<PoP: ProofOfPubl> {
    /// Fast-forward version of the contract.
    pub version: Ffv,
    /// How the operations of the contract are published.
    pub proof_of_publ: PoP,
    /// Kept for later use.
    pub reserved: HeaderReserved,
    /// Number which tells apart contracts which are otherwise the same.
    pub salt: u64,
    /// When the contract was made.
    pub timestamp: i64,
    /// Name of the contract.
    pub name: ContractName,
    /// Who has issued the contract.
    pub issuer: Text<ISSUER_MAX_LEN>,
    /// The logic of the contract.
    pub codex: Codex,
    /// The operation which defines the first state of the contract.
    pub initial: Operation,
}

/// A contract whose operations are not published.
pub type ContractPrivate = Contract<Private>;

impl<PoP: ProofOfPubl> Contract<PoP> {
    /// The fields of the header in the order of the layout.
    pub open spec fn header(self) -> HeaderFields<PoP> {
        (self.version, (self.proof_of_publ, (self.reserved, (self.salt, self.timestamp))))
    }

    /// The fields after the header in the order of the layout.
    pub open spec fn body(self) -> BodyFields {
        (self.name, (self.issuer, (self.codex, self.initial)))
    }

    /// The identifier of the contract.
    pub open spec fn spec_contract_id(self) -> Seq<u8> {
        ContractId::spec_commit(self.encoding())
    }

    /// The header takes 32 bytes: two of the version, four of the method of publication, ten
    /// reserved, eight of the salt and eight of the time.
    pub proof fn lemma_header_len(self)
        ensures
            self.header().encoding().len() == 32,
            self.encoding().subrange(0, 32) == self.header().encoding(),
    {
        self.proof_of_publ.lemma_discriminator();
        lemma_le_bytes_len(self.version@ as nat, 2);
        lemma_le_bytes_len(self.salt as nat, 8);
        lemma_le_bytes_len(crate::encoding::twos_complement(self.timestamp), 8);
        assert(self.encoding().subrange(0, 32) =~= self.header().encoding());
    }

    /// The canonical bytes of the contract.
    pub fn to_bytes(&self) -> (bytes: Vec<u8>)
        ensures
            bytes@ == self.encoding(),
    {
        let mut bytes: Vec<u8> = Vec::new();
        self.encode(&mut bytes);
        assert(bytes@ =~= self.encoding());
        bytes
    }

    /// The identifier of the contract: the commitment to its canonical bytes.
    pub fn contract_id(&self) -> (id: ContractId)
        ensures
            id@ == self.spec_contract_id(),
    {
        let bytes = self.to_bytes();
        ContractId::commit(bytes.as_slice())
    }
}

impl<PoP: ProofOfPubl> Canonical for Contract<PoP> {
    /// The header of 32 bytes, and then the name, the issuer, the codex and the first
    /// operation.
    open spec fn encoding(&self) -> Seq<u8> {
        (self.header(), self.body()).encoding()
    }

    open spec fn canonical(&self) -> bool {
        (self.header(), self.body()).canonical()
    }

    /// The same in every field.
    open spec fn same(&self, other: &Self) -> bool {
        (self.header(), self.body()).same(&(other.header(), other.body()))
    }

    open spec fn scan(bytes: Seq<u8>) -> Scan {
        <(HeaderFields<PoP>, BodyFields)>::scan(bytes)
    }

    fn encode(&self, out: &mut Vec<u8>) {
        self.version.encode(out);
        self.proof_of_publ.encode(out);
        self.reserved.encode(out);
        self.salt.encode(out);
        self.timestamp.encode(out);
        self.name.encode(out);
        self.issuer.encode(out);
        self.codex.encode(out);
        self.initial.encode(out);
        assert(out@ =~= old(out)@ + self.encoding());
    }

    fn decode(bytes: &[u8], pos: usize) -> (r: Result<(Self, usize), DecodeError>) {
        match <(HeaderFields<PoP>, BodyFields)>::decode(bytes, pos) {
            Ok((
                (
                    (version, (proof_of_publ, (reserved, (salt, timestamp)))),
                    (name, (issuer, (codex, initial))),
                ),
                end,
            )) => Ok(
                (
                    Contract {
                        version,
                        proof_of_publ,
                        reserved,
                        salt,
                        timestamp,
                        name,
                        issuer,
                        codex,
                        initial,
                    },
                    end,
                ),
            ),
            Err(e) => Err(e),
        }
    }

    proof fn lemma_scan_encoding(&self, rest: Seq<u8>) {
        (self.header(), self.body()).lemma_scan_encoding(rest);
    }

    proof fn lemma_encoding_injective(&self, other: &Self) {
        (self.header(), self.body()).lemma_encoding_injective(&(other.header(), other.body()));
    }
}

} // verus!
