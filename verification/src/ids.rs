//! The identifiers: 32 bytes each, which commit to canonical bytes under a tag of their own.

use vstd::prelude::*;
use vstd::std_specs::cmp::PartialEqSpecImpl;
use vstd::string::StringSliceAdditionalSpecFns;

use crate::commit::{commit_bytes, id_text, id_to_string, tagged_digest};
use crate::encoding::{bytes_eq, Canonical, DecodeError, Scan};

verus! {

/// Tag under which the identifiers of contracts commit.
pub const CONTRACT_ID_TAG: &'static str = "urn:ubideco:sonic:contract#2024-11-16";

/// Tag under which the identifiers of operations commit.
pub const OPID_TAG: &'static str = "urn:ubideco:sonic:opid#2024-11-16";

/// Tag under which the identifiers of codices commit.
pub const CODEX_ID_TAG: &'static str = "urn:ubideco:sonic:codex#2024-11-16";

/// Tag under which the identifiers of calls commit.
pub const CALL_ID_TAG: &'static str = "urn:ubideco:sonic:call#2024-11-16";

/// Tag under which the identifiers of accesses commit.
pub const ACCESS_ID_TAG: &'static str = "urn:ubideco:sonic:access#2024-11-16";

/// Tag under which the identifiers of geneses commit.
pub const GENESIS_ID_TAG: &'static str = "urn:ubideco:sonic:genesis#2024-11-16";

/// Identifier of a contract: the commitment to the contract with its genesis.
#[derive(Copy, Clone, Eq, Hash, Debug)]
pub struct ContractId(pub [u8; 32]);

impl PartialEq for ContractId {
    fn eq(&self, other: &Self) -> (same: bool) {
        bytes_eq(&self.0, &other.0)
    }
}

impl PartialEqSpecImpl for ContractId {
    open spec fn obeys_eq_spec() -> bool {
        true
    }

    open spec fn eq_spec(&self, other: &Self) -> bool {
        self.0 == other.0
    }
}

impl View for ContractId {
    type V = Seq<u8>;

    open spec fn view(&self) -> Seq<u8> {
        self.0@
    }
}

impl ContractId {
    /// The identifier which commits to the given canonical bytes.
    pub open spec fn spec_commit(data: Seq<u8>) -> Seq<u8> {
        tagged_digest(CONTRACT_ID_TAG.spec_bytes(), data)
    }

    /// The identifier made of the given bytes.
    pub fn from_bytes(bytes: [u8; 32]) -> (id: ContractId)
        ensures
            id.0 == bytes,
    {
        ContractId(bytes)
    }

    /// The bytes of the identifier.
    pub fn to_bytes(&self) -> (bytes: [u8; 32])
        ensures
            bytes == self.0,
    {
        self.0
    }

    /// The identifier which commits to the given canonical bytes.
    pub fn commit(data: &[u8]) -> (id: ContractId)
        ensures
            id@ == Self::spec_commit(data@),
    {
        ContractId(commit_bytes(CONTRACT_ID_TAG, data))
    }

    /// The identifier as text, which holds neither a colon nor a slash.
    pub fn to_baid64_string(&self) -> (text: String)
        ensures
            text@ == id_text(self@),
            !text@.contains(':'),
            !text@.contains('/'),
    {
        id_to_string(&self.0)
    }
}

/// Identifier of an operation: the commitment to its canonical bytes.
#[derive(Copy, Clone, Eq, Hash, Debug)]
pub struct Opid(pub [u8; 32]);

impl PartialEq for Opid {
    fn eq(&self, other: &Self) -> (same: bool) {
        bytes_eq(&self.0, &other.0)
    }
}

impl PartialEqSpecImpl for Opid {
    open spec fn obeys_eq_spec() -> bool {
        true
    }

    open spec fn eq_spec(&self, other: &Self) -> bool {
        self.0 == other.0
    }
}

impl View for Opid {
    type V = Seq<u8>;

    open spec fn view(&self) -> Seq<u8> {
        self.0@
    }
}

impl Opid {
    /// The identifier which commits to the given canonical bytes.
    pub open spec fn spec_commit(data: Seq<u8>) -> Seq<u8> {
        tagged_digest(OPID_TAG.spec_bytes(), data)
    }

    /// The identifier made of the given bytes.
    pub fn from_bytes(bytes: [u8; 32]) -> (id: Opid)
        ensures
            id.0 == bytes,
    {
        Opid(bytes)
    }

    /// The bytes of the identifier.
    pub fn to_bytes(&self) -> (bytes: [u8; 32])
        ensures
            bytes == self.0,
    {
        self.0
    }

    /// The identifier which commits to the given canonical bytes.
    pub fn commit(data: &[u8]) -> (id: Opid)
        ensures
            id@ == Self::spec_commit(data@),
    {
        Opid(commit_bytes(OPID_TAG, data))
    }

    /// The identifier as text, which holds neither a colon nor a slash.
    pub fn to_baid64_string(&self) -> (text: String)
        ensures
            text@ == id_text(self@),
            !text@.contains(':'),
            !text@.contains('/'),
    {
        id_to_string(&self.0)
    }
}

/// Identifier of a codex: the commitment to its canonical bytes.
#[derive(Copy, Clone, Eq, Hash, Debug)]
pub struct CodexId(pub [u8; 32]);

impl PartialEq for CodexId {
    fn eq(&self, other: &Self) -> (same: bool) {
        bytes_eq(&self.0, &other.0)
    }
}

impl PartialEqSpecImpl for CodexId {
    open spec fn obeys_eq_spec() -> bool {
        true
    }

    open spec fn eq_spec(&self, other: &Self) -> bool {
        self.0 == other.0
    }
}

impl View for CodexId {
    type V = Seq<u8>;

    open spec fn view(&self) -> Seq<u8> {
        self.0@
    }
}

impl CodexId {
    /// The identifier which commits to the given canonical bytes.
    pub open spec fn spec_commit(data: Seq<u8>) -> Seq<u8> {
        tagged_digest(CODEX_ID_TAG.spec_bytes(), data)
    }

    /// The identifier made of the given bytes.
    pub fn from_bytes(bytes: [u8; 32]) -> (id: CodexId)
        ensures
            id.0 == bytes,
    {
        CodexId(bytes)
    }

    /// The bytes of the identifier.
    pub fn to_bytes(&self) -> (bytes: [u8; 32])
        ensures
            bytes == self.0,
    {
        self.0
    }

    /// The identifier which commits to the given canonical bytes.
    pub fn commit(data: &[u8]) -> (id: CodexId)
        ensures
            id@ == Self::spec_commit(data@),
    {
        CodexId(commit_bytes(CODEX_ID_TAG, data))
    }

    /// The identifier as text, which holds neither a colon nor a slash.
    pub fn to_baid64_string(&self) -> (text: String)
        ensures
            text@ == id_text(self@),
            !text@.contains(':'),
            !text@.contains('/'),
    {
        id_to_string(&self.0)
    }
}

/// Identifier of a call: which of the verifiers of a codex an operation is held against.
#[derive(Copy, Clone, Eq, Hash, Debug)]
pub struct CallId(pub [u8; 32]);

impl PartialEq for CallId {
    fn eq(&self, other: &Self) -> (same: bool) {
        bytes_eq(&self.0, &other.0)
    }
}

impl PartialEqSpecImpl for CallId {
    open spec fn obeys_eq_spec() -> bool {
        true
    }

    open spec fn eq_spec(&self, other: &Self) -> bool {
        self.0 == other.0
    }
}

impl View for CallId {
    type V = Seq<u8>;

    open spec fn view(&self) -> Seq<u8> {
        self.0@
    }
}

impl CallId {
    /// The identifier which commits to the given canonical bytes.
    pub open spec fn spec_commit(data: Seq<u8>) -> Seq<u8> {
        tagged_digest(CALL_ID_TAG.spec_bytes(), data)
    }

    /// The identifier made of the given bytes.
    pub fn from_bytes(bytes: [u8; 32]) -> (id: CallId)
        ensures
            id.0 == bytes,
    {
        CallId(bytes)
    }

    /// The bytes of the identifier.
    pub fn to_bytes(&self) -> (bytes: [u8; 32])
        ensures
            bytes == self.0,
    {
        self.0
    }

    /// The identifier which commits to the given canonical bytes.
    pub fn commit(data: &[u8]) -> (id: CallId)
        ensures
            id@ == Self::spec_commit(data@),
    {
        CallId(commit_bytes(CALL_ID_TAG, data))
    }

    /// The identifier as text, which holds neither a colon nor a slash.
    pub fn to_baid64_string(&self) -> (text: String)
        ensures
            text@ == id_text(self@),
            !text@.contains(':'),
            !text@.contains('/'),
    {
        id_to_string(&self.0)
    }
}

/// Identifier of the access which an operation makes: the commitment to the inputs it reads.
#[derive(Copy, Clone, Eq, Hash, Debug)]
pub struct AccessId(pub [u8; 32]);

impl PartialEq for AccessId {
    fn eq(&self, other: &Self) -> (same: bool) {
        bytes_eq(&self.0, &other.0)
    }
}

impl PartialEqSpecImpl for AccessId {
    open spec fn obeys_eq_spec() -> bool {
        true
    }

    open spec fn eq_spec(&self, other: &Self) -> bool {
        self.0 == other.0
    }
}

impl View for AccessId {
    type V = Seq<u8>;

    open spec fn view(&self) -> Seq<u8> {
        self.0@
    }
}

impl AccessId {
    /// The identifier which commits to the given canonical bytes.
    pub open spec fn spec_commit(data: Seq<u8>) -> Seq<u8> {
        tagged_digest(ACCESS_ID_TAG.spec_bytes(), data)
    }

    /// The identifier made of the given bytes.
    pub fn from_bytes(bytes: [u8; 32]) -> (id: AccessId)
        ensures
            id.0 == bytes,
    {
        AccessId(bytes)
    }

    /// The bytes of the identifier.
    pub fn to_bytes(&self) -> (bytes: [u8; 32])
        ensures
            bytes == self.0,
    {
        self.0
    }

    /// The identifier which commits to the given canonical bytes.
    pub fn commit(data: &[u8]) -> (id: AccessId)
        ensures
            id@ == Self::spec_commit(data@),
    {
        AccessId(commit_bytes(ACCESS_ID_TAG, data))
    }

    /// The identifier as text, which holds neither a colon nor a slash.
    pub fn to_baid64_string(&self) -> (text: String)
        ensures
            text@ == id_text(self@),
            !text@.contains(':'),
            !text@.contains('/'),
    {
        id_to_string(&self.0)
    }
}

/// Identifier of a genesis: the commitment to its canonical bytes.
#[derive(Copy, Clone, Eq, Hash, Debug)]
pub struct GenesisId(pub [u8; 32]);

impl PartialEq for GenesisId {
    fn eq(&self, other: &Self) -> (same: bool) {
        bytes_eq(&self.0, &other.0)
    }
}

impl PartialEqSpecImpl for GenesisId {
    open spec fn obeys_eq_spec() -> bool {
        true
    }

    open spec fn eq_spec(&self, other: &Self) -> bool {
        self.0 == other.0
    }
}

impl View for GenesisId {
    type V = Seq<u8>;

    open spec fn view(&self) -> Seq<u8> {
        self.0@
    }
}

impl GenesisId {
    /// The identifier which commits to the given canonical bytes.
    pub open spec fn spec_commit(data: Seq<u8>) -> Seq<u8> {
        tagged_digest(GENESIS_ID_TAG.spec_bytes(), data)
    }

    /// The identifier made of the given bytes.
    pub fn from_bytes(bytes: [u8; 32]) -> (id: GenesisId)
        ensures
            id.0 == bytes,
    {
        GenesisId(bytes)
    }

    /// The bytes of the identifier.
    pub fn to_bytes(&self) -> (bytes: [u8; 32])
        ensures
            bytes == self.0,
    {
        self.0
    }

    /// The identifier which commits to the given canonical bytes.
    pub fn commit(data: &[u8]) -> (id: GenesisId)
        ensures
            id@ == Self::spec_commit(data@),
    {
        GenesisId(commit_bytes(GENESIS_ID_TAG, data))
    }

    /// The identifier as text, which holds neither a colon nor a slash.
    pub fn to_baid64_string(&self) -> (text: String)
        ensures
            text@ == id_text(self@),
            !text@.contains(':'),
            !text@.contains('/'),
    {
        id_to_string(&self.0)
    }
}

impl Canonical for ContractId {
    /// The 32 bytes of the identifier.
    open spec fn encoding(&self) -> Seq<u8> {
        self.0.encoding()
    }

    open spec fn canonical(&self) -> bool {
        true
    }

    open spec fn same(&self, other: &Self) -> bool {
        *self == *other
    }

    open spec fn scan(bytes: Seq<u8>) -> Scan {
        <[u8; 32]>::scan(bytes)
    }

    fn encode(&self, out: &mut Vec<u8>) {
        self.0.encode(out);
    }

    fn decode(bytes: &[u8], pos: usize) -> (r: Result<(Self, usize), DecodeError>) {
        match <[u8; 32]>::decode(bytes, pos) {
            Ok((id, end)) => Ok((ContractId(id), end)),
            Err(e) => Err(e),
        }
    }

    proof fn lemma_scan_encoding(&self, rest: Seq<u8>) {
        self.0.lemma_scan_encoding(rest);
    }

    proof fn lemma_encoding_injective(&self, other: &Self) {
        self.0.lemma_encoding_injective(&other.0);
    }
}

impl Canonical for Opid {
    /// The 32 bytes of the identifier.
    open spec fn encoding(&self) -> Seq<u8> {
        self.0.encoding()
    }

    open spec fn canonical(&self) -> bool {
        true
    }

    open spec fn same(&self, other: &Self) -> bool {
        *self == *other
    }

    open spec fn scan(bytes: Seq<u8>) -> Scan {
        <[u8; 32]>::scan(bytes)
    }

    fn encode(&self, out: &mut Vec<u8>) {
        self.0.encode(out);
    }

    fn decode(bytes: &[u8], pos: usize) -> (r: Result<(Self, usize), DecodeError>) {
        match <[u8; 32]>::decode(bytes, pos) {
            Ok((id, end)) => Ok((Opid(id), end)),
            Err(e) => Err(e),
        }
    }

    proof fn lemma_scan_encoding(&self, rest: Seq<u8>) {
        self.0.lemma_scan_encoding(rest);
    }

    proof fn lemma_encoding_injective(&self, other: &Self) {
        self.0.lemma_encoding_injective(&other.0);
    }
}

impl Canonical for CodexId {
    /// The 32 bytes of the identifier.
    open spec fn encoding(&self) -> Seq<u8> {
        self.0.encoding()
    }

    open spec fn canonical(&self) -> bool {
        true
    }

    open spec fn same(&self, other: &Self) -> bool {
        *self == *other
    }

    open spec fn scan(bytes: Seq<u8>) -> Scan {
        <[u8; 32]>::scan(bytes)
    }

    fn encode(&self, out: &mut Vec<u8>) {
        self.0.encode(out);
    }

    fn decode(bytes: &[u8], pos: usize) -> (r: Result<(Self, usize), DecodeError>) {
        match <[u8; 32]>::decode(bytes, pos) {
            Ok((id, end)) => Ok((CodexId(id), end)),
            Err(e) => Err(e),
        }
    }

    proof fn lemma_scan_encoding(&self, rest: Seq<u8>) {
        self.0.lemma_scan_encoding(rest);
    }

    proof fn lemma_encoding_injective(&self, other: &Self) {
        self.0.lemma_encoding_injective(&other.0);
    }
}

impl Canonical for CallId {
    /// The 32 bytes of the identifier.
    open spec fn encoding(&self) -> Seq<u8> {
        self.0.encoding()
    }

    open spec fn canonical(&self) -> bool {
        true
    }

    open spec fn same(&self, other: &Self) -> bool {
        *self == *other
    }

    open spec fn scan(bytes: Seq<u8>) -> Scan {
        <[u8; 32]>::scan(bytes)
    }

    fn encode(&self, out: &mut Vec<u8>) {
        self.0.encode(out);
    }

    fn decode(bytes: &[u8], pos: usize) -> (r: Result<(Self, usize), DecodeError>) {
        match <[u8; 32]>::decode(bytes, pos) {
            Ok((id, end)) => Ok((CallId(id), end)),
            Err(e) => Err(e),
        }
    }

    proof fn lemma_scan_encoding(&self, rest: Seq<u8>) {
        self.0.lemma_scan_encoding(rest);
    }

    proof fn lemma_encoding_injective(&self, other: &Self) {
        self.0.lemma_encoding_injective(&other.0);
    }
}

impl Canonical for AccessId {
    /// The 32 bytes of the identifier.
    open spec fn encoding(&self) -> Seq<u8> {
        self.0.encoding()
    }

    open spec fn canonical(&self) -> bool {
        true
    }

    open spec fn same(&self, other: &Self) -> bool {
        *self == *other
    }

    open spec fn scan(bytes: Seq<u8>) -> Scan {
        <[u8; 32]>::scan(bytes)
    }

    fn encode(&self, out: &mut Vec<u8>) {
        self.0.encode(out);
    }

    fn decode(bytes: &[u8], pos: usize) -> (r: Result<(Self, usize), DecodeError>) {
        match <[u8; 32]>::decode(bytes, pos) {
            Ok((id, end)) => Ok((AccessId(id), end)),
            Err(e) => Err(e),
        }
    }

    proof fn lemma_scan_encoding(&self, rest: Seq<u8>) {
        self.0.lemma_scan_encoding(rest);
    }

    proof fn lemma_encoding_injective(&self, other: &Self) {
        self.0.lemma_encoding_injective(&other.0);
    }
}

impl Canonical for GenesisId {
    /// The 32 bytes of the identifier.
    open spec fn encoding(&self) -> Seq<u8> {
        self.0.encoding()
    }

    open spec fn canonical(&self) -> bool {
        true
    }

    open spec fn same(&self, other: &Self) -> bool {
        *self == *other
    }

    open spec fn scan(bytes: Seq<u8>) -> Scan {
        <[u8; 32]>::scan(bytes)
    }

    fn encode(&self, out: &mut Vec<u8>) {
        self.0.encode(out);
    }

    fn decode(bytes: &[u8], pos: usize) -> (r: Result<(Self, usize), DecodeError>) {
        match <[u8; 32]>::decode(bytes, pos) {
            Ok((id, end)) => Ok((GenesisId(id), end)),
            Err(e) => Err(e),
        }
    }

    proof fn lemma_scan_encoding(&self, rest: Seq<u8>) {
        self.0.lemma_scan_encoding(rest);
    }

    proof fn lemma_encoding_injective(&self, other: &Self) {
        self.0.lemma_encoding_injective(&other.0);
    }
}

/// An identifier is a function of the canonical bytes it commits to and of the tag of its
/// type: whoever lays out the same bytes comes to the same identifier.
pub proof fn lemma_commitment_deterministic(first: Seq<u8>, second: Seq<u8>)
    requires
        first == second,
    ensures
        ContractId::spec_commit(first) == ContractId::spec_commit(second),
        Opid::spec_commit(first) == Opid::spec_commit(second),
        CodexId::spec_commit(first) == CodexId::spec_commit(second),
        CallId::spec_commit(first) == CallId::spec_commit(second),
        AccessId::spec_commit(first) == AccessId::spec_commit(second),
        GenesisId::spec_commit(first) == GenesisId::spec_commit(second),
{
}

/// No two types of identifiers commit under the same tag.
pub proof fn lemma_tags_distinct()
    ensures
        CONTRACT_ID_TAG@ != OPID_TAG@,
        CONTRACT_ID_TAG@ != CODEX_ID_TAG@,
        CONTRACT_ID_TAG@ != CALL_ID_TAG@,
        CONTRACT_ID_TAG@ != ACCESS_ID_TAG@,
        CONTRACT_ID_TAG@ != GENESIS_ID_TAG@,
        OPID_TAG@ != CODEX_ID_TAG@,
        OPID_TAG@ != CALL_ID_TAG@,
        OPID_TAG@ != ACCESS_ID_TAG@,
        OPID_TAG@ != GENESIS_ID_TAG@,
        CODEX_ID_TAG@ != CALL_ID_TAG@,
        CODEX_ID_TAG@ != ACCESS_ID_TAG@,
        CODEX_ID_TAG@ != GENESIS_ID_TAG@,
        CALL_ID_TAG@ != ACCESS_ID_TAG@,
        CALL_ID_TAG@ != GENESIS_ID_TAG@,
        ACCESS_ID_TAG@ != GENESIS_ID_TAG@,
{
    reveal_strlit("urn:ubideco:sonic:contract#2024-11-16");
    reveal_strlit("urn:ubideco:sonic:opid#2024-11-16");
    reveal_strlit("urn:ubideco:sonic:codex#2024-11-16");
    reveal_strlit("urn:ubideco:sonic:call#2024-11-16");
    reveal_strlit("urn:ubideco:sonic:access#2024-11-16");
    reveal_strlit("urn:ubideco:sonic:genesis#2024-11-16");
    assert(CONTRACT_ID_TAG@.len() == 37);
    assert(OPID_TAG@.len() == 33);
    assert(CODEX_ID_TAG@.len() == 34);
    assert(CALL_ID_TAG@.len() == 33);
    assert(ACCESS_ID_TAG@.len() == 35);
    assert(GENESIS_ID_TAG@.len() == 36);
    assert(OPID_TAG@[18] == 'o');
    assert(CALL_ID_TAG@[18] == 'c');
}

} // verus!
