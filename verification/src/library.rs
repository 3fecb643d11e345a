//! Identifiers of program libraries and places in their code.

use vstd::prelude::*;
use vstd::std_specs::cmp::PartialEqSpecImpl;

use crate::encoding::{bytes_eq, Canonical, DecodeError, Scan};

verus! {

/// Identifier of a library of the machine's code.
#[derive(Copy, Clone, Eq, Hash, Debug)]
pub struct LibId(pub [u8; 32]);

impl PartialEq for LibId {
    fn eq(&self, other: &Self) -> (same: bool) {
        bytes_eq(&self.0, &other.0)
    }
}

impl PartialEqSpecImpl for LibId {
    open spec fn obeys_eq_spec() -> bool {
        true
    }

    open spec fn eq_spec(&self, other: &Self) -> bool {
        self.0 == other.0
    }
}

/// Place in the code of a library: where a program is entered.
#[derive(Copy, Clone, Eq, Hash, Debug)]
pub struct LibSite {
    pub lib_id: LibId,
    pub offset: u16,
}

impl PartialEq for LibSite {
    fn eq(&self, other: &Self) -> (same: bool) {
        self.lib_id == other.lib_id && self.offset == other.offset
    }
}

impl PartialEqSpecImpl for LibSite {
    open spec fn obeys_eq_spec() -> bool {
        true
    }

    open spec fn eq_spec(&self, other: &Self) -> bool {
        *self == *other
    }
}

impl LibSite {
    pub fn new(lib_id: LibId, offset: u16) -> (site: LibSite)
        ensures
            site == (LibSite { lib_id, offset }),
    {
        LibSite { lib_id, offset }
    }
}

impl Canonical for LibId {
    /// The 32 bytes of the identifier.
    open spec fn encoding(&self) -> Seq<u8> {
        self.0.encoding()
    }

    open spec fn canonical(&self) -> bool {
        true
    }

    open spec fn same(&self, other: &Self) -> bool {
        *self == *other
    }

    open spec fn scan(bytes: Seq<u8>) -> Scan {
        <[u8; 32]>::scan(bytes)
    }

    fn encode(&self, out: &mut Vec<u8>) {
        self.0.encode(out);
    }

    fn decode(bytes: &[u8], pos: usize) -> (r: Result<(Self, usize), DecodeError>) {
        match <[u8; 32]>::decode(bytes, pos) {
            Ok((id, end)) => Ok((LibId(id), end)),
            Err(e) => Err(e),
        }
    }

    proof fn lemma_scan_encoding(&self, rest: Seq<u8>) {
        self.0.lemma_scan_encoding(rest);
    }

    proof fn lemma_encoding_injective(&self, other: &Self) {
        self.0.lemma_encoding_injective(&other.0);
    }
}

impl LibSite {
    /// The fields in the order of the layout.
    pub open spec fn fields(self) -> (LibId, u16) {
        (self.lib_id, self.offset)
    }
}

impl Canonical for LibSite {
    /// The identifier of the library, and then the offset in two bytes.
    open spec fn encoding(&self) -> Seq<u8> {
        self.fields().encoding()
    }

    open spec fn canonical(&self) -> bool {
        true
    }

    open spec fn same(&self, other: &Self) -> bool {
        *self == *other
    }

    open spec fn scan(bytes: Seq<u8>) -> Scan {
        <(LibId, u16)>::scan(bytes)
    }

    fn encode(&self, out: &mut Vec<u8>) {
        self.lib_id.encode(out);
        self.offset.encode(out);
        assert(out@ =~= old(out)@ + self.encoding());
    }

    fn decode(bytes: &[u8], pos: usize) -> (r: Result<(Self, usize), DecodeError>) {
        match <(LibId, u16)>::decode(bytes, pos) {
            Ok(((lib_id, offset), end)) => Ok((LibSite { lib_id, offset }, end)),
            Err(e) => Err(e),
        }
    }

    proof fn lemma_scan_encoding(&self, rest: Seq<u8>) {
        self.fields().lemma_scan_encoding(rest);
    }

    proof fn lemma_encoding_injective(&self, other: &Self) {
        self.fields().lemma_encoding_injective(&other.fields());
    }
}

} // verus!
