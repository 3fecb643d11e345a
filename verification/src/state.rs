//! State values and memory cells.

use vstd::prelude::*;
use vstd::slice::slice_subrange;
use vstd::std_specs::cmp::PartialEqSpecImpl;

use crate::encoding::{
    bytes_eq, decode_le, le_value, lemma_le_bytes_len, lemma_le_value_of_bytes,
    lemma_pow256_values, lemma_subrange_join, push_bytes, push_le, scan_fixed, u128_bytes,
    u16_bytes, Canonical, DecodeError, Scan,
};
use crate::library::LibSite;

verus! {

/// Largest number of bytes that a [`RawData`] holds.
pub const RAW_DATA_MAX_LEN: usize = 0xFFFF;

/// Element of the finite field, kept as its 128-bit residue.
///
/// The element is stored and compared bit by bit; arithmetic on field elements is the business of
/// the register machine.
#[allow(non_camel_case_types)]
#[derive(Copy, Clone, PartialEq, Eq, Structural, Hash, Debug)]
pub struct fe128(pub u128);

impl Canonical for fe128 {
    /// The 16 little-endian bytes of the residue.
    open spec fn encoding(&self) -> Seq<u8> {
        u128_bytes(self.0)
    }

    open spec fn canonical(&self) -> bool {
        true
    }

    open spec fn same(&self, other: &Self) -> bool {
        *self == *other
    }

    open spec fn scan(bytes: Seq<u8>) -> Scan {
        scan_fixed(bytes, 16)
    }

    fn encode(&self, out: &mut Vec<u8>) {
        push_le(out, self.0, 16);
    }

    fn decode(bytes: &[u8], pos: usize) -> (r: Result<(Self, usize), DecodeError>) {
        match decode_le(bytes, pos, 16) {
            Ok((value, end)) => Ok((fe128(value), end)),
            Err(e) => Err(e),
        }
    }

    proof fn lemma_scan_encoding(&self, rest: Seq<u8>) {
        lemma_le_bytes_len(self.0 as nat, 16);
    }

    proof fn lemma_encoding_injective(&self, other: &Self) {
        lemma_pow256_values();
        lemma_le_value_of_bytes(self.0 as nat, 16);
        lemma_le_value_of_bytes(other.0 as nat, 16);
    }
}

/// Value kept in a memory cell: from zero up to four field elements.
#[derive(Copy, Clone, PartialEq, Eq, Structural, Hash, Debug)]
pub enum StateValue {
    Empty,
    Single(fe128),
    Double(fe128, fe128),
    Three(fe128, fe128, fe128),
    Four(fe128, fe128, fe128, fe128),
}

impl StateValue {
    /// The field elements of the value, in their order.
    pub open spec fn elements(self) -> Seq<fe128> {
        match self {
            StateValue::Empty => seq![],
            StateValue::Single(a) => seq![a],
            StateValue::Double(a, b) => seq![a, b],
            StateValue::Three(a, b, c) => seq![a, b, c],
            StateValue::Four(a, b, c, d) => seq![a, b, c, d],
        }
    }

    /// Number of field elements in the value.
    pub open spec fn spec_arity(self) -> nat {
        self.elements().len()
    }

    /// The element at `pos`, where the value has one there.
    pub open spec fn spec_get(self, pos: int) -> Option<fe128> {
        if 0 <= pos < self.spec_arity() {
            Some(self.elements()[pos])
        } else {
            None
        }
    }

    /// Number of field elements in the value.
    pub fn arity(&self) -> (n: u8)
        ensures
            n == self.spec_arity(),
            n <= 4,
    {
        match self {
            StateValue::Empty => 0,
            StateValue::Single(_) => 1,
            StateValue::Double(_, _) => 2,
            StateValue::Three(_, _, _) => 3,
            StateValue::Four(_, _, _, _) => 4,
        }
    }

    /// Field element at the position `pos`, if the value has that many.
    pub fn get(&self, pos: u8) -> (el: Option<fe128>)
        ensures
            el == self.spec_get(pos as int),
            el is Some <==> pos < self.spec_arity(),
    {
        match (*self, pos) {
            (StateValue::Single(el), 0)
            | (StateValue::Double(el, _), 0)
            | (StateValue::Three(el, _, _), 0)
            | (StateValue::Four(el, _, _, _), 0) => Some(el),
            (StateValue::Double(_, el), 1)
            | (StateValue::Three(_, el, _), 1)
            | (StateValue::Four(_, el, _, _), 1) => Some(el),
            (StateValue::Three(_, _, el), 2) | (StateValue::Four(_, _, el, _), 2) => Some(el),
            (StateValue::Four(_, _, _, el), 3) => Some(el),
            _ => None,
        }
    }
}

impl StateValue {
    /// The bytes of field elements one after another.
    pub open spec fn elements_encoding(elements: Seq<fe128>) -> Seq<u8>
        decreases elements.len(),
    {
        if elements.len() == 0 {
            Seq::empty()
        } else {
            Self::elements_encoding(elements.drop_last()) + elements.last().encoding()
        }
    }

    /// The value made of the given elements, where there are at most four.
    pub open spec fn of_elements(elements: Seq<fe128>) -> StateValue {
        if elements.len() == 0 {
            StateValue::Empty
        } else if elements.len() == 1 {
            StateValue::Single(elements[0])
        } else if elements.len() == 2 {
            StateValue::Double(elements[0], elements[1])
        } else if elements.len() == 3 {
            StateValue::Three(elements[0], elements[1], elements[2])
        } else {
            StateValue::Four(elements[0], elements[1], elements[2], elements[3])
        }
    }

    /// A value is made of its elements.
    pub proof fn lemma_of_elements(self)
        ensures
            Self::of_elements(self.elements()) == self,
            self.spec_arity() <= 4,
    {
    }

    /// Each element takes 16 bytes.
    pub proof fn lemma_elements_encoding_len(elements: Seq<fe128>)
        ensures
            Self::elements_encoding(elements).len() == 16 * elements.len(),
        decreases elements.len(),
    {
        if elements.len() > 0 {
            Self::lemma_elements_encoding_len(elements.drop_last());
            lemma_le_bytes_len(elements.last().0 as nat, 16);
        }
    }

    /// The same bytes hold the same elements.
    pub proof fn lemma_elements_encoding_injective(a: Seq<fe128>, b: Seq<fe128>)
        requires
            a.len() == b.len(),
            Self::elements_encoding(a) == Self::elements_encoding(b),
        ensures
            a == b,
        decreases a.len(),
    {
        if a.len() > 0 {
            let (ea, eb) = (Self::elements_encoding(a), Self::elements_encoding(b));
            let (pa, pb) = (
                Self::elements_encoding(a.drop_last()),
                Self::elements_encoding(b.drop_last()),
            );
            Self::lemma_elements_encoding_len(a.drop_last());
            Self::lemma_elements_encoding_len(b.drop_last());
            lemma_le_bytes_len(a.last().0 as nat, 16);
            lemma_le_bytes_len(b.last().0 as nat, 16);
            let cut = pa.len() as int;
            assert(ea.subrange(0, cut) =~= pa);
            assert(eb.subrange(0, cut) =~= pb);
            assert(ea.subrange(cut, ea.len() as int) =~= a.last().encoding());
            assert(eb.subrange(cut, eb.len() as int) =~= b.last().encoding());
            a.last().lemma_encoding_injective(&b.last());
            Self::lemma_elements_encoding_injective(a.drop_last(), b.drop_last());
            assert(a =~= a.drop_last().push(a.last()));
            assert(b =~= b.drop_last().push(b.last()));
        } else {
            assert(a =~= b);
        }
    }
}

impl Canonical for StateValue {
    /// One byte which tells the arity, from 0 to 4, and then 16 bytes for each element.
    open spec fn encoding(&self) -> Seq<u8> {
        seq![self.spec_arity() as u8] + Self::elements_encoding(self.elements())
    }

    open spec fn canonical(&self) -> bool {
        true
    }

    open spec fn same(&self, other: &Self) -> bool {
        *self == *other
    }

    open spec fn scan(bytes: Seq<u8>) -> Scan {
        if bytes.len() == 0 {
            Scan::UnexpectedEof
        } else if bytes[0] > 4 {
            Scan::InvalidTag(bytes[0])
        } else {
            scan_fixed(bytes, (1 + 16 * bytes[0]) as nat)
        }
    }

    fn encode(&self, out: &mut Vec<u8>) {
        out.push(self.arity());
        let ghost start = out@;
        let mut i: u8 = 0;
        assert(self.elements().take(0) =~= Seq::<fe128>::empty());
        while i < self.arity()
            invariant
                i <= self.spec_arity() <= 4,
                out@ == start + Self::elements_encoding(self.elements().take(i as int)),
            decreases self.spec_arity() - i,
        {
            let ghost before = out@;
            match self.get(i) {
                Some(el) => {
                    el.encode(out);
                },
                None => {},
            }
            proof {
                let now = self.elements().take(i + 1);
                assert(now.drop_last() =~= self.elements().take(i as int));
                assert(now.last() == self.elements()[i as int]);
                assert(out@ =~= start + Self::elements_encoding(now));
            }
            i += 1;
        }
        proof {
            assert(self.elements().take(i as int) =~= self.elements());
            assert(out@ =~= old(out)@ + self.encoding());
        }
    }

    fn decode(bytes: &[u8], pos: usize) -> (r: Result<(Self, usize), DecodeError>) {
        if pos >= bytes.len() {
            return Err(DecodeError::UnexpectedEof);
        }
        let tag = bytes[pos];
        if tag > 4 {
            return Err(DecodeError::InvalidTag(tag));
        }
        let arity = tag as usize;
        if bytes.len() - pos < 1 + 16 * arity {
            return Err(DecodeError::UnexpectedEof);
        }
        let mut elements: Vec<fe128> = Vec::new();
        let mut at: usize = pos + 1;
        let end: usize = pos + 1 + 16 * arity;
        assert(bytes@.subrange(pos + 1, at as int) =~= Seq::<u8>::empty());
        while elements.len() < arity
            invariant
                arity <= 4,
                elements@.len() <= arity,
                at == pos + 1 + 16 * elements@.len(),
                end == pos + 1 + 16 * arity,
                end <= bytes@.len(),
                Self::elements_encoding(elements@) == bytes@.subrange(pos + 1, at as int),
            decreases arity - elements@.len(),
        {
            match fe128::decode(bytes, at) {
                Ok((el, next)) => {
                    proof {
                        let now = elements@.push(el);
                        assert(now.drop_last() =~= elements@);
                        assert(Self::elements_encoding(now) =~= bytes@.subrange(
                            pos + 1,
                            next as int,
                        ));
                    }
                    elements.push(el);
                    at = next;
                },
                Err(e) => {
                    return Err(e);
                },
            }
        }
        let value = if arity == 0 {
            StateValue::Empty
        } else if arity == 1 {
            StateValue::Single(elements[0])
        } else if arity == 2 {
            StateValue::Double(elements[0], elements[1])
        } else if arity == 3 {
            StateValue::Three(elements[0], elements[1], elements[2])
        } else {
            StateValue::Four(elements[0], elements[1], elements[2], elements[3])
        };
        proof {
            assert(value.elements() =~= elements@);
            assert(value.encoding() =~= bytes@.subrange(pos as int, end as int));
        }
        Ok((value, end))
    }

    proof fn lemma_scan_encoding(&self, rest: Seq<u8>) {
        Self::lemma_elements_encoding_len(self.elements());
    }

    proof fn lemma_encoding_injective(&self, other: &Self) {
        let (a, b) = (self.encoding(), other.encoding());
        Self::lemma_elements_encoding_len(self.elements());
        Self::lemma_elements_encoding_len(other.elements());
        assert(a[0] == b[0]);
        assert(a.skip(1) =~= Self::elements_encoding(self.elements()));
        assert(b.skip(1) =~= Self::elements_encoding(other.elements()));
        Self::lemma_elements_encoding_injective(self.elements(), other.elements());
        self.lemma_of_elements();
        other.lemma_of_elements();
    }
}

/// Token which authorises the spending of a destructible cell: the first 30 bytes of a SHA-256
/// digest.
#[derive(Copy, Clone, Eq, Hash, Debug)]
pub struct AuthToken(pub [u8; 30]);

impl AuthToken {
    /// The token which a SHA-256 digest gives: its first 30 bytes.
    pub fn from_digest(digest: &[u8; 32]) -> (token: AuthToken)
        ensures
            token.0@ == digest@.take(30),
    {
        let mut bytes = [0u8; 30];
        let mut i: usize = 0;
        while i < 30
            invariant
                i <= 30,
                forall|k: int| 0 <= k < i ==> bytes@[k] == digest@[k],
            decreases 30 - i,
        {
            bytes[i] = digest[i];
            i += 1;
        }
        assert(bytes@ =~= digest@.take(30));
        AuthToken(bytes)
    }
}

impl PartialEq for AuthToken {
    fn eq(&self, other: &Self) -> (same: bool) {
        bytes_eq(&self.0, &other.0)
    }
}

impl PartialEqSpecImpl for AuthToken {
    open spec fn obeys_eq_spec() -> bool {
        true
    }

    open spec fn eq_spec(&self, other: &Self) -> bool {
        self.0 == other.0
    }
}

/// Free-form bytes attached to an immutable cell, at most [`RAW_DATA_MAX_LEN`] of them.
#[derive(PartialEq, Eq, Hash, Debug)]
pub struct RawData {
    bytes: Vec<u8>,
}

impl Clone for RawData {
    fn clone(&self) -> (copy: Self)
        ensures
            copy@ == self@,
    {
        proof {
            use_type_invariant(self);
        }
        RawData { bytes: self.bytes.clone() }
    }
}

impl View for RawData {
    type V = Seq<u8>;

    closed spec fn view(&self) -> Seq<u8> {
        self.bytes@
    }
}

impl RawData {
    #[verifier::type_invariant]
    spec fn bounded(self) -> bool {
        self.bytes@.len() <= RAW_DATA_MAX_LEN
    }

    /// Takes the bytes, unless there are more of them than a cell can carry.
    pub fn new(bytes: Vec<u8>) -> (raw: Option<RawData>)
        ensures
            raw is Some <==> bytes@.len() <= RAW_DATA_MAX_LEN,
            raw matches Some(r) ==> r@ == bytes@,
    {
        if bytes.len() <= RAW_DATA_MAX_LEN {
            Some(RawData { bytes })
        } else {
            None
        }
    }

    /// The bytes held.
    pub fn as_slice(&self) -> (bytes: &[u8])
        ensures
            bytes@ == self@,
            bytes@.len() <= RAW_DATA_MAX_LEN,
    {
        proof {
            use_type_invariant(self);
        }
        self.bytes.as_slice()
    }
}

/// Read-once memory cell: a destructible output of an operation.
#[derive(Copy, Clone, PartialEq, Eq, Hash, Debug)]
pub struct StateCell {
    /// The value held by the cell.
    pub data: StateValue,
    /// Commitment to the single-use seal which closes the cell.
    pub seal: fe128,
    /// Program which has to succeed before the cell is spent, where there is one.
    pub lock: Option<LibSite>,
}

/// Append-only memory cell: an immutable output of an operation.
#[derive(PartialEq, Eq, Hash, Debug)]
pub struct StateData {
    /// The value held by the cell.
    pub value: StateValue,
    /// Token which authorises the use of the cell.
    pub auth: AuthToken,
    /// Free-form data committed to by the cell.
    pub raw: Option<RawData>,
}

impl Clone for StateData {
    fn clone(&self) -> (copy: Self)
        ensures
            copy@ == self@,
    {
        StateData {
            value: self.value,
            auth: self.auth,
            raw: match &self.raw {
                Some(raw) => Some(raw.clone()),
                None => None,
            },
        }
    }
}

/// What an immutable cell holds.
pub struct StateDataView {
    pub value: StateValue,
    pub auth: AuthToken,
    pub raw: Option<Seq<u8>>,
}

impl View for StateData {
    type V = StateDataView;

    open spec fn view(&self) -> StateDataView {
        StateDataView {
            value: self.value,
            auth: self.auth,
            raw: match self.raw {
                Some(raw) => Some(raw@),
                None => None,
            },
        }
    }
}

impl StateData {
    /// Field element of the cell's value at the position `pos`, if the value has that many.
    pub fn get(&self, pos: u8) -> (el: Option<fe128>)
        ensures
            el == self.value.spec_get(pos as int),
            el is Some <==> pos < self.value.spec_arity(),
    {
        self.value.get(pos)
    }
}

impl Canonical for AuthToken {
    /// The 30 bytes of the token.
    open spec fn encoding(&self) -> Seq<u8> {
        self.0.encoding()
    }

    open spec fn canonical(&self) -> bool {
        true
    }

    open spec fn same(&self, other: &Self) -> bool {
        *self == *other
    }

    open spec fn scan(bytes: Seq<u8>) -> Scan {
        <[u8; 30]>::scan(bytes)
    }

    fn encode(&self, out: &mut Vec<u8>) {
        self.0.encode(out);
    }

    fn decode(bytes: &[u8], pos: usize) -> (r: Result<(Self, usize), DecodeError>) {
        match <[u8; 30]>::decode(bytes, pos) {
            Ok((token, end)) => Ok((AuthToken(token), end)),
            Err(e) => Err(e),
        }
    }

    proof fn lemma_scan_encoding(&self, rest: Seq<u8>) {
        self.0.lemma_scan_encoding(rest);
    }

    proof fn lemma_encoding_injective(&self, other: &Self) {
        self.0.lemma_encoding_injective(&other.0);
    }
}

impl Canonical for RawData {
    /// The number of bytes in two bytes, and then the bytes.
    open spec fn encoding(&self) -> Seq<u8> {
        u16_bytes(self@.len() as u16) + self@
    }

    open spec fn canonical(&self) -> bool {
        self@.len() <= RAW_DATA_MAX_LEN
    }

    open spec fn same(&self, other: &Self) -> bool {
        self@ == other@
    }

    open spec fn scan(bytes: Seq<u8>) -> Scan {
        if bytes.len() < 2 {
            Scan::UnexpectedEof
        } else {
            scan_fixed(bytes, 2 + le_value(bytes.subrange(0, 2)))
        }
    }

    fn encode(&self, out: &mut Vec<u8>) {
        let bytes = self.as_slice();
        (bytes.len() as u16).encode(out);
        push_bytes(out, bytes);
        assert(out@ =~= old(out)@ + self.encoding());
    }

    fn decode(bytes: &[u8], pos: usize) -> (r: Result<(Self, usize), DecodeError>) {
        let (len, start) = match u16::decode(bytes, pos) {
            Ok(found) => found,
            Err(e) => {
                return Err(e);
            },
        };
        let len = len as usize;
        proof {
            lemma_pow256_values();
            lemma_le_value_of_bytes(len as nat, 2);
            assert(bytes@.skip(pos as int).subrange(0, 2) =~= bytes@.subrange(
                pos as int,
                start as int,
            ));
        }
        if bytes.len() - start < len {
            return Err(DecodeError::UnexpectedEof);
        }
        let end = start + len;
        let mut data: Vec<u8> = Vec::new();
        push_bytes(&mut data, slice_subrange(bytes, start, end));
        proof {
            assert(data@ =~= bytes@.subrange(start as int, end as int));
            lemma_subrange_join(bytes@, pos as int, start as int, end as int);
        }
        Ok((RawData { bytes: data }, end))
    }

    proof fn lemma_scan_encoding(&self, rest: Seq<u8>) {
        lemma_pow256_values();
        lemma_le_bytes_len(self@.len(), 2);
        lemma_le_value_of_bytes(self@.len(), 2);
        assert((self.encoding() + rest).subrange(0, 2) =~= u16_bytes(self@.len() as u16));
    }

    proof fn lemma_encoding_injective(&self, other: &Self) {
        lemma_le_bytes_len(self@.len(), 2);
        lemma_le_bytes_len(other@.len(), 2);
        assert(self.encoding().skip(2) =~= self@);
        assert(other.encoding().skip(2) =~= other@);
    }
}

impl StateCell {
    /// The fields in the order of the layout.
    pub open spec fn fields(self) -> (StateValue, (fe128, Option<LibSite>)) {
        (self.data, (self.seal, self.lock))
    }
}

impl Canonical for StateCell {
    /// The value, the seal, and the lock as an optional place in a library.
    open spec fn encoding(&self) -> Seq<u8> {
        self.fields().encoding()
    }

    open spec fn canonical(&self) -> bool {
        true
    }

    open spec fn same(&self, other: &Self) -> bool {
        *self == *other
    }

    open spec fn scan(bytes: Seq<u8>) -> Scan {
        <(StateValue, (fe128, Option<LibSite>))>::scan(bytes)
    }

    fn encode(&self, out: &mut Vec<u8>) {
        self.data.encode(out);
        self.seal.encode(out);
        self.lock.encode(out);
        assert(out@ =~= old(out)@ + self.encoding());
    }

    fn decode(bytes: &[u8], pos: usize) -> (r: Result<(Self, usize), DecodeError>) {
        match <(StateValue, (fe128, Option<LibSite>))>::decode(bytes, pos) {
            Ok(((data, (seal, lock)), end)) => Ok((StateCell { data, seal, lock }, end)),
            Err(e) => Err(e),
        }
    }

    proof fn lemma_scan_encoding(&self, rest: Seq<u8>) {
        self.fields().lemma_scan_encoding(rest);
    }

    proof fn lemma_encoding_injective(&self, other: &Self) {
        self.fields().lemma_encoding_injective(&other.fields());
    }
}

impl StateData {
    /// The fields in the order of the layout.
    pub open spec fn fields(self) -> (StateValue, (AuthToken, Option<RawData>)) {
        (self.value, (self.auth, self.raw))
    }
}

impl Canonical for StateData {
    /// The value, the token, and the free-form data as an optional run of bytes.
    open spec fn encoding(&self) -> Seq<u8> {
        self.fields().encoding()
    }

    open spec fn canonical(&self) -> bool {
        self.fields().canonical()
    }

    /// The same value and token, and free-form data of the same bytes.
    open spec fn same(&self, other: &Self) -> bool {
        self.fields().same(&other.fields())
    }

    open spec fn scan(bytes: Seq<u8>) -> Scan {
        <(StateValue, (AuthToken, Option<RawData>))>::scan(bytes)
    }

    fn encode(&self, out: &mut Vec<u8>) {
        self.value.encode(out);
        self.auth.encode(out);
        self.raw.encode(out);
        assert(out@ =~= old(out)@ + self.encoding());
    }

    fn decode(bytes: &[u8], pos: usize) -> (r: Result<(Self, usize), DecodeError>) {
        match <(StateValue, (AuthToken, Option<RawData>))>::decode(bytes, pos) {
            Ok(((value, (auth, raw)), end)) => Ok((StateData { value, auth, raw }, end)),
            Err(e) => Err(e),
        }
    }

    proof fn lemma_scan_encoding(&self, rest: Seq<u8>) {
        self.fields().lemma_scan_encoding(rest);
    }

    proof fn lemma_encoding_injective(&self, other: &Self) {
        self.fields().lemma_encoding_injective(&other.fields());
    }
}

} // verus!
