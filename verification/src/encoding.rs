//! The canonical layout of values in bytes: little-endian numbers of fixed width, sequences and
//! texts behind a 16-bit length, one byte to tell the variants of an enumeration.

use vstd::prelude::*;

verus! {

/// Largest number of items of a sequence, and of bytes of a text, which the layout can hold.
pub const SEQ_MAX_LEN: usize = 0xFFFF;

/// Why bytes could not be decoded.
#[derive(Clone, PartialEq, Eq, Debug)]
pub enum DecodeError {
    /// The bytes end before the value does.
    UnexpectedEof,
    /// A byte which tells a variant is none of those which the type has.
    InvalidTag(u8),
    /// A text is longer than its field admits.
    OverLimit,
    /// A text is not valid UTF-8.
    InvalidUtf8,
    /// The bytes hold a value which the type excludes; the text says which.
    DataIntegrityError(String),
}

/// What a scan of bytes finds: how many of them make up the value, or why no value is there.
pub enum Scan {
    /// A value takes up this many bytes.
    Found(nat),
    /// The bytes end before the value does.
    UnexpectedEof,
    /// A byte which tells a variant is none of those which the type has.
    InvalidTag(u8),
    /// A text is longer than its field admits.
    OverLimit,
    /// A text is not valid UTF-8.
    InvalidUtf8,
    /// The bytes hold a value which the type excludes; the text says which.
    DataIntegrityError(Seq<char>),
}

impl DecodeError {
    /// The failed scan which the error stands for.
    pub open spec fn scan(self) -> Scan {
        match self {
            DecodeError::UnexpectedEof => Scan::UnexpectedEof,
            DecodeError::InvalidTag(tag) => Scan::InvalidTag(tag),
            DecodeError::OverLimit => Scan::OverLimit,
            DecodeError::InvalidUtf8 => Scan::InvalidUtf8,
            DecodeError::DataIntegrityError(text) => Scan::DataIntegrityError(text@),
        }
    }
}

impl Scan {
    /// The scan of a value which lies `offset` bytes further on.
    pub open spec fn shift(self, offset: nat) -> Scan {
        match self {
            Scan::Found(len) => Scan::Found(offset + len),
            _ => self,
        }
    }
}

/// 256 to the power of `width`.
pub open spec fn pow256(width: nat) -> nat
    decreases width,
{
    if width == 0 {
        1
    } else {
        256 * pow256((width - 1) as nat)
    }
}

/// The `width` little-endian bytes of a number.
pub open spec fn le_bytes(value: nat, width: nat) -> Seq<u8>
    decreases width,
{
    if width == 0 {
        Seq::empty()
    } else {
        seq![(value % 256) as u8] + le_bytes(value / 256, (width - 1) as nat)
    }
}

/// The number which little-endian bytes stand for.
pub open spec fn le_value(bytes: Seq<u8>) -> nat
    decreases bytes.len(),
{
    if bytes.len() == 0 {
        0
    } else {
        bytes[0] as nat + 256 * le_value(bytes.skip(1))
    }
}

/// A number has as many little-endian bytes as asked for.
pub proof fn lemma_le_bytes_len(value: nat, width: nat)
    ensures
        le_bytes(value, width).len() == width,
    decreases width,
{
    if width > 0 {
        lemma_le_bytes_len(value / 256, (width - 1) as nat);
    }
}

/// Little-endian bytes stand for a number below 256 to the power of their count.
pub proof fn lemma_le_value_bound(bytes: Seq<u8>)
    ensures
        le_value(bytes) < pow256(bytes.len()),
    decreases bytes.len(),
{
    if bytes.len() > 0 {
        lemma_le_value_bound(bytes.skip(1));
    }
}

/// A number which fits the width comes back from its little-endian bytes.
pub proof fn lemma_le_value_of_bytes(value: nat, width: nat)
    requires
        value < pow256(width),
    ensures
        le_value(le_bytes(value, width)) == value,
    decreases width,
{
    if width > 0 {
        let rest = le_bytes(value / 256, (width - 1) as nat);
        let bytes = le_bytes(value, width);
        assert(bytes.skip(1) =~= rest);
        lemma_le_value_of_bytes(value / 256, (width - 1) as nat);
    }
}

/// Little-endian bytes come back from the number they stand for.
pub proof fn lemma_le_bytes_of_value(bytes: Seq<u8>)
    ensures
        le_bytes(le_value(bytes), bytes.len()) == bytes,
    decreases bytes.len(),
{
    if bytes.len() > 0 {
        let rest = bytes.skip(1);
        lemma_le_bytes_of_value(rest);
        let value = le_value(bytes);
        assert(value % 256 == bytes[0] as nat);
        assert(value / 256 == le_value(rest));
        assert(le_bytes(value, bytes.len()) =~= bytes);
    }
}

/// The powers of 256 which the widths of the layout need.
pub proof fn lemma_pow256_values()
    ensures
        pow256(1) == 0x100,
        pow256(2) == 0x1_0000,
        pow256(8) == 0x1_0000_0000_0000_0000,
        pow256(16) == 0x1_0000_0000_0000_0000_0000_0000_0000_0000,
{
    reveal_with_fuel(pow256, 17);
}

/// The number which stands for a signed 64-bit number in two's complement.
pub open spec fn twos_complement(value: i64) -> nat {
    if value >= 0 {
        value as nat
    } else {
        (value + 0x1_0000_0000_0000_0000) as nat
    }
}

/// The canonical bytes of a 16-bit number.
pub open spec fn u16_bytes(value: u16) -> Seq<u8> {
    le_bytes(value as nat, 2)
}

/// The canonical bytes of a 64-bit number.
pub open spec fn u64_bytes(value: u64) -> Seq<u8> {
    le_bytes(value as nat, 8)
}

/// The canonical bytes of a signed 64-bit number.
pub open spec fn i64_bytes(value: i64) -> Seq<u8> {
    le_bytes(twos_complement(value), 8)
}

/// The canonical bytes of a 128-bit number.
pub open spec fn u128_bytes(value: u128) -> Seq<u8> {
    le_bytes(value as nat, 16)
}

/// Appends the `width` little-endian bytes of a number.
pub fn push_le(out: &mut Vec<u8>, value: u128, width: usize)
    requires
        width <= 16,
    ensures
        final(out)@ == old(out)@ + le_bytes(value as nat, width as nat),
{
    let mut rest: u128 = value;
    let mut i: usize = 0;
    assert(old(out)@ + le_bytes(value as nat, 0) =~= old(out)@);
    while i < width
        invariant
            i <= width,
            old(out)@ + le_bytes(value as nat, width as nat) == out@ + le_bytes(
                rest as nat,
                (width - i) as nat,
            ),
        decreases width - i,
    {
        let ghost before = out@;
        out.push((rest % 256) as u8);
        proof {
            let tail = le_bytes((rest / 256) as nat, (width - i - 1) as nat);
            assert(le_bytes(rest as nat, (width - i) as nat) == seq![(rest % 256) as u8] + tail);
            assert(before + (seq![(rest % 256) as u8] + tail) =~= out@ + tail);
        }
        rest = rest / 256;
        i += 1;
    }
    assert(out@ + le_bytes(rest as nat, 0) =~= out@);
}

/// Reads the number which `width` little-endian bytes from `pos` on stand for.
pub fn read_le(bytes: &[u8], pos: usize, width: usize) -> (value: u128)
    requires
        width <= 16,
        pos + width <= bytes@.len(),
    ensures
        value == le_value(bytes@.subrange(pos as int, pos + width)),
{
    let len = bytes.len();
    let mut value: u128 = 0;
    let mut i: usize = width;
    let ghost all = bytes@.subrange(pos as int, pos + width);
    assert(all.subrange(width as int, width as int) =~= Seq::<u8>::empty());
    while i > 0
        invariant
            i <= width,
            width <= 16,
            pos + width <= bytes@.len(),
            len == bytes@.len(),
            all == bytes@.subrange(pos as int, pos + width),
            value == le_value(all.subrange(i as int, width as int)),
        decreases i,
    {
        i -= 1;
        proof {
            let part = all.subrange(i as int, width as int);
            assert(part.skip(1) =~= all.subrange(i + 1, width as int));
            assert(part[0] == bytes@[pos + i]);
            lemma_le_value_bound(all.subrange(i + 1, width as int));
            lemma_pow256_monotone((width - i - 1) as nat, 15);
            lemma_pow256_values();
            reveal_with_fuel(pow256, 16);
        }
        value = value * 256 + bytes[pos + i] as u128;
    }
    assert(all.subrange(0, width as int) =~= all);
    value
}

/// The powers of 256 rise.
pub proof fn lemma_pow256_monotone(a: nat, b: nat)
    requires
        a <= b,
    ensures
        pow256(a) <= pow256(b),
    decreases b,
{
    if a < b {
        lemma_pow256_monotone(a, (b - 1) as nat);
    }
}

/// A type with a canonical layout in bytes.
pub trait Canonical: Sized {
    /// The canonical bytes of the value.
    spec fn encoding(&self) -> Seq<u8>;

    /// Whether the value is within the limits which the layout sets to lengths.
    spec fn canonical(&self) -> bool;

    /// Whether two values are the same in everything that the layout holds.
    spec fn same(&self, other: &Self) -> bool;

    /// What a decoder finds at the start of the bytes: the length of a value of the type, or
    /// the reason why there is none.
    spec fn scan(bytes: Seq<u8>) -> Scan;

    /// Appends the canonical bytes of the value.
    fn encode(&self, out: &mut Vec<u8>)
        ensures
            final(out)@ == old(out)@ + self.encoding(),
    ;

    /// Decodes the value which starts at `pos`, and tells where it ends.
    fn decode(bytes: &[u8], pos: usize) -> (r: Result<(Self, usize), DecodeError>)
        requires
            pos <= bytes@.len(),
        ensures
            match r {
                Ok((value, end)) => {
                    &&& pos <= end <= bytes@.len()
                    &&& Self::scan(bytes@.skip(pos as int)) == Scan::Found((end - pos) as nat)
                    &&& value.encoding() == bytes@.subrange(pos as int, end as int)
                    &&& value.canonical()
                },
                Err(e) => Self::scan(bytes@.skip(pos as int)) == e.scan(),
            },
    ;

    /// The canonical bytes of a value are found again at the start of whatever they are
    /// followed by.
    proof fn lemma_scan_encoding(&self, rest: Seq<u8>)
        requires
            self.canonical(),
        ensures
            Self::scan(self.encoding() + rest) == Scan::Found(self.encoding().len()),
    ;

    /// Values with the same canonical bytes are the same.
    proof fn lemma_encoding_injective(&self, other: &Self)
        requires
            self.canonical(),
            other.canonical(),
            self.encoding() == other.encoding(),
        ensures
            self.same(other),
    ;
}

/// What a decoder owes: where the scan finds a value, that value and its end; else the error
/// which the scan gives.
pub open spec fn decoded<T: Canonical>(
    bytes: Seq<u8>,
    pos: usize,
    r: Result<(T, usize), DecodeError>,
) -> bool {
    match r {
        Ok((value, end)) => {
            &&& pos <= end <= bytes.len()
            &&& T::scan(bytes.skip(pos as int)) == Scan::Found((end - pos) as nat)
            &&& value.encoding() == bytes.subrange(pos as int, end as int)
            &&& value.canonical()
        },
        Err(e) => T::scan(bytes.skip(pos as int)) == e.scan(),
    }
}

/// Decoding undoes encoding: what is decoded from the canonical bytes of a value, whatever
/// follows them, is the same as the value, and ends where its bytes end.
pub proof fn lemma_decode_encode<T: Canonical>(
    value: T,
    rest: Seq<u8>,
    r: Result<(T, usize), DecodeError>,
)
    requires
        value.canonical(),
        decoded(value.encoding() + rest, 0, r),
    ensures
        r matches Ok((back, end)) && back.same(&value) && end == value.encoding().len(),
{
    let bytes = value.encoding() + rest;
    value.lemma_scan_encoding(rest);
    assert(bytes.skip(0) =~= bytes);
    match r {
        Ok((back, end)) => {
            assert(bytes.subrange(0, end as int) =~= value.encoding());
            back.lemma_encoding_injective(&value);
        },
        Err(e) => {},
    }
}

/// The scan of a value of fixed width: all its bytes have to be there.
pub open spec fn scan_fixed(bytes: Seq<u8>, width: nat) -> Scan {
    if bytes.len() >= width {
        Scan::Found(width)
    } else {
        Scan::UnexpectedEof
    }
}

/// Decodes a number of `width` little-endian bytes.
pub fn decode_le(bytes: &[u8], pos: usize, width: usize) -> (r: Result<(u128, usize), DecodeError>)
    requires
        pos <= bytes@.len(),
        width <= 16,
    ensures
        match r {
            Ok((value, end)) => {
                &&& end == pos + width
                &&& end <= bytes@.len()
                &&& value < pow256(width as nat)
                &&& le_bytes(value as nat, width as nat) == bytes@.subrange(pos as int, end as int)
            },
            Err(e) => e == DecodeError::UnexpectedEof && bytes@.len() < pos + width,
        },
{
    if bytes.len() - pos < width {
        return Err(DecodeError::UnexpectedEof);
    }
    let value = read_le(bytes, pos, width);
    proof {
        let part = bytes@.subrange(pos as int, pos + width);
        lemma_le_value_bound(part);
        lemma_le_bytes_of_value(part);
    }
    Ok((value, pos + width))
}

/// Tells whether two byte arrays hold the same bytes.
pub fn bytes_eq<const N: usize>(a: &[u8; N], b: &[u8; N]) -> (same: bool)
    ensures
        same == (a@ == b@),
        same == (*a == *b),
{
    let mut i: usize = 0;
    while i < N
        invariant
            i <= N,
            forall|k: int| 0 <= k < i ==> a@[k] == b@[k],
        decreases N - i,
    {
        if a[i] != b[i] {
            return false;
        }
        i += 1;
    }
    assert(a@ =~= b@);
    assert(*a =~= *b);
    true
}

/// Appends the bytes of a slice.
pub fn push_bytes(out: &mut Vec<u8>, bytes: &[u8])
    ensures
        final(out)@ == old(out)@ + bytes@,
{
    let mut i: usize = 0;
    assert(old(out)@ + bytes@.subrange(0, 0) =~= old(out)@);
    while i < bytes.len()
        invariant
            i <= bytes@.len(),
            out@ == old(out)@ + bytes@.subrange(0, i as int),
        decreases bytes@.len() - i,
    {
        out.push(bytes[i]);
        i += 1;
        assert(out@ =~= old(out)@ + bytes@.subrange(0, i as int));
    }
    assert(bytes@.subrange(0, bytes@.len() as int) =~= bytes@);
}

/// Decodes `N` raw bytes.
pub fn decode_array<const N: usize>(bytes: &[u8], pos: usize) -> (r: Result<
    ([u8; N], usize),
    DecodeError,
>)
    requires
        pos <= bytes@.len(),
    ensures
        match r {
            Ok((array, end)) => {
                &&& end == pos + N
                &&& end <= bytes@.len()
                &&& array@ == bytes@.subrange(pos as int, end as int)
            },
            Err(e) => e == DecodeError::UnexpectedEof && bytes@.len() < pos + N,
        },
{
    let len = bytes.len();
    if len - pos < N {
        return Err(DecodeError::UnexpectedEof);
    }
    let mut array: [u8; N] = vstd::array::array_fill_for_copy_types(0u8);
    let mut i: usize = 0;
    while i < N
        invariant
            i <= N,
            pos + N <= bytes@.len(),
            len == bytes@.len(),
            forall|k: int| 0 <= k < i ==> array@[k] == bytes@[pos + k],
        decreases N - i,
    {
        array[i] = bytes[pos + i];
        i += 1;
    }
    assert(array@ =~= bytes@.subrange(pos as int, pos + N));
    Ok((array, pos + N))
}

/// The scan of a value which follows another: where the first was found, the scan of what
/// comes after it.
pub open spec fn scan_then(first: Scan, bytes: Seq<u8>, next: spec_fn(Seq<u8>) -> Scan) -> Scan {
    match first {
        Scan::Found(len) => next(bytes.skip(len as int)).shift(len),
        _ => first,
    }
}

/// A stretch of bytes is made of its two parts.
pub proof fn lemma_subrange_join(bytes: Seq<u8>, start: int, mid: int, end: int)
    requires
        0 <= start <= mid <= end <= bytes.len(),
    ensures
        bytes.subrange(start, mid) + bytes.subrange(mid, end) == bytes.subrange(start, end),
        bytes.skip(start).skip(mid - start) == bytes.skip(mid),
        bytes.skip(start).len() == bytes.len() - start,
{
    assert(bytes.subrange(start, mid) + bytes.subrange(mid, end) =~= bytes.subrange(start, end));
    assert(bytes.skip(start).skip(mid - start) =~= bytes.skip(mid));
}

/// What follows a value of known length in a run of bytes.
pub proof fn lemma_skip_concat(first: Seq<u8>, rest: Seq<u8>)
    ensures
        (first + rest).skip(first.len() as int) == rest,
        (first + rest).subrange(0, first.len() as int) == first,
{
    assert((first + rest).skip(first.len() as int) =~= rest);
    assert((first + rest).subrange(0, first.len() as int) =~= first);
}

impl Canonical for u16 {
    /// The two little-endian bytes of the number.
    open spec fn encoding(&self) -> Seq<u8> {
        u16_bytes(*self)
    }

    open spec fn canonical(&self) -> bool {
        true
    }

    open spec fn same(&self, other: &Self) -> bool {
        *self == *other
    }

    open spec fn scan(bytes: Seq<u8>) -> Scan {
        scan_fixed(bytes, 2)
    }

    fn encode(&self, out: &mut Vec<u8>) {
        push_le(out, *self as u128, 2);
    }

    fn decode(bytes: &[u8], pos: usize) -> (r: Result<(Self, usize), DecodeError>) {
        match decode_le(bytes, pos, 2) {
            Ok((value, end)) => {
                proof {
                    lemma_pow256_values();
                }
                Ok((value as u16, end))
            },
            Err(e) => Err(e),
        }
    }

    proof fn lemma_scan_encoding(&self, rest: Seq<u8>) {
        lemma_le_bytes_len(*self as nat, 2);
    }

    proof fn lemma_encoding_injective(&self, other: &Self) {
        lemma_pow256_values();
        lemma_le_value_of_bytes(*self as nat, 2);
        lemma_le_value_of_bytes(*other as nat, 2);
    }
}

impl Canonical for u64 {
    /// The eight little-endian bytes of the number.
    open spec fn encoding(&self) -> Seq<u8> {
        u64_bytes(*self)
    }

    open spec fn canonical(&self) -> bool {
        true
    }

    open spec fn same(&self, other: &Self) -> bool {
        *self == *other
    }

    open spec fn scan(bytes: Seq<u8>) -> Scan {
        scan_fixed(bytes, 8)
    }

    fn encode(&self, out: &mut Vec<u8>) {
        push_le(out, *self as u128, 8);
    }

    fn decode(bytes: &[u8], pos: usize) -> (r: Result<(Self, usize), DecodeError>) {
        match decode_le(bytes, pos, 8) {
            Ok((value, end)) => {
                proof {
                    lemma_pow256_values();
                }
                Ok((value as u64, end))
            },
            Err(e) => Err(e),
        }
    }

    proof fn lemma_scan_encoding(&self, rest: Seq<u8>) {
        lemma_le_bytes_len(*self as nat, 8);
    }

    proof fn lemma_encoding_injective(&self, other: &Self) {
        lemma_pow256_values();
        lemma_le_value_of_bytes(*self as nat, 8);
        lemma_le_value_of_bytes(*other as nat, 8);
    }
}

impl Canonical for i64 {
    /// The eight little-endian bytes of the number in two's complement.
    open spec fn encoding(&self) -> Seq<u8> {
        i64_bytes(*self)
    }

    open spec fn canonical(&self) -> bool {
        true
    }

    open spec fn same(&self, other: &Self) -> bool {
        *self == *other
    }

    open spec fn scan(bytes: Seq<u8>) -> Scan {
        scan_fixed(bytes, 8)
    }

    fn encode(&self, out: &mut Vec<u8>) {
        let bits: u64 = if *self >= 0 {
            *self as u64
        } else {
            ((*self + i64::MAX) + 1) as u64 + 0x8000_0000_0000_0000
        };
        push_le(out, bits as u128, 8);
    }

    fn decode(bytes: &[u8], pos: usize) -> (r: Result<(Self, usize), DecodeError>) {
        match decode_le(bytes, pos, 8) {
            Ok((bits, end)) => {
                proof {
                    lemma_pow256_values();
                }
                let value: i64 = if bits < 0x8000_0000_0000_0000 {
                    bits as i64
                } else {
                    ((bits - 0x8000_0000_0000_0000) as i64) + i64::MIN
                };
                assert(twos_complement(value) == bits);
                Ok((value, end))
            },
            Err(e) => Err(e),
        }
    }

    proof fn lemma_scan_encoding(&self, rest: Seq<u8>) {
        lemma_le_bytes_len(twos_complement(*self), 8);
    }

    proof fn lemma_encoding_injective(&self, other: &Self) {
        lemma_pow256_values();
        lemma_le_value_of_bytes(twos_complement(*self), 8);
        lemma_le_value_of_bytes(twos_complement(*other), 8);
    }
}

impl<T: Canonical> Canonical for Option<T> {
    /// One byte which is 0 where there is no value; else 1, and then the bytes of the value.
    open spec fn encoding(&self) -> Seq<u8> {
        match self {
            Some(value) => seq![1u8] + value.encoding(),
            None => seq![0u8],
        }
    }

    open spec fn canonical(&self) -> bool {
        match self {
            Some(value) => value.canonical(),
            None => true,
        }
    }

    open spec fn same(&self, other: &Self) -> bool {
        match (self, other) {
            (Some(a), Some(b)) => a.same(b),
            (None, None) => true,
            _ => false,
        }
    }

    open spec fn scan(bytes: Seq<u8>) -> Scan {
        if bytes.len() == 0 {
            Scan::UnexpectedEof
        } else if bytes[0] == 0 {
            Scan::Found(1)
        } else if bytes[0] == 1 {
            T::scan(bytes.skip(1)).shift(1)
        } else {
            Scan::InvalidTag(bytes[0])
        }
    }

    fn encode(&self, out: &mut Vec<u8>) {
        match self {
            Some(value) => {
                out.push(1);
                value.encode(out);
                assert(out@ =~= old(out)@ + self.encoding());
            },
            None => {
                out.push(0);
                assert(out@ =~= old(out)@ + self.encoding());
            },
        }
    }

    fn decode(bytes: &[u8], pos: usize) -> (r: Result<(Self, usize), DecodeError>) {
        if pos >= bytes.len() {
            return Err(DecodeError::UnexpectedEof);
        }
        let tag = bytes[pos];
        if tag == 0 {
            assert(bytes@.subrange(pos as int, pos + 1) =~= seq![0u8]);
            Ok((None, pos + 1))
        } else if tag == 1 {
            proof {
                lemma_subrange_join(bytes@, pos as int, pos + 1, bytes@.len() as int);
            }
            match T::decode(bytes, pos + 1) {
                Ok((value, end)) => {
                    proof {
                        lemma_subrange_join(bytes@, pos as int, pos + 1, end as int);
                        assert(bytes@.subrange(pos as int, pos + 1) =~= seq![1u8]);
                    }
                    Ok((Some(value), end))
                },
                Err(e) => Err(e),
            }
        } else {
            Err(DecodeError::InvalidTag(tag))
        }
    }

    proof fn lemma_scan_encoding(&self, rest: Seq<u8>) {
        match self {
            Some(value) => {
                value.lemma_scan_encoding(rest);
                assert((self.encoding() + rest).skip(1) =~= value.encoding() + rest);
            },
            None => {},
        }
    }

    proof fn lemma_encoding_injective(&self, other: &Self) {
        assert(self.encoding()[0] == (if self is Some { 1u8 } else { 0u8 }));
        assert(other.encoding()[0] == (if other is Some { 1u8 } else { 0u8 }));
        match (self, other) {
            (Some(a), Some(b)) => {
                assert(self.encoding().skip(1) =~= a.encoding());
                assert(other.encoding().skip(1) =~= b.encoding());
                a.lemma_encoding_injective(b);
            },
            _ => {},
        }
    }
}

impl<A: Canonical, B: Canonical> Canonical for (A, B) {
    /// The bytes of the first value, and then those of the second: the layout of the fields of
    /// a structure, one after another.
    open spec fn encoding(&self) -> Seq<u8> {
        self.0.encoding() + self.1.encoding()
    }

    open spec fn canonical(&self) -> bool {
        self.0.canonical() && self.1.canonical()
    }

    open spec fn same(&self, other: &Self) -> bool {
        self.0.same(&other.0) && self.1.same(&other.1)
    }

    open spec fn scan(bytes: Seq<u8>) -> Scan {
        scan_then(A::scan(bytes), bytes, |rest: Seq<u8>| B::scan(rest))
    }

    fn encode(&self, out: &mut Vec<u8>) {
        self.0.encode(out);
        self.1.encode(out);
        assert(out@ =~= old(out)@ + self.encoding());
    }

    fn decode(bytes: &[u8], pos: usize) -> (r: Result<(Self, usize), DecodeError>) {
        let (first, mid) = match A::decode(bytes, pos) {
            Ok(found) => found,
            Err(e) => {
                return Err(e);
            },
        };
        proof {
            lemma_subrange_join(bytes@, pos as int, mid as int, bytes@.len() as int);
        }
        match B::decode(bytes, mid) {
            Ok((second, end)) => {
                proof {
                    lemma_subrange_join(bytes@, pos as int, mid as int, end as int);
                }
                Ok(((first, second), end))
            },
            Err(e) => Err(e),
        }
    }

    proof fn lemma_scan_encoding(&self, rest: Seq<u8>) {
        let bytes = self.encoding() + rest;
        assert(bytes =~= self.0.encoding() + (self.1.encoding() + rest));
        self.0.lemma_scan_encoding(self.1.encoding() + rest);
        lemma_skip_concat(self.0.encoding(), self.1.encoding() + rest);
        self.1.lemma_scan_encoding(rest);
    }

    proof fn lemma_encoding_injective(&self, other: &Self) {
        let bytes = self.encoding();
        self.0.lemma_scan_encoding(self.1.encoding());
        other.0.lemma_scan_encoding(other.1.encoding());
        lemma_skip_concat(self.0.encoding(), self.1.encoding());
        lemma_skip_concat(other.0.encoding(), other.1.encoding());
        self.0.lemma_encoding_injective(&other.0);
        self.1.lemma_encoding_injective(&other.1);
    }
}

impl<const N: usize> Canonical for [u8; N] {
    /// The bytes themselves.
    open spec fn encoding(&self) -> Seq<u8> {
        self@
    }

    open spec fn canonical(&self) -> bool {
        true
    }

    open spec fn same(&self, other: &Self) -> bool {
        *self == *other
    }

    open spec fn scan(bytes: Seq<u8>) -> Scan {
        scan_fixed(bytes, N as nat)
    }

    fn encode(&self, out: &mut Vec<u8>) {
        push_bytes(out, self.as_slice());
    }

    fn decode(bytes: &[u8], pos: usize) -> (r: Result<(Self, usize), DecodeError>) {
        decode_array(bytes, pos)
    }

    proof fn lemma_scan_encoding(&self, rest: Seq<u8>) {
    }

    proof fn lemma_encoding_injective(&self, other: &Self) {
        assert(*self =~= *other);
    }
}

} // verus!
