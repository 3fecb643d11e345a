//! Sequences and texts which are confined to what a 16-bit length can count.

use vstd::prelude::*;
use vstd::slice::slice_subrange;
use vstd::string::StringSliceAdditionalSpecFns;
use vstd::utf8::{
    decode_utf8, decode_utf8_encode_utf8, encode_utf8, encode_utf8_decode_utf8,
    encode_utf8_valid_utf8, valid_utf8,
};

use crate::encoding::{
    le_value, lemma_le_bytes_len, lemma_le_value_of_bytes, lemma_pow256_values, lemma_skip_concat,
    lemma_subrange_join, push_bytes, u16_bytes, Canonical, DecodeError, Scan, SEQ_MAX_LEN,
};

verus! {

/// A sequence or a text has more items than a 16-bit length can count.
#[derive(Copy, Clone, PartialEq, Eq, Structural, Debug)]
pub struct OverLimit;

/// Sequence of at most 65535 items.
#[derive(PartialEq, Eq, Debug)]
pub struct SmallVec<T> {
    items: Vec<T>,
}

impl<T> View for SmallVec<T> {
    type V = Seq<T>;

    closed spec fn view(&self) -> Seq<T> {
        self.items@
    }
}

impl<T> SmallVec<T> {
    #[verifier::type_invariant]
    spec fn confined(self) -> bool {
        self.items@.len() <= SEQ_MAX_LEN
    }

    /// The empty sequence.
    pub fn new() -> (vec: SmallVec<T>)
        ensures
            vec@ == Seq::<T>::empty(),
    {
        SmallVec { items: Vec::new() }
    }

    /// Confines a vector, unless it is too long.
    pub fn try_from_vec(items: Vec<T>) -> (vec: Result<SmallVec<T>, OverLimit>)
        ensures
            vec is Ok <==> items@.len() <= SEQ_MAX_LEN,
            vec matches Ok(v) ==> v@ == items@,
    {
        if items.len() <= SEQ_MAX_LEN {
            Ok(SmallVec { items })
        } else {
            Err(OverLimit)
        }
    }

    /// Appends an item, unless the sequence is full: then nothing changes.
    pub fn push(&mut self, item: T) -> (r: Result<(), OverLimit>)
        ensures
            r is Ok <==> old(self)@.len() < SEQ_MAX_LEN,
            r is Ok ==> final(self)@ == old(self)@.push(item),
            r is Err ==> final(self)@ == old(self)@,
    {
        proof {
            use_type_invariant(&*self);
        }
        if self.items.len() < SEQ_MAX_LEN {
            let mut items: Vec<T> = Vec::new();
            core::mem::swap(&mut self.items, &mut items);
            items.push(item);
            core::mem::swap(&mut self.items, &mut items);
            Ok(())
        } else {
            Err(OverLimit)
        }
    }

    /// Number of items.
    pub fn len(&self) -> (n: usize)
        ensures
            n == self@.len(),
            n <= SEQ_MAX_LEN,
    {
        proof {
            use_type_invariant(self);
        }
        self.items.len()
    }

    /// The items.
    pub fn as_slice(&self) -> (items: &[T])
        ensures
            items@ == self@,
            items@.len() <= SEQ_MAX_LEN,
    {
        proof {
            use_type_invariant(self);
        }
        self.items.as_slice()
    }

    /// The item at a position.
    pub fn get(&self, i: usize) -> (item: Option<&T>)
        ensures
            item == (if i < self@.len() {
                Some(&self@[i as int])
            } else {
                None
            }),
    {
        if i < self.items.len() {
            Some(&self.items[i])
        } else {
            None
        }
    }
}

/// The bytes of items one after another.
pub open spec fn items_encoding<T: Canonical>(items: Seq<T>) -> Seq<u8>
    decreases items.len(),
{
    if items.len() == 0 {
        Seq::empty()
    } else {
        items_encoding(items.drop_last()) + items.last().encoding()
    }
}

/// The scan of `count` items one after another.
pub open spec fn scan_items<T: Canonical>(bytes: Seq<u8>, count: nat) -> Scan
    decreases count,
{
    if count == 0 {
        Scan::Found(0)
    } else {
        match T::scan(bytes) {
            Scan::Found(len) => scan_items::<T>(bytes.skip(len as int), (count - 1) as nat).shift(
                len,
            ),
            failed => failed,
        }
    }
}

/// The bytes of items begin with the bytes of the first item.
pub proof fn lemma_items_encoding_front<T: Canonical>(items: Seq<T>)
    requires
        items.len() > 0,
    ensures
        items_encoding(items) == items[0].encoding() + items_encoding(items.skip(1)),
    decreases items.len(),
{
    if items.len() == 1 {
        assert(items.drop_last() =~= Seq::<T>::empty());
        assert(items.skip(1) =~= Seq::<T>::empty());
        assert(items_encoding(items) =~= items[0].encoding() + items_encoding(items.skip(1)));
    } else {
        lemma_items_encoding_front(items.drop_last());
        assert(items.drop_last().skip(1) =~= items.skip(1).drop_last());
        assert(items.skip(1).last() == items.last());
        assert(items_encoding(items) =~= items[0].encoding() + items_encoding(items.skip(1)));
    }
}

/// The bytes of items are found again, item by item, at the start of whatever follows them.
pub proof fn lemma_scan_items_encoding<T: Canonical>(items: Seq<T>, rest: Seq<u8>)
    requires
        forall|i: int| 0 <= i < items.len() ==> (#[trigger] items[i]).canonical(),
    ensures
        scan_items::<T>(items_encoding(items) + rest, items.len()) == Scan::Found(
            items_encoding(items).len(),
        ),
    decreases items.len(),
{
    if items.len() > 0 {
        let tail = items.skip(1);
        lemma_items_encoding_front(items);
        let bytes = items_encoding(items) + rest;
        assert(bytes =~= items[0].encoding() + (items_encoding(tail) + rest));
        items[0].lemma_scan_encoding(items_encoding(tail) + rest);
        lemma_skip_concat(items[0].encoding(), items_encoding(tail) + rest);
        assert forall|i: int| 0 <= i < tail.len() implies (#[trigger] tail[i]).canonical() by {
            assert(tail[i] == items[i + 1]);
        }
        lemma_scan_items_encoding(tail, rest);
    } else {
        assert(items_encoding(items).len() == 0);
    }
}

/// As many items with the same bytes are the same items.
pub proof fn lemma_items_encoding_injective<T: Canonical>(a: Seq<T>, b: Seq<T>)
    requires
        a.len() == b.len(),
        forall|i: int| 0 <= i < a.len() ==> (#[trigger] a[i]).canonical(),
        forall|i: int| 0 <= i < b.len() ==> (#[trigger] b[i]).canonical(),
        items_encoding(a) == items_encoding(b),
    ensures
        forall|i: int| 0 <= i < a.len() ==> (#[trigger] a[i]).same(&b[i]),
    decreases a.len(),
{
    if a.len() > 0 {
        let (ta, tb) = (a.skip(1), b.skip(1));
        lemma_items_encoding_front(a);
        lemma_items_encoding_front(b);
        a[0].lemma_scan_encoding(items_encoding(ta));
        b[0].lemma_scan_encoding(items_encoding(tb));
        lemma_skip_concat(a[0].encoding(), items_encoding(ta));
        lemma_skip_concat(b[0].encoding(), items_encoding(tb));
        a[0].lemma_encoding_injective(&b[0]);
        assert forall|i: int| 0 <= i < ta.len() implies (#[trigger] ta[i]).canonical() by {
            assert(ta[i] == a[i + 1]);
        }
        assert forall|i: int| 0 <= i < tb.len() implies (#[trigger] tb[i]).canonical() by {
            assert(tb[i] == b[i + 1]);
        }
        lemma_items_encoding_injective(ta, tb);
        assert forall|i: int| 0 <= i < a.len() implies (#[trigger] a[i]).same(&b[i]) by {
            if i > 0 {
                assert(a[i] == ta[i - 1]);
                assert(b[i] == tb[i - 1]);
                assert(ta[i - 1].same(&tb[i - 1]));
            }
        }
    }
}

/// The bytes of items and of one more are those of the items, and then those of the one.
pub proof fn lemma_items_encoding_push<T: Canonical>(items: Seq<T>, item: T)
    ensures
        items_encoding(items.push(item)) == items_encoding(items) + item.encoding(),
{
    assert(items.push(item).drop_last() =~= items);
}

/// The scan of items goes on with the next item.
pub proof fn lemma_scan_items_step<T: Canonical>(
    bytes: Seq<u8>,
    start: int,
    at: int,
    done: nat,
    count: nat,
)
    requires
        0 <= start <= at <= bytes.len(),
        done < count,
        scan_items::<T>(bytes.skip(start), count) == scan_items::<T>(
            bytes.skip(at),
            (count - done) as nat,
        ).shift((at - start) as nat),
    ensures
        match T::scan(bytes.skip(at)) {
            Scan::Found(len) => scan_items::<T>(bytes.skip(start), count) == scan_items::<T>(
                bytes.skip(at).skip(len as int),
                (count - done - 1) as nat,
            ).shift((at - start + len) as nat),
            failed => scan_items::<T>(bytes.skip(start), count) == failed,
        },
{
}

impl<T: Canonical> Canonical for SmallVec<T> {
    /// The number of items in two bytes, and then the bytes of the items one after another.
    open spec fn encoding(&self) -> Seq<u8> {
        u16_bytes(self@.len() as u16) + items_encoding(self@)
    }

    open spec fn canonical(&self) -> bool {
        &&& self@.len() <= SEQ_MAX_LEN
        &&& forall|i: int| 0 <= i < self@.len() ==> (#[trigger] self@[i]).canonical()
    }

    open spec fn same(&self, other: &Self) -> bool {
        &&& self@.len() == other@.len()
        &&& forall|i: int| 0 <= i < self@.len() ==> (#[trigger] self@[i]).same(&other@[i])
    }

    open spec fn scan(bytes: Seq<u8>) -> Scan {
        if bytes.len() < 2 {
            Scan::UnexpectedEof
        } else {
            scan_items::<T>(bytes.skip(2), le_value(bytes.subrange(0, 2))).shift(2)
        }
    }

    fn encode(&self, out: &mut Vec<u8>) {
        let items = self.as_slice();
        let count = items.len();
        (count as u16).encode(out);
        let ghost start = out@;
        let mut i: usize = 0;
        assert(items@.take(0) =~= Seq::<T>::empty());
        while i < count
            invariant
                i <= count == items@.len(),
                out@ == start + items_encoding(items@.take(i as int)),
            decreases count - i,
        {
            items[i].encode(out);
            proof {
                lemma_items_encoding_push(items@.take(i as int), items@[i as int]);
                assert(items@.take(i + 1) =~= items@.take(i as int).push(items@[i as int]));
                assert(out@ =~= start + items_encoding(items@.take(i + 1)));
            }
            i += 1;
        }
        proof {
            assert(items@.take(count as int) =~= items@);
            assert(out@ =~= old(out)@ + self.encoding());
        }
    }

    fn decode(bytes: &[u8], pos: usize) -> (r: Result<(Self, usize), DecodeError>) {
        let (count, start) = match u16::decode(bytes, pos) {
            Ok(found) => found,
            Err(e) => {
                return Err(e);
            },
        };
        let mut items: SmallVec<T> = SmallVec::new();
        let mut at: usize = start;
        proof {
            lemma_pow256_values();
            lemma_le_value_of_bytes(count as nat, 2);
            lemma_subrange_join(bytes@, pos as int, start as int, bytes@.len() as int);
            assert(bytes@.skip(pos as int).subrange(0, 2) =~= bytes@.subrange(
                pos as int,
                start as int,
            ));
            assert(bytes@.subrange(start as int, at as int) =~= Seq::<u8>::empty());
        }
        while items.len() < count as usize
            invariant
                pos + 2 == start <= at <= bytes@.len(),
                items@.len() <= count,
                Self::scan(bytes@.skip(pos as int)) == scan_items::<T>(
                    bytes@.skip(start as int),
                    count as nat,
                ).shift(2),
                items_encoding(items@) == bytes@.subrange(start as int, at as int),
                forall|k: int| 0 <= k < items@.len() ==> (#[trigger] items@[k]).canonical(),
                scan_items::<T>(bytes@.skip(start as int), count as nat) == scan_items::<T>(
                    bytes@.skip(at as int),
                    (count - items@.len()) as nat,
                ).shift((at - start) as nat),
            decreases count - items@.len(),
        {
            proof {
                lemma_scan_items_step::<T>(
                    bytes@,
                    start as int,
                    at as int,
                    items@.len(),
                    count as nat,
                );
            }
            match T::decode(bytes, at) {
                Ok((item, next)) => {
                    proof {
                        lemma_items_encoding_push(items@, item);
                        lemma_subrange_join(bytes@, start as int, at as int, next as int);
                        lemma_subrange_join(bytes@, at as int, next as int, bytes@.len() as int);
                    }
                    let pushed = items.push(item);
                    assert(pushed is Ok);
                    at = next;
                },
                Err(e) => {
                    return Err(e);
                },
            }
        }
        proof {
            lemma_subrange_join(bytes@, pos as int, start as int, at as int);
        }
        Ok((items, at))
    }

    proof fn lemma_scan_encoding(&self, rest: Seq<u8>) {
        let head = u16_bytes(self@.len() as u16);
        let bytes = self.encoding() + rest;
        lemma_pow256_values();
        lemma_le_bytes_len(self@.len(), 2);
        lemma_le_value_of_bytes(self@.len(), 2);
        assert(bytes.subrange(0, 2) =~= head);
        assert(bytes.skip(2) =~= items_encoding(self@) + rest);
        lemma_scan_items_encoding(self@, rest);
    }

    proof fn lemma_encoding_injective(&self, other: &Self) {
        let (ha, hb) = (u16_bytes(self@.len() as u16), u16_bytes(other@.len() as u16));
        lemma_pow256_values();
        lemma_le_bytes_len(self@.len(), 2);
        lemma_le_bytes_len(other@.len(), 2);
        lemma_le_value_of_bytes(self@.len(), 2);
        lemma_le_value_of_bytes(other@.len(), 2);
        assert(self.encoding().subrange(0, 2) =~= ha);
        assert(other.encoding().subrange(0, 2) =~= hb);
        assert(self.encoding().skip(2) =~= items_encoding(self@));
        assert(other.encoding().skip(2) =~= items_encoding(other@));
        lemma_items_encoding_injective(self@, other@);
    }
}

/// `String::from_utf8` of std: the text which the bytes are the UTF-8 of, where they are valid
/// UTF-8.
#[verifier::external_body]
fn string_from_utf8(bytes: Vec<u8>) -> (text: Option<String>)
    ensures
        text is Some <==> valid_utf8(bytes@),
        text matches Some(t) ==> t@ == decode_utf8(bytes@),
{
    String::from_utf8(bytes).ok()
}

/// Text whose UTF-8 takes at most `MAX` bytes, and at most 65535.
#[derive(PartialEq, Eq, Debug)]
pub struct Text<const MAX: usize> {
    text: String,
}

impl<const MAX: usize> View for Text<MAX> {
    type V = Seq<char>;

    closed spec fn view(&self) -> Seq<char> {
        self.text@
    }
}

impl<const MAX: usize> Text<MAX> {
    #[verifier::type_invariant]
    spec fn confined(self) -> bool {
        Self::fits(self.text@)
    }

    /// Whether a text is short enough for the type.
    pub open spec fn fits(text: Seq<char>) -> bool {
        encode_utf8(text).len() <= MAX && encode_utf8(text).len() <= SEQ_MAX_LEN
    }

    /// The empty text.
    pub fn new() -> (text: Text<MAX>)
        ensures
            text@ == Seq::<char>::empty(),
    {
        let text = String::new();
        assert(encode_utf8(text@) =~= Seq::<u8>::empty());
        Text { text }
    }

    /// Confines a text, unless it is too long.
    pub fn try_from_string(text: String) -> (r: Result<Text<MAX>, OverLimit>)
        ensures
            r is Ok <==> Self::fits(text@),
            r matches Ok(t) ==> t@ == text@,
    {
        let len = text.as_str().as_bytes().len();
        if len <= MAX && len <= SEQ_MAX_LEN {
            Ok(Text { text })
        } else {
            Err(OverLimit)
        }
    }

    /// The text.
    pub fn as_str(&self) -> (text: &str)
        ensures
            text@ == self@,
            Self::fits(self@),
    {
        proof {
            use_type_invariant(self);
        }
        self.text.as_str()
    }
}

impl<const MAX: usize> Canonical for Text<MAX> {
    /// The number of bytes of the UTF-8 of the text in two bytes, and then the UTF-8.
    open spec fn encoding(&self) -> Seq<u8> {
        u16_bytes(encode_utf8(self@).len() as u16) + encode_utf8(self@)
    }

    open spec fn canonical(&self) -> bool {
        Self::fits(self@)
    }

    open spec fn same(&self, other: &Self) -> bool {
        self@ == other@
    }

    open spec fn scan(bytes: Seq<u8>) -> Scan {
        if bytes.len() < 2 {
            Scan::UnexpectedEof
        } else {
            let len = le_value(bytes.subrange(0, 2));
            if len > MAX {
                Scan::OverLimit
            } else if bytes.len() < 2 + len {
                Scan::UnexpectedEof
            } else if !valid_utf8(bytes.subrange(2, (2 + len) as int)) {
                Scan::InvalidUtf8
            } else {
                Scan::Found(2 + len)
            }
        }
    }

    fn encode(&self, out: &mut Vec<u8>) {
        let utf8 = self.as_str().as_bytes();
        (utf8.len() as u16).encode(out);
        push_bytes(out, utf8);
        assert(out@ =~= old(out)@ + self.encoding());
    }

    fn decode(bytes: &[u8], pos: usize) -> (r: Result<(Self, usize), DecodeError>) {
        let (len, start) = match u16::decode(bytes, pos) {
            Ok(found) => found,
            Err(e) => {
                return Err(e);
            },
        };
        let len = len as usize;
        proof {
            lemma_pow256_values();
            lemma_le_value_of_bytes(len as nat, 2);
            assert(bytes@.skip(pos as int).subrange(0, 2) =~= bytes@.subrange(
                pos as int,
                start as int,
            ));
        }
        if len > MAX {
            return Err(DecodeError::OverLimit);
        }
        if bytes.len() - start < len {
            return Err(DecodeError::UnexpectedEof);
        }
        let end = start + len;
        let mut utf8: Vec<u8> = Vec::new();
        push_bytes(&mut utf8, slice_subrange(bytes, start, end));
        proof {
            assert(utf8@ =~= bytes@.subrange(start as int, end as int));
            assert(bytes@.skip(pos as int).subrange(2, 2 + len) =~= utf8@);
            lemma_subrange_join(bytes@, pos as int, start as int, end as int);
        }
        match string_from_utf8(utf8) {
            Some(text) => {
                proof {
                    decode_utf8_encode_utf8(utf8@);
                }
                Ok((Text { text }, end))
            },
            None => Err(DecodeError::InvalidUtf8),
        }
    }

    proof fn lemma_scan_encoding(&self, rest: Seq<u8>) {
        let utf8 = encode_utf8(self@);
        let bytes = self.encoding() + rest;
        lemma_pow256_values();
        lemma_le_bytes_len(utf8.len(), 2);
        lemma_le_value_of_bytes(utf8.len(), 2);
        encode_utf8_valid_utf8(self@);
        assert(bytes.subrange(0, 2) =~= u16_bytes(utf8.len() as u16));
        assert(bytes.subrange(2, (2 + utf8.len()) as int) =~= utf8);
    }

    proof fn lemma_encoding_injective(&self, other: &Self) {
        let (ua, ub) = (encode_utf8(self@), encode_utf8(other@));
        lemma_pow256_values();
        lemma_le_bytes_len(ua.len(), 2);
        lemma_le_bytes_len(ub.len(), 2);
        assert(self.encoding().skip(2) =~= ua);
        assert(other.encoding().skip(2) =~= ub);
        encode_utf8_decode_utf8(self@);
        encode_utf8_decode_utf8(other@);
    }
}

} // verus!
