//! Length-prefixed primitive serializer and deserializer.
//!
//! Values are encoded little-endian: 32-bit and 64-bit integers as their
//! byte images, booleans as one byte (zero is false), strings as a 32-bit
//! byte count followed by the UTF-8 bytes.  Each encodable type carries its
//! encoding as a spec function, and a decoder spec says exactly which prefix
//! of a byte sequence reads back as which value; the round-trip lemmas at the
//! bottom prove that decoding an encoding always returns the original value.

use vstd::bytes::*;
use vstd::prelude::*;
use vstd::utf8::*;

verus! {

/// Why a write or read failed.
#[derive(Debug, PartialEq, Eq)]
pub enum SerializationError {
    /// The input ended early, held a malformed value, or a length field was
    /// out of range.
    IoError,
    /// The value is too large to encode (a string longer than a 32-bit
    /// signed count can say).
    BufferOverflow,
}

/// Accumulates encodings into one growing byte buffer.
pub struct Serializer {
    buffer: Vec<u8>,
}

impl View for Serializer {
    type V = Seq<u8>;

    closed spec fn view(&self) -> Seq<u8> {
        self.buffer@
    }
}

impl Serializer {
    pub fn new() -> (s: Serializer)
        ensures
            s@ == Seq::<u8>::empty(),
    {
        Serializer { buffer: Vec::new() }
    }

    /// Appends the encoding of `value` to the buffer; on failure the buffer
    /// is unchanged.
    pub fn write<T: Serialize>(&mut self, value: &T) -> (r: Result<(), SerializationError>)
        ensures
            value.encodable() ==> r is Ok && final(self)@ == old(self)@ + value.enc(),
            !value.encodable() ==> r is Err && final(self)@ == old(self)@,
    {
        value.serialize(self)
    }

    /// The bytes written so far.
    pub fn data(&self) -> (d: &[u8])
        ensures
            d@ == self@,
    {
        self.buffer.as_slice()
    }
}

/// Reads values back from a byte slice, front to back.
pub struct Deserializer<'a> {
    data: &'a [u8],
    pos: usize,
}

impl<'a> Deserializer<'a> {
    /// The whole input.
    pub closed spec fn spec_data(self) -> Seq<u8> {
        self.data@
    }

    /// How many bytes have been consumed.
    pub closed spec fn spec_pos(self) -> int {
        self.pos as int
    }

    pub open spec fn wf(self) -> bool {
        0 <= self.spec_pos() <= self.spec_data().len()
    }

    /// The bytes not yet consumed.
    pub open spec fn remaining(self) -> Seq<u8> {
        self.spec_data().subrange(self.spec_pos(), self.spec_data().len() as int)
    }

    pub fn new(data: &'a [u8]) -> (d: Deserializer<'a>)
        ensures
            d.wf(),
            d.spec_data() == data@,
            d.spec_pos() == 0,
    {
        Deserializer { data, pos: 0 }
    }

    /// Reads the next value; on failure no input is consumed.
    pub fn read<T: Deserialize>(&mut self) -> (r: Result<T, SerializationError>)
        requires
            old(self).wf(),
        ensures
            final(self).wf(),
            final(self).spec_data() == old(self).spec_data(),
            match T::dec(old(self).remaining()) {
                Some(p) => r matches Ok(v) && v@ == p.0 && final(self).spec_pos() == old(
                    self,
                ).spec_pos() + p.1,
                None => r is Err && final(self).spec_pos() == old(self).spec_pos(),
            },
    {
        T::deserialize(self)
    }

    /// Whether unconsumed input remains.
    pub fn has_more(&self) -> (b: bool)
        requires
            self.wf(),
        ensures
            b == (self.remaining().len() > 0),
    {
        self.pos < self.data.len()
    }

    /// Bytes not yet consumed.
    fn remaining_len(&self) -> (n: usize)
        requires
            self.wf(),
        ensures
            n == self.remaining().len(),
    {
        self.data.len() - self.pos
    }

    /// Copies `n` unconsumed bytes starting `off` past the cursor, without
    /// consuming anything.
    fn peek_to_vec(&self, off: usize, n: usize) -> (v: Vec<u8>)
        requires
            self.wf(),
            off + n <= self.remaining().len(),
        ensures
            v@ == self.remaining().subrange(off as int, off + n),
    {
        let dlen = self.data.len();
        proof {
            assert(self.spec_pos() + off + n <= dlen);
        }
        let s = vstd::slice::slice_subrange(self.data, self.pos + off, self.pos + off + n);
        let v = vstd::slice::slice_to_vec(s);
        proof {
            assert(v@ =~= self.remaining().subrange(off as int, off + n));
        }
        v
    }

    /// Consumes `n` bytes.
    fn advance(&mut self, n: usize)
        requires
            old(self).wf(),
            n <= old(self).remaining().len(),
        ensures
            final(self).wf(),
            final(self).spec_data() == old(self).spec_data(),
            final(self).spec_pos() == old(self).spec_pos() + n,
    {
        let dlen = self.data.len();
        proof {
            assert(self.spec_pos() + n <= dlen);
        }
        self.pos = self.pos + n;
    }
}

/// A value with a byte encoding.
pub trait Serialize {
    /// The byte encoding of this value.
    spec fn enc(&self) -> Seq<u8>;

    /// Whether the value can be encoded at all.
    spec fn encodable(&self) -> bool;

    /// Appends the encoding of `self` to the serializer's buffer; on failure
    /// the buffer is unchanged.
    fn serialize(&self, serializer: &mut Serializer) -> (r: Result<(), SerializationError>)
        ensures
            self.encodable() ==> r is Ok && final(serializer)@ == old(serializer)@ + self.enc(),
            !self.encodable() ==> r is Err && final(serializer)@ == old(serializer)@,
    ;
}

/// A value that can be read back from bytes.
pub trait Deserialize: Sized + View {
    /// The decoder: the value a prefix of `bytes` reads back as, with the
    /// number of bytes consumed, or `None` when no value can be read.
    spec fn dec(bytes: Seq<u8>) -> Option<(Self::V, nat)>;

    /// Reads the next value; on failure no input is consumed.
    fn deserialize(deserializer: &mut Deserializer) -> (r: Result<Self, SerializationError>)
        requires
            old(deserializer).wf(),
        ensures
            final(deserializer).wf(),
            final(deserializer).spec_data() == old(deserializer).spec_data(),
            match Self::dec(old(deserializer).remaining()) {
                Some(p) => r matches Ok(v) && v@ == p.0 && final(deserializer).spec_pos() == old(
                    deserializer,
                ).spec_pos() + p.1,
                None => r is Err && final(deserializer).spec_pos() == old(deserializer).spec_pos(),
            },
    ;
}

impl Serialize for i32 {
    open spec fn enc(&self) -> Seq<u8> {
        spec_u32_to_le_bytes(*self as u32)
    }

    open spec fn encodable(&self) -> bool {
        true
    }

    fn serialize(&self, serializer: &mut Serializer) -> (r: Result<(), SerializationError>) {
        let bits: u32 = #[verifier::truncate] (*self as u32);
        let mut bytes = u32_to_le_bytes(bits);
        serializer.buffer.append(&mut bytes);
        Ok(())
    }
}

impl Deserialize for i32 {
    open spec fn dec(bytes: Seq<u8>) -> Option<(i32, nat)> {
        if bytes.len() >= 4 {
            Some(((spec_u32_from_le_bytes(bytes.subrange(0, 4)) as i32), 4nat))
        } else {
            None
        }
    }

    fn deserialize(deserializer: &mut Deserializer) -> (r: Result<Self, SerializationError>) {
        if deserializer.remaining_len() < 4 {
            return Err(SerializationError::IoError);
        }
        let bytes = deserializer.peek_to_vec(0, 4);
        let bits = u32_from_le_bytes(bytes.as_slice());
        deserializer.advance(4);
        Ok(#[verifier::truncate] (bits as i32))
    }
}

impl Serialize for i64 {
    open spec fn enc(&self) -> Seq<u8> {
        spec_u64_to_le_bytes(*self as u64)
    }

    open spec fn encodable(&self) -> bool {
        true
    }

    fn serialize(&self, serializer: &mut Serializer) -> (r: Result<(), SerializationError>) {
        let bits: u64 = #[verifier::truncate] (*self as u64);
        let mut bytes = u64_to_le_bytes(bits);
        serializer.buffer.append(&mut bytes);
        Ok(())
    }
}

impl Deserialize for i64 {
    open spec fn dec(bytes: Seq<u8>) -> Option<(i64, nat)> {
        if bytes.len() >= 8 {
            Some(((spec_u64_from_le_bytes(bytes.subrange(0, 8)) as i64), 8nat))
        } else {
            None
        }
    }

    fn deserialize(deserializer: &mut Deserializer) -> (r: Result<Self, SerializationError>) {
        if deserializer.remaining_len() < 8 {
            return Err(SerializationError::IoError);
        }
        let bytes = deserializer.peek_to_vec(0, 8);
        let bits = u64_from_le_bytes(bytes.as_slice());
        deserializer.advance(8);
        Ok(#[verifier::truncate] (bits as i64))
    }
}

impl Serialize for bool {
    open spec fn enc(&self) -> Seq<u8> {
        seq![if *self { 1u8 } else { 0u8 }]
    }

    open spec fn encodable(&self) -> bool {
        true
    }

    fn serialize(&self, serializer: &mut Serializer) -> (r: Result<(), SerializationError>) {
        let byte: u8 = if *self { 1 } else { 0 };
        serializer.buffer.push(byte);
        proof {
            assert(final(serializer)@ =~= old(serializer)@ + self.enc());
        }
        Ok(())
    }
}

impl Deserialize for bool {
    open spec fn dec(bytes: Seq<u8>) -> Option<(bool, nat)> {
        if bytes.len() >= 1 {
            Some((bytes[0] != 0, 1nat))
        } else {
            None
        }
    }

    fn deserialize(deserializer: &mut Deserializer) -> (r: Result<Self, SerializationError>) {
        if deserializer.remaining_len() < 1 {
            return Err(SerializationError::IoError);
        }
        let bytes = deserializer.peek_to_vec(0, 1);
        let b = bytes[0];
        deserializer.advance(1);
        Ok(b != 0)
    }
}

/// Relies on `String::from_utf8`, which succeeds exactly on valid UTF-8 and
/// returns the string whose UTF-8 byte encoding is the input.
#[verifier::external_body]
fn string_from_utf8(bytes: Vec<u8>) -> (r: Option<String>)
    ensures
        r is Some <==> valid_utf8(bytes@),
        r matches Some(s) ==> encode_utf8(s@) == bytes@,
{
    match String::from_utf8(bytes) {
        Ok(s) => Some(s),
        Err(_) => None,
    }
}

impl Serialize for String {
    open spec fn enc(&self) -> Seq<u8> {
        spec_u32_to_le_bytes(encode_utf8(self@).len() as u32) + encode_utf8(self@)
    }

    open spec fn encodable(&self) -> bool {
        encode_utf8(self@).len() <= i32::MAX
    }

    fn serialize(&self, serializer: &mut Serializer) -> (r: Result<(), SerializationError>) {
        let bytes: &[u8] = self.as_str().as_bytes();
        let n = bytes.len();
        if n > (i32::MAX as usize) {
            return Err(SerializationError::BufferOverflow);
        }
        let mut len_bytes = u32_to_le_bytes(n as u32);
        serializer.buffer.append(&mut len_bytes);
        let mut data_bytes = vstd::slice::slice_to_vec(bytes);
        serializer.buffer.append(&mut data_bytes);
        proof {
            assert(final(serializer)@ =~= old(serializer)@ + self.enc());
        }
        Ok(())
    }
}

impl Deserialize for String {
    open spec fn dec(bytes: Seq<u8>) -> Option<(Seq<char>, nat)> {
        if bytes.len() < 4 {
            None
        } else {
            let m = spec_u32_from_le_bytes(bytes.subrange(0, 4)) as int;
            if m <= i32::MAX && 4 + m <= bytes.len() && valid_utf8(bytes.subrange(4, 4 + m)) {
                Some((decode_utf8(bytes.subrange(4, 4 + m)), (4 + m) as nat))
            } else {
                None
            }
        }
    }

    fn deserialize(deserializer: &mut Deserializer) -> (r: Result<Self, SerializationError>) {
        if deserializer.remaining_len() < 4 {
            return Err(SerializationError::IoError);
        }
        let len_bytes = deserializer.peek_to_vec(0, 4);
        let m = u32_from_le_bytes(len_bytes.as_slice());
        if m > (i32::MAX as u32) {
            return Err(SerializationError::IoError);
        }
        let m = m as usize;
        if deserializer.remaining_len() - 4 < m {
            return Err(SerializationError::IoError);
        }
        let content = deserializer.peek_to_vec(4, m);
        match string_from_utf8(content) {
            Some(s) => {
                deserializer.advance(4 + m);
                proof {
                    encode_utf8_decode_utf8(s@);
                }
                Ok(s)
            },
            None => Err(SerializationError::IoError),
        }
    }
}

/// Round trip for 32-bit integers: the four bytes `serialize` writes read
/// back as the original value, whatever follows them.
pub proof fn lemma_round_trip_i32(v: i32, rest: Seq<u8>)
    ensures
        <i32 as Deserialize>::dec(<i32 as Serialize>::enc(&v) + rest) == Some((v, 4nat)),
{
    let all = <i32 as Serialize>::enc(&v) + rest;
    lemma_auto_spec_u32_to_from_le_bytes();
    assert(all.subrange(0, 4) =~= spec_u32_to_le_bytes(v as u32));
    assert(((v as u32) as i32) == v) by (bit_vector);
}

/// Round trip for 64-bit integers.
pub proof fn lemma_round_trip_i64(v: i64, rest: Seq<u8>)
    ensures
        <i64 as Deserialize>::dec(<i64 as Serialize>::enc(&v) + rest) == Some((v, 8nat)),
{
    let all = <i64 as Serialize>::enc(&v) + rest;
    lemma_auto_spec_u64_to_from_le_bytes();
    assert(all.subrange(0, 8) =~= spec_u64_to_le_bytes(v as u64));
    assert(((v as u64) as i64) == v) by (bit_vector);
}

/// Round trip for booleans.
pub proof fn lemma_round_trip_bool(v: bool, rest: Seq<u8>)
    ensures
        <bool as Deserialize>::dec(<bool as Serialize>::enc(&v) + rest) == Some((v, 1nat)),
{
    let all = <bool as Serialize>::enc(&v) + rest;
    assert(all[0] == (if v { 1u8 } else { 0u8 }));
}

/// Round trip for strings: for any string whose byte length a 32-bit signed
/// count can hold, decoding the encoding yields the original characters.
pub proof fn lemma_round_trip_string(s: String, rest: Seq<u8>)
    requires
        encode_utf8(s@).len() <= i32::MAX,
    ensures
        <String as Deserialize>::dec(<String as Serialize>::enc(&s) + rest) == Some(
            (s@, (4 + encode_utf8(s@).len()) as nat),
        ),
{
    let utf8 = encode_utf8(s@);
    let n = utf8.len() as int;
    let all = <String as Serialize>::enc(&s) + rest;
    lemma_auto_spec_u32_to_from_le_bytes();
    assert(all.subrange(0, 4) =~= spec_u32_to_le_bytes(n as u32));
    assert(spec_u32_from_le_bytes(all.subrange(0, 4)) == n as u32);
    assert((n as u32) as int == n);
    assert(all.subrange(4, 4 + n) =~= utf8);
    encode_utf8_valid_utf8(s@);
    encode_utf8_decode_utf8(s@);
}

} // verus!
