//! The binary wire protocol: big-endian integers and length-prefixed
//! strings, byte strings and sequences.
use vstd::prelude::*;
pub mod model;

use vstd::utf8::{decode_utf8, encode_utf8, valid_utf8};

verus! {

/// Why reading or writing a protocol value failed.
#[derive(Debug, Clone, Copy, PartialEq, Eq, Structural)]
pub enum ProtoError {
    /// The input ended before the value was complete.
    UnexpectedEof,
    /// A length-prefixed string was not valid UTF-8.
    InvalidString,
    /// A string is longer than a 4-byte length prefix can describe.
    StringTooLarge,
    /// A byte string is longer than a 4-byte length prefix can describe.
    BytesTooLarge,
    /// A sequence has more items than a 4-byte count can describe.
    VecTooLarge,
    /// A message starts with an unknown kind byte.
    InvalidMessage,
    /// A host address a message carries does not resolve.
    InvalidAddress,
}

/// Outcome of decoding a value at the front of a byte sequence: the value and
/// the number of bytes consumed, or the error and the number of bytes that
/// were consumed before the error was detected.
pub type Decoded<V> = Result<(V, nat), (ProtoError, nat)>;

/// The largest length a 4-byte prefix can carry.
pub open spec fn size4_max() -> nat {
    0xffff_ffff
}

/// Value of the first four bytes, most significant first.
pub open spec fn u32_from_be(b: Seq<u8>) -> u32 {
    (b[0] as int * 0x100_0000 + b[1] as int * 0x1_0000 + b[2] as int * 0x100 + b[3] as int) as u32
}

/// The four bytes of `x`, most significant first.
pub open spec fn u32_to_be(x: u32) -> Seq<u8> {
    seq![
        (x / 0x100_0000) as u8,
        (x / 0x1_0000 % 0x100) as u8,
        (x / 0x100 % 0x100) as u8,
        (x % 0x100) as u8,
    ]
}

/// Value of the first eight bytes, most significant first.
pub open spec fn u64_from_be(b: Seq<u8>) -> u64 {
    (u32_from_be(b) as int * 0x1_0000_0000 + u32_from_be(b.skip(4)) as int) as u64
}

/// The eight bytes of `x`, most significant first.
pub open spec fn u64_to_be(x: u64) -> Seq<u8> {
    u32_to_be((x / 0x1_0000_0000) as u32) + u32_to_be((x % 0x1_0000_0000) as u32)
}

/// The two's complement value of a 32-bit pattern.
pub open spec fn i32_from_bits(u: u32) -> i32 {
    if u >= 0x8000_0000 {
        (u - 0x1_0000_0000) as i32
    } else {
        u as i32
    }
}

/// The 32-bit two's complement pattern of `x`.
pub open spec fn i32_to_bits(x: i32) -> u32 {
    if x < 0 {
        (x + 0x1_0000_0000) as u32
    } else {
        x as u32
    }
}

pub open spec fn decode_byte(b: Seq<u8>) -> Decoded<u8> {
    if b.len() >= 1 {
        Ok((b[0], 1))
    } else {
        Err((ProtoError::UnexpectedEof, 0))
    }
}

pub open spec fn decode_size4(b: Seq<u8>) -> Decoded<u32> {
    if b.len() >= 4 {
        Ok((u32_from_be(b), 4))
    } else {
        Err((ProtoError::UnexpectedEof, 0))
    }
}

pub open spec fn decode_size8(b: Seq<u8>) -> Decoded<u64> {
    if b.len() >= 8 {
        Ok((u64_from_be(b), 8))
    } else {
        Err((ProtoError::UnexpectedEof, 0))
    }
}

pub open spec fn decode_i32(b: Seq<u8>) -> Decoded<i32> {
    if b.len() >= 4 {
        Ok((i32_from_bits(u32_from_be(b)), 4))
    } else {
        Err((ProtoError::UnexpectedEof, 0))
    }
}

/// A 4-byte length followed by that many bytes.
pub open spec fn decode_size4_bytes(b: Seq<u8>) -> Decoded<Seq<u8>> {
    if b.len() < 4 {
        Err((ProtoError::UnexpectedEof, 0))
    } else if b.len() < 4 + u32_from_be(b) {
        Err((ProtoError::UnexpectedEof, 4))
    } else {
        Ok((b.subrange(4, 4 + u32_from_be(b)), (4 + u32_from_be(b)) as nat))
    }
}

/// A 4-byte length followed by that many bytes of UTF-8 text.
pub open spec fn decode_size4_string(b: Seq<u8>) -> Decoded<Seq<char>> {
    match decode_size4_bytes(b) {
        Ok((bytes, n)) => if valid_utf8(bytes) {
            Ok((decode_utf8(bytes), n))
        } else {
            Err((ProtoError::InvalidString, n))
        },
        Err(e) => Err(e),
    }
}

/// Bytes written for a length-prefixed byte string (nothing when it is too long).
pub open spec fn encode_size4_bytes(data: Seq<u8>) -> Seq<u8> {
    if data.len() > size4_max() {
        Seq::empty()
    } else {
        u32_to_be(data.len() as u32) + data
    }
}

/// Bytes written for a length-prefixed string (nothing when it is too long).
pub open spec fn encode_size4_string(s: Seq<char>) -> Seq<u8> {
    if encode_utf8(s).len() > size4_max() {
        Seq::empty()
    } else {
        u32_to_be(encode_utf8(s).len() as u32) + encode_utf8(s)
    }
}

/// Whether a string fits behind a 4-byte length prefix.
pub open spec fn size4_string_fits(s: Seq<char>) -> bool {
    encode_utf8(s).len() <= size4_max()
}

/// The result a write reports, given the error it ends with.
pub open spec fn write_outcome(e: Option<ProtoError>) -> Result<(), ProtoError> {
    match e {
        Some(e) => Err(e),
        None => Ok(()),
    }
}

/// Number of bytes a decoding consumed, whether it succeeded or not.
pub open spec fn consumed<V>(d: Decoded<V>) -> nat {
    match d {
        Ok((_, n)) => n,
        Err((_, n)) => n,
    }
}

/// `r` is what an executable read returns when the decoding is `d`.
pub open spec fn read_result<T: View>(r: Result<T, ProtoError>, d: Decoded<T::V>) -> bool {
    match d {
        Ok((v, _)) => r matches Ok(x) && x@ == v,
        Err((e, _)) => r matches Err(x) && x == e,
    }
}

pub proof fn lemma_u32_be_roundtrip(x: u32)
    ensures
        u32_to_be(x).len() == 4,
        u32_from_be(u32_to_be(x)) == x,
{
    let a = x / 0x100_0000;
    let b = x / 0x1_0000 % 0x100;
    let c = x / 0x100 % 0x100;
    let d = x % 0x100;
    assert(x / 0x1_0000 == a * 0x100 + b);
    assert(x / 0x100 == (x / 0x1_0000) * 0x100 + c);
    assert(x == (x / 0x100) * 0x100 + d);
    assert(a < 0x100);
}

pub proof fn lemma_u64_be_roundtrip(x: u64)
    ensures
        u64_to_be(x).len() == 8,
        u64_from_be(u64_to_be(x)) == x,
{
    let hi = (x / 0x1_0000_0000) as u32;
    let lo = (x % 0x1_0000_0000) as u32;
    lemma_u32_be_roundtrip(hi);
    lemma_u32_be_roundtrip(lo);
    let b = u64_to_be(x);
    assert(b.skip(4) =~= u32_to_be(lo));
    assert(b.take(4) =~= u32_to_be(hi));
    assert(u32_from_be(b) == u32_from_be(u32_to_be(hi)));
    assert(x == hi as int * 0x1_0000_0000 + lo as int);
}


/// `r` is what an executable read of a structured value returns when the
/// decoding is `d`; structured values are compared by their deep views.
pub open spec fn decoded_result<T: DeepView>(r: Result<T, ProtoError>, d: Decoded<T::V>) -> bool {
    match d {
        Ok((v, _)) => r matches Ok(x) && x.deep_view() == v,
        Err((e, _)) => r matches Err(x) && x == e,
    }
}

/// A value with its own layout on the wire.
pub trait ProtoType: Sized + DeepView {
    /// Decoding of a value from the front of `bytes`.
    spec fn spec_decode(bytes: Seq<u8>) -> Decoded<<Self as DeepView>::V>;

    /// The bytes written for a value; when writing fails, the bytes written
    /// before the failure.
    spec fn spec_encode(v: <Self as DeepView>::V) -> Seq<u8>;

    /// The error writing a value fails with, if any.
    spec fn spec_encode_error(v: <Self as DeepView>::V) -> Option<ProtoError>;

    fn read(reader: &mut ProtoReader) -> (r: Result<Self, ProtoError>)
        ensures
            final(reader).advanced_by(*old(reader), Self::spec_decode(old(reader).rest())),
            decoded_result(r, Self::spec_decode(old(reader).rest())),
    ;

    fn write(&self, writer: &mut ProtoWriter) -> (r: Result<(), ProtoError>)
        ensures
            final(writer)@ == old(writer)@ + Self::spec_encode(self.deep_view()),
            r == write_outcome(Self::spec_encode_error(self.deep_view())),
    ;

    /// A value written without error reads back as the same value, the
    /// read consuming exactly the bytes written, whatever follows them.
    proof fn lemma_roundtrip(v: <Self as DeepView>::V, rest: Seq<u8>)
        requires
            Self::spec_encode_error(v) is None,
        ensures
            Self::spec_decode(Self::spec_encode(v) + rest) == Ok::<
                (<Self as DeepView>::V, nat),
                (ProtoError, nat),
            >((v, Self::spec_encode(v).len())),
    ;
}

/// A layout for values of another type (`AsType`) on the wire.
pub trait ProtoAsProxy {
    type AsType: DeepView;

    /// Decoding of a value from the front of `bytes`.
    spec fn spec_decode(bytes: Seq<u8>) -> Decoded<<Self::AsType as DeepView>::V>;

    /// The bytes written for a value; when writing fails, the bytes written
    /// before the failure.
    spec fn spec_encode(v: <Self::AsType as DeepView>::V) -> Seq<u8>;

    /// The error writing a value fails with, if any.
    spec fn spec_encode_error(v: <Self::AsType as DeepView>::V) -> Option<ProtoError>;

    fn read(reader: &mut ProtoReader) -> (r: Result<Self::AsType, ProtoError>)
        ensures
            final(reader).advanced_by(*old(reader), Self::spec_decode(old(reader).rest())),
            decoded_result(r, Self::spec_decode(old(reader).rest())),
    ;

    fn write(writer: &mut ProtoWriter, data: &Self::AsType) -> (r: Result<(), ProtoError>)
        ensures
            final(writer)@ == old(writer)@ + Self::spec_encode(data.deep_view()),
            r == write_outcome(Self::spec_encode_error(data.deep_view())),
    ;

    /// A value written without error reads back as the same value, the
    /// read consuming exactly the bytes written, whatever follows them.
    proof fn lemma_roundtrip(v: <Self::AsType as DeepView>::V, rest: Seq<u8>)
        requires
            Self::spec_encode_error(v) is None,
        ensures
            Self::spec_decode(Self::spec_encode(v) + rest) == Ok::<
                (<Self::AsType as DeepView>::V, nat),
                (ProtoError, nat),
            >((v, Self::spec_encode(v).len())),
    ;
}

/// A byte read back gives the byte written, whatever follows it.
pub proof fn lemma_byte_roundtrip(x: u8, rest: Seq<u8>)
    ensures
        decode_byte(seq![x] + rest) == Ok::<(u8, nat), (ProtoError, nat)>((x, 1)),
{
    assert((seq![x] + rest)[0] == x);
}

/// A 4-byte size read back gives the size written, whatever follows it.
pub proof fn lemma_size4_roundtrip(x: u32, rest: Seq<u8>)
    ensures
        decode_size4(u32_to_be(x) + rest) == Ok::<(u32, nat), (ProtoError, nat)>((x, 4)),
{
    lemma_u32_be_roundtrip(x);
    assert((u32_to_be(x) + rest).take(4) =~= u32_to_be(x));
    lemma_u32_from_be_prefix(u32_to_be(x) + rest);
}

/// Only the first four bytes matter to a 4-byte value.
pub proof fn lemma_u32_from_be_prefix(b: Seq<u8>)
    requires
        b.len() >= 4,
    ensures
        u32_from_be(b) == u32_from_be(b.take(4)),
{
}

/// An 8-byte size read back gives the size written, whatever follows it.
pub proof fn lemma_size8_roundtrip(x: u64, rest: Seq<u8>)
    ensures
        decode_size8(u64_to_be(x) + rest) == Ok::<(u64, nat), (ProtoError, nat)>((x, 8)),
{
    lemma_u64_be_roundtrip(x);
    let b = u64_to_be(x) + rest;
    lemma_u32_from_be_prefix(b);
    lemma_u32_from_be_prefix(u64_to_be(x));
    lemma_u32_from_be_prefix(b.skip(4));
    lemma_u32_from_be_prefix(u64_to_be(x).skip(4));
    assert(b.take(4) =~= u64_to_be(x).take(4));
    assert(b.skip(4).take(4) =~= u64_to_be(x).skip(4).take(4));
}

/// A signed 32-bit value read back gives the value written, whatever follows it.
pub proof fn lemma_i32_roundtrip(x: i32, rest: Seq<u8>)
    ensures
        decode_i32(u32_to_be(i32_to_bits(x)) + rest) == Ok::<(i32, nat), (ProtoError, nat)>((x, 4)),
{
    lemma_size4_roundtrip(i32_to_bits(x), rest);
}

/// A length-prefixed byte string that fits reads back as written, whatever follows it.
pub proof fn lemma_size4_bytes_roundtrip(data: Seq<u8>, rest: Seq<u8>)
    requires
        data.len() <= size4_max(),
    ensures
        decode_size4_bytes(encode_size4_bytes(data) + rest) == Ok::<(Seq<u8>, nat), (ProtoError, nat)>(
            (data, encode_size4_bytes(data).len()),
        ),
{
    let len = data.len() as u32;
    let b = encode_size4_bytes(data) + rest;
    lemma_size4_roundtrip(len, data + rest);
    assert(b =~= u32_to_be(len) + (data + rest));
    assert(b.subrange(4, 4 + len) =~= data);
}

/// A length-prefixed string that fits reads back as written, whatever follows it.
pub proof fn lemma_size4_string_roundtrip(s: Seq<char>, rest: Seq<u8>)
    requires
        size4_string_fits(s),
    ensures
        decode_size4_string(encode_size4_string(s) + rest) == Ok::<(Seq<char>, nat), (ProtoError, nat)>(
            (s, encode_size4_string(s).len()),
        ),
{
    vstd::utf8::encode_utf8_valid_utf8(s);
    vstd::utf8::encode_utf8_decode_utf8(s);
    lemma_size4_bytes_roundtrip(encode_utf8(s), rest);
}

/// Reads protocol values from the front of a byte buffer.
pub struct ProtoReader {
    data: Vec<u8>,
    pos: usize,
}

impl ProtoReader {
    #[verifier::type_invariant]
    spec fn inv(&self) -> bool {
        self.pos <= self.data.len()
    }

    /// All the bytes the reader was made with.
    pub closed spec fn input(&self) -> Seq<u8> {
        self.data@
    }

    /// How many bytes have been read so far.
    pub closed spec fn spec_position(&self) -> nat {
        self.pos as nat
    }

    /// The bytes not read yet.
    pub open spec fn rest(&self) -> Seq<u8> {
        self.input().skip(self.spec_position() as int)
    }

    /// The reader has read `d` from where `old` stood.
    pub open spec fn advanced_by<V>(&self, old: ProtoReader, d: Decoded<V>) -> bool {
        &&& self.input() == old.input()
        &&& self.spec_position() == old.spec_position() + consumed(d)
        &&& self.spec_position() <= self.input().len()
    }

    pub fn new(data: Vec<u8>) -> (r: Self)
        ensures
            r.input() == data@,
            r.spec_position() == 0,
    {
        ProtoReader { data, pos: 0 }
    }

    /// How many bytes have been read so far.
    pub fn position(&self) -> (p: usize)
        ensures
            p == self.spec_position(),
            p <= self.input().len(),
    {
        proof {
            use_type_invariant(self);
        }
        self.pos
    }

    /// Takes the next `n` bytes, or nothing when fewer remain.
    fn take_bytes(&mut self, n: usize) -> (r: Option<Vec<u8>>)
        ensures
            final(self).input() == old(self).input(),
            old(self).rest().len() >= n ==> {
                &&& r matches Some(v) && v@ == old(self).rest().take(n as int)
                &&& final(self).spec_position() == old(self).spec_position() + n
            },
            old(self).rest().len() < n ==> r is None && final(self).spec_position() == old(self).spec_position(),
            final(self).spec_position() <= final(self).input().len(),
    {
        proof {
            use_type_invariant(&*self);
        }
        if self.data.len() - self.pos < n {
            return None;
        }
        let mut out: Vec<u8> = Vec::new();
        let start = self.pos;
        let mut i: usize = 0;
        while i < n
            invariant
                start + n <= self.data.len(),
                self.pos == start,
                i <= n,
                out@ == self.data@.subrange(start as int, start + i),
            decreases n - i,
        {
            out.push(self.data[start + i]);
            i = i + 1;
            assert(out@ =~= self.data@.subrange(start as int, start + i));
        }
        self.pos = start + n;
        assert(out@ =~= old(self).rest().take(n as int));
        Some(out)
    }

    /// Fills `buf` with the next bytes; fails, reading nothing and leaving
    /// `buf` as it was, when fewer than `buf.len()` bytes remain.
    pub fn read_into_exact(&mut self, buf: &mut [u8]) -> (r: Result<(), ProtoError>)
        ensures
            final(self).input() == old(self).input(),
            final(self).spec_position() <= final(self).input().len(),
            old(self).rest().len() >= old(buf)@.len() ==> {
                &&& r is Ok
                &&& final(buf)@ == old(self).rest().take(old(buf)@.len() as int)
                &&& final(self).spec_position() == old(self).spec_position() + old(buf)@.len()
            },
            old(self).rest().len() < old(buf)@.len() ==> {
                &&& r == Err::<(), ProtoError>(ProtoError::UnexpectedEof)
                &&& final(buf)@ == old(buf)@
                &&& final(self).spec_position() == old(self).spec_position()
            },
    {
        proof {
            use_type_invariant(&*self);
        }
        let n = buf.len();
        if self.data.len() - self.pos < n {
            return Err(ProtoError::UnexpectedEof);
        }
        let start = self.pos;
        let mut i: usize = 0;
        while i < n
            invariant
                start + n <= self.data.len(),
                self.pos == start,
                i <= n,
                buf@.len() == n,
                forall|j: int| 0 <= j < i ==> buf@[j] == self.data@[start + j],
            decreases n - i,
        {
            buf[i] = self.data[start + i];
            i = i + 1;
        }
        self.pos = start + n;
        assert(buf@ =~= old(self).rest().take(n as int));
        Ok(())
    }

    pub fn read_byte(&mut self) -> (r: Result<u8, ProtoError>)
        ensures
            final(self).advanced_by(*old(self), decode_byte(old(self).rest())),
            read_result(r, decode_byte(old(self).rest())),
    {
        proof {
            use_type_invariant(&*self);
        }
        if self.data.len() - self.pos < 1 {
            return Err(ProtoError::UnexpectedEof);
        }
        let b = self.data[self.pos];
        self.pos = self.pos + 1;
        Ok(b)
    }

    pub fn read_size4(&mut self) -> (r: Result<u32, ProtoError>)
        ensures
            final(self).advanced_by(*old(self), decode_size4(old(self).rest())),
            read_result(r, decode_size4(old(self).rest())),
    {
        proof {
            use_type_invariant(&*self);
        }
        if self.data.len() - self.pos < 4 {
            return Err(ProtoError::UnexpectedEof);
        }
        let p = self.pos;
        let v = (self.data[p] as u32) * 0x100_0000 + (self.data[p + 1] as u32) * 0x1_0000
            + (self.data[p + 2] as u32) * 0x100 + (self.data[p + 3] as u32);
        self.pos = p + 4;
        Ok(v)
    }

    pub fn read_size8(&mut self) -> (r: Result<u64, ProtoError>)
        ensures
            final(self).advanced_by(*old(self), decode_size8(old(self).rest())),
            read_result(r, decode_size8(old(self).rest())),
    {
        proof {
            use_type_invariant(&*self);
        }
        if self.data.len() - self.pos < 8 {
            return Err(ProtoError::UnexpectedEof);
        }
        let ghost rest = old(self).rest();
        let hi = self.read_size4();
        let lo = self.read_size4();
        match (hi, lo) {
            (Ok(hi), Ok(lo)) => {
                assert(rest.skip(4) =~= old(self).input().skip(old(self).spec_position() + 4int));
                Ok((hi as u64) * 0x1_0000_0000 + (lo as u64))
            },
            _ => Err(ProtoError::UnexpectedEof),
        }
    }

    pub fn read_i32(&mut self) -> (r: Result<i32, ProtoError>)
        ensures
            final(self).advanced_by(*old(self), decode_i32(old(self).rest())),
            read_result(r, decode_i32(old(self).rest())),
    {
        match self.read_size4() {
            Ok(u) => {
                if u >= 0x8000_0000 {
                    Ok(((u - 0x8000_0000) as i32) + i32::MIN)
                } else {
                    Ok(u as i32)
                }
            },
            Err(e) => Err(e),
        }
    }

    pub fn read_size4_bytes(&mut self) -> (r: Result<Vec<u8>, ProtoError>)
        ensures
            final(self).advanced_by(*old(self), decode_size4_bytes(old(self).rest())),
            read_result(r, decode_size4_bytes(old(self).rest())),
    {
        let ghost rest = old(self).rest();
        let size = match self.read_size4() {
            Ok(s) => s,
            Err(e) => return Err(e),
        };
        assert(self.rest() =~= rest.skip(4));
        match self.take_bytes(size as usize) {
            Some(v) => {
                assert(v@ =~= rest.subrange(4, 4 + size));
                Ok(v)
            },
            None => Err(ProtoError::UnexpectedEof),
        }
    }

    pub fn read_size4_string(&mut self) -> (r: Result<String, ProtoError>)
        ensures
            final(self).advanced_by(*old(self), decode_size4_string(old(self).rest())),
            read_result(r, decode_size4_string(old(self).rest())),
    {
        match self.read_size4_bytes() {
            Ok(bytes) => match string_from_utf8(bytes) {
                Some(s) => Ok(s),
                None => Err(ProtoError::InvalidString),
            },
            Err(e) => Err(e),
        }
    }

    pub fn read<T: ProtoType>(&mut self) -> (r: Result<T, ProtoError>)
        ensures
            final(self).advanced_by(*old(self), T::spec_decode(old(self).rest())),
            decoded_result(r, T::spec_decode(old(self).rest())),
    {
        T::read(self)
    }

    pub fn read_as<T: ProtoAsProxy>(&mut self) -> (r: Result<T::AsType, ProtoError>)
        ensures
            final(self).advanced_by(*old(self), T::spec_decode(old(self).rest())),
            decoded_result(r, T::spec_decode(old(self).rest())),
    {
        T::read(self)
    }
}

/// Writes protocol values to the end of a byte buffer.
pub struct ProtoWriter {
    buf: Vec<u8>,
}

impl View for ProtoWriter {
    type V = Seq<u8>;

    /// The bytes written so far.
    closed spec fn view(&self) -> Seq<u8> {
        self.buf@
    }
}

impl ProtoWriter {
    /// A writer that appends to `buf`.
    pub fn new(buf: Vec<u8>) -> (w: Self)
        ensures
            w@ == buf@,
    {
        ProtoWriter { buf }
    }

    /// The bytes written, the initial ones included.
    pub fn into_bytes(self) -> (b: Vec<u8>)
        ensures
            b@ == self@,
    {
        self.buf
    }

    pub fn write_from_all(&mut self, buf: &[u8]) -> (r: Result<(), ProtoError>)
        ensures
            final(self)@ == old(self)@ + buf@,
            r is Ok,
    {
        let ghost start = self@;
        let mut i: usize = 0;
        while i < buf.len()
            invariant
                i <= buf@.len(),
                self@ == start + buf@.take(i as int),
            decreases buf@.len() - i,
        {
            self.buf.push(buf[i]);
            i = i + 1;
            assert(self@ =~= start + buf@.take(i as int));
        }
        assert(buf@.take(i as int) =~= buf@);
        Ok(())
    }

    /// Writes already formatted text.
    pub fn write_fmt(&mut self, text: &str) -> (r: Result<(), ProtoError>)
        ensures
            final(self)@ == old(self)@ + encode_utf8(text@),
            r is Ok,
    {
        self.write_from_all(text.as_bytes())
    }

    pub fn write_byte(&mut self, data: u8) -> (r: Result<(), ProtoError>)
        ensures
            final(self)@ == old(self)@.push(data),
            r is Ok,
    {
        self.buf.push(data);
        Ok(())
    }

    pub fn write_size4(&mut self, data: u32) -> (r: Result<(), ProtoError>)
        ensures
            final(self)@ == old(self)@ + u32_to_be(data),
            r is Ok,
    {
        self.buf.push((data / 0x100_0000) as u8);
        self.buf.push((data / 0x1_0000 % 0x100) as u8);
        self.buf.push((data / 0x100 % 0x100) as u8);
        self.buf.push((data % 0x100) as u8);
        assert(self@ =~= old(self)@ + u32_to_be(data));
        Ok(())
    }

    pub fn write_size8(&mut self, data: u64) -> (r: Result<(), ProtoError>)
        ensures
            final(self)@ == old(self)@ + u64_to_be(data),
            r is Ok,
    {
        let _ = self.write_size4((data / 0x1_0000_0000) as u32);
        let _ = self.write_size4((data % 0x1_0000_0000) as u32);
        assert(self@ =~= old(self)@ + u64_to_be(data));
        Ok(())
    }

    pub fn write_i32(&mut self, data: i32) -> (r: Result<(), ProtoError>)
        ensures
            final(self)@ == old(self)@ + u32_to_be(i32_to_bits(data)),
            r is Ok,
    {
        let bits: u32 = if data < 0 {
            ((data as i64) + 0x1_0000_0000) as u32
        } else {
            data as u32
        };
        self.write_size4(bits)
    }

    /// Writes the length of `data` in four bytes, then `data`; fails,
    /// writing nothing, when the length does not fit in four bytes.
    pub fn write_size4_string(&mut self, data: &str) -> (r: Result<(), ProtoError>)
        ensures
            final(self)@ == old(self)@ + encode_size4_string(data@),
            r == (if size4_string_fits(data@) {
                Ok(())
            } else {
                Err(ProtoError::StringTooLarge)
            }),
    {
        let bytes = data.as_bytes();
        let len = bytes.len();
        if len > 0xffff_ffff {
            assert(old(self)@ + encode_size4_string(data@) =~= old(self)@);
            Err(ProtoError::StringTooLarge)
        } else {
            let _ = self.write_size4(len as u32);
            let _ = self.write_from_all(bytes);
            assert(self@ =~= old(self)@ + encode_size4_string(data@));
            Ok(())
        }
    }

    /// Writes the length of `data` in four bytes, then `data`; fails,
    /// writing nothing, when the length does not fit in four bytes.
    pub fn write_size4_bytes(&mut self, data: &[u8]) -> (r: Result<(), ProtoError>)
        ensures
            final(self)@ == old(self)@ + encode_size4_bytes(data@),
            r == (if data@.len() <= size4_max() {
                Ok(())
            } else {
                Err(ProtoError::BytesTooLarge)
            }),
    {
        let len = data.len();
        if len > 0xffff_ffff {
            assert(old(self)@ + encode_size4_bytes(data@) =~= old(self)@);
            Err(ProtoError::BytesTooLarge)
        } else {
            let _ = self.write_size4(len as u32);
            let _ = self.write_from_all(data);
            assert(self@ =~= old(self)@ + encode_size4_bytes(data@));
            Ok(())
        }
    }

    pub fn write<T: ProtoType>(&mut self, data: &T) -> (r: Result<(), ProtoError>)
        ensures
            final(self)@ == old(self)@ + T::spec_encode(data.deep_view()),
            r == write_outcome(T::spec_encode_error(data.deep_view())),
    {
        data.write(self)
    }

    pub fn write_as<T: ProtoAsProxy>(&mut self, data: &T::AsType) -> (r: Result<(), ProtoError>)
        ensures
            final(self)@ == old(self)@ + T::spec_encode(data.deep_view()),
            r == write_outcome(T::spec_encode_error(data.deep_view())),
    {
        T::write(self, data)
    }
}

/// `String::from_utf8`: the bytes as text when they are valid UTF-8.
/// The contract claims that std's notion of valid UTF-8, and the text it
/// decodes, are those of vstd's `valid_utf8` and `decode_utf8`.
#[verifier::external_body]
fn string_from_utf8(bytes: Vec<u8>) -> (r: Option<String>)
    ensures
        match r {
            Some(s) => valid_utf8(bytes@) && s@ == decode_utf8(bytes@),
            None => !valid_utf8(bytes@),
        },
{
    String::from_utf8(bytes).ok()
}

} // verus!
