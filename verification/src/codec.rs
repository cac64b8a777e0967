//! Byte-level codec: little- and big-endian integer encodings as sequences of
//! bytes, a bounds-checked reader over a byte slice, and writers that append
//! encodings to a growing buffer.
use vstd::prelude::*;

use crate::TdsError;

verus! {

/// The two bytes of `v` in little-endian order.
pub open spec fn u16_le_bytes(v: u16) -> Seq<u8> {
    seq![(v % 256) as u8, (v / 256) as u8]
}

/// The two bytes of `v` in big-endian order.
pub open spec fn u16_be_bytes(v: u16) -> Seq<u8> {
    seq![(v / 256) as u8, (v % 256) as u8]
}

/// The four bytes of `v` in little-endian order.
pub open spec fn u32_le_bytes(v: u32) -> Seq<u8> {
    seq![
        (v % 256) as u8,
        ((v / 256) % 256) as u8,
        ((v / 65536) % 256) as u8,
        ((v / 16777216) % 256) as u8,
    ]
}

/// The four bytes of `v` in big-endian order.
pub open spec fn u32_be_bytes(v: u32) -> Seq<u8> {
    seq![
        ((v / 16777216) % 256) as u8,
        ((v / 65536) % 256) as u8,
        ((v / 256) % 256) as u8,
        (v % 256) as u8,
    ]
}

/// The eight bytes of `v` in little-endian order.
pub open spec fn u64_le_bytes(v: u64) -> Seq<u8> {
    seq![
        (v % 256) as u8,
        ((v / 0x100) % 256) as u8,
        ((v / 0x10000) % 256) as u8,
        ((v / 0x1000000) % 256) as u8,
        ((v / 0x100000000) % 256) as u8,
        ((v / 0x10000000000) % 256) as u8,
        ((v / 0x1000000000000) % 256) as u8,
        ((v / 0x100000000000000) % 256) as u8,
    ]
}

/// The value read from two little-endian bytes.
pub open spec fn u16_le_of(b: Seq<u8>) -> u16
    recommends
        b.len() == 2,
{
    (b[0] + b[1] * 256) as u16
}

/// The value read from two big-endian bytes.
pub open spec fn u16_be_of(b: Seq<u8>) -> u16
    recommends
        b.len() == 2,
{
    (b[0] * 256 + b[1]) as u16
}

/// The value read from four little-endian bytes.
pub open spec fn u32_le_of(b: Seq<u8>) -> u32
    recommends
        b.len() == 4,
{
    (b[0] + b[1] * 0x100 + b[2] * 0x10000 + b[3] * 0x1000000) as u32
}

/// The value read from four big-endian bytes.
pub open spec fn u32_be_of(b: Seq<u8>) -> u32
    recommends
        b.len() == 4,
{
    (b[3] + b[2] * 0x100 + b[1] * 0x10000 + b[0] * 0x1000000) as u32
}

/// The value read from eight little-endian bytes.
pub open spec fn u64_le_of(b: Seq<u8>) -> u64
    recommends
        b.len() == 8,
{
    (b[0] + b[1] * 0x100 + b[2] * 0x10000 + b[3] * 0x1000000 + b[4] * 0x100000000
        + b[5] * 0x10000000000 + b[6] * 0x1000000000000 + b[7] * 0x100000000000000) as u64
}

/// The unsigned 32-bit value carrying the two's-complement bits of `v`.
pub open spec fn u32_of_i32(v: i32) -> u32 {
    if v >= 0 {
        v as u32
    } else {
        (v + 0x100000000) as u32
    }
}

/// The signed value whose two's-complement bits are `u`.
pub open spec fn i32_of_u32(u: u32) -> i32 {
    if u < 0x80000000 {
        u as i32
    } else {
        (u - 0x100000000) as i32
    }
}

/// The signed value whose two's-complement bits are `u`.
pub open spec fn i8_of_u8(u: u8) -> i8 {
    if u < 0x80 {
        u as i8
    } else {
        (u - 0x100) as i8
    }
}

/// The signed value whose two's-complement bits are `u`.
pub open spec fn i16_of_u16(u: u16) -> i16 {
    if u < 0x8000 {
        u as i16
    } else {
        (u - 0x10000) as i16
    }
}

/// The signed value whose two's-complement bits are `u`.
pub open spec fn i64_of_u64(u: u64) -> i64 {
    if u < 0x8000000000000000 {
        u as i64
    } else {
        (u - 0x10000000000000000) as i64
    }
}

/// Reading back the little-endian bytes of a 16-bit value is the identity.
pub proof fn lemma_u16_le_round_trip(v: u16)
    ensures
        u16_le_of(u16_le_bytes(v)) == v,
{
}

/// Reading back the big-endian bytes of a 16-bit value is the identity.
pub proof fn lemma_u16_be_round_trip(v: u16)
    ensures
        u16_be_of(u16_be_bytes(v)) == v,
{
}

/// Reading back the little-endian bytes of a 32-bit value is the identity.
pub proof fn lemma_u32_le_round_trip(v: u32)
    ensures
        u32_le_of(u32_le_bytes(v)) == v,
{
}

/// Reading back the big-endian bytes of a 32-bit value is the identity.
pub proof fn lemma_u32_be_round_trip(v: u32)
    ensures
        u32_be_of(u32_be_bytes(v)) == v,
{
}

/// Reading back the little-endian bytes of a 64-bit value is the identity.
#[verifier::rlimit(60)]
pub proof fn lemma_u64_le_round_trip(v: u64)
    ensures
        u64_le_of(u64_le_bytes(v)) == v,
{
    assert(v % 0x100 + ((v / 0x100) % 0x100) * 0x100 == v % 0x10000) by (bit_vector);
    assert(v % 0x10000 + ((v / 0x10000) % 0x100) * 0x10000 == v % 0x1000000) by (bit_vector);
    assert(v % 0x1000000 + ((v / 0x1000000) % 0x100) * 0x1000000 == v % 0x100000000)
        by (bit_vector);
    assert(v % 0x100000000 + ((v / 0x100000000) % 0x100) * 0x100000000 == v % 0x10000000000)
        by (bit_vector);
    assert(v % 0x10000000000 + ((v / 0x10000000000) % 0x100) * 0x10000000000
        == v % 0x1000000000000) by (bit_vector);
    assert(v % 0x1000000000000 + ((v / 0x1000000000000) % 0x100) * 0x1000000000000
        == v % 0x100000000000000) by (bit_vector);
    assert(v % 0x100000000000000 + (v / 0x100000000000000) * 0x100000000000000 == v)
        by (bit_vector);
    assert((v / 0x100000000000000) % 0x100 == v / 0x100000000000000) by (bit_vector);
}

/// The signed reading of the unsigned carrier of `v` is `v` again.
pub proof fn lemma_i32_round_trip(v: i32)
    ensures
        i32_of_u32(u32_of_i32(v)) == v,
{
}

/// A bounds-checked sequential reader over a borrowed byte slice.
pub struct Reader<'a> {
    /// The bytes being read.
    pub data: &'a [u8],
    /// The index of the next unread byte.
    pub pos: usize,
}

impl<'a> Reader<'a> {
    /// The whole underlying byte sequence.
    pub open spec fn bytes(&self) -> Seq<u8> {
        self.data@
    }

    /// The reader's position never passes the end of the data.
    pub open spec fn wf(&self) -> bool {
        self.pos <= self.data@.len()
    }

    /// The number of bytes not yet read.
    pub open spec fn spec_remaining(&self) -> int {
        self.data@.len() - self.pos
    }

    /// Start reading `data` from its first byte.
    pub fn new(data: &'a [u8]) -> (r: Reader<'a>)
        ensures
            r.wf(),
            r.bytes() == data@,
            r.pos == 0,
    {
        Reader { data, pos: 0 }
    }

    /// The number of bytes not yet read.
    pub fn remaining(&self) -> (n: usize)
        requires
            self.wf(),
        ensures
            n == self.spec_remaining(),
    {
        self.data.len() - self.pos
    }

    /// Whether at least one byte is left.
    pub fn has_remaining(&self) -> (b: bool)
        requires
            self.wf(),
        ensures
            b == (self.spec_remaining() > 0),
    {
        self.pos < self.data.len()
    }

    /// Read one byte.
    pub fn read_u8(&mut self) -> (r: Result<u8, TdsError>)
        requires
            old(self).wf(),
        ensures
            final(self).wf(),
            final(self).bytes() == old(self).bytes(),
            r is Ok <==> old(self).spec_remaining() >= 1,
            r matches Ok(b) ==> b == old(self).bytes()[old(self).pos as int] && final(self).pos
                == old(self).pos + 1,
            r is Err ==> r == Err::<u8, TdsError>(TdsError::UnexpectedEOF) && *final(self) == *old(self),
    {
        if self.pos < self.data.len() {
            let b = self.data[self.pos];
            self.pos = self.pos + 1;
            Ok(b)
        } else {
            Err(TdsError::UnexpectedEOF)
        }
    }

    /// Read `n` bytes into an owned buffer.
    pub fn read_bytes(&mut self, n: usize) -> (r: Result<Vec<u8>, TdsError>)
        requires
            old(self).wf(),
        ensures
            final(self).wf(),
            final(self).bytes() == old(self).bytes(),
            r is Ok <==> old(self).spec_remaining() >= n,
            r matches Ok(v) ==> v@ == old(self).bytes().subrange(
                old(self).pos as int,
                old(self).pos + n,
            ) && final(self).pos == old(self).pos + n,
            r is Err ==> r == Err::<Vec<u8>, TdsError>(TdsError::UnexpectedEOF) && *final(self) == *old(self),
    {
        let data_len: usize = self.data.len();
        if n <= data_len - self.pos {
            let mut v: Vec<u8> = Vec::new();
            let mut i: usize = 0;
            while i < n
                invariant
                    self.wf(),
                    i <= n,
                    self.pos == old(self).pos,
                    self.data == old(self).data,
                    data_len == self.data@.len(),
                    self.pos + n <= data_len,
                    v@ == self.data@.subrange(self.pos as int, self.pos + i),
                decreases n - i,
            {
                v.push(self.data[self.pos + i]);
                i = i + 1;
                proof {
                    assert(v@ =~= self.data@.subrange(self.pos as int, self.pos + i));
                }
            }
            self.pos = self.pos + n;
            Ok(v)
        } else {
            Err(TdsError::UnexpectedEOF)
        }
    }

    /// Skip `n` bytes.
    pub fn skip(&mut self, n: usize) -> (r: Result<(), TdsError>)
        requires
            old(self).wf(),
        ensures
            final(self).wf(),
            final(self).bytes() == old(self).bytes(),
            r is Ok <==> old(self).spec_remaining() >= n,
            r is Ok ==> final(self).pos == old(self).pos + n,
            r is Err ==> r == Err::<(), TdsError>(TdsError::UnexpectedEOF) && *final(self) == *old(self),
    {
        if n <= self.data.len() - self.pos {
            self.pos = self.pos + n;
            Ok(())
        } else {
            Err(TdsError::UnexpectedEOF)
        }
    }

    /// Read a 16-bit little-endian value.
    pub fn read_u16_le(&mut self) -> (r: Result<u16, TdsError>)
        requires
            old(self).wf(),
        ensures
            final(self).wf(),
            final(self).bytes() == old(self).bytes(),
            r is Ok <==> old(self).spec_remaining() >= 2,
            r matches Ok(v) ==> v == u16_le_of(
                old(self).bytes().subrange(old(self).pos as int, old(self).pos + 2),
            ) && final(self).pos == old(self).pos + 2,
            r is Err ==> r == Err::<u16, TdsError>(TdsError::UnexpectedEOF) && *final(self) == *old(self),
    {
        if 2 <= self.data.len() - self.pos {
            let b0 = self.data[self.pos];
            let b1 = self.data[self.pos + 1];
            self.pos = self.pos + 2;
            Ok(b0 as u16 + (b1 as u16) * 256)
        } else {
            Err(TdsError::UnexpectedEOF)
        }
    }

    /// Read a 16-bit big-endian value.
    pub fn read_u16_be(&mut self) -> (r: Result<u16, TdsError>)
        requires
            old(self).wf(),
        ensures
            final(self).wf(),
            final(self).bytes() == old(self).bytes(),
            r is Ok <==> old(self).spec_remaining() >= 2,
            r matches Ok(v) ==> v == u16_be_of(
                old(self).bytes().subrange(old(self).pos as int, old(self).pos + 2),
            ) && final(self).pos == old(self).pos + 2,
            r is Err ==> r == Err::<u16, TdsError>(TdsError::UnexpectedEOF) && *final(self) == *old(self),
    {
        if 2 <= self.data.len() - self.pos {
            let b0 = self.data[self.pos];
            let b1 = self.data[self.pos + 1];
            self.pos = self.pos + 2;
            Ok((b0 as u16) * 256 + b1 as u16)
        } else {
            Err(TdsError::UnexpectedEOF)
        }
    }

    /// Read a 32-bit little-endian value.
    pub fn read_u32_le(&mut self) -> (r: Result<u32, TdsError>)
        requires
            old(self).wf(),
        ensures
            final(self).wf(),
            final(self).bytes() == old(self).bytes(),
            r is Ok <==> old(self).spec_remaining() >= 4,
            r matches Ok(v) ==> v == u32_le_of(
                old(self).bytes().subrange(old(self).pos as int, old(self).pos + 4),
            ) && final(self).pos == old(self).pos + 4,
            r is Err ==> r == Err::<u32, TdsError>(TdsError::UnexpectedEOF) && *final(self) == *old(self),
    {
        if 4 <= self.data.len() - self.pos {
            let b0 = self.data[self.pos];
            let b1 = self.data[self.pos + 1];
            let b2 = self.data[self.pos + 2];
            let b3 = self.data[self.pos + 3];
            self.pos = self.pos + 4;
            Ok(b0 as u32 + (b1 as u32) * 0x100 + (b2 as u32) * 0x10000 + (b3 as u32) * 0x1000000)
        } else {
            Err(TdsError::UnexpectedEOF)
        }
    }

    /// Read a 32-bit big-endian value.
    pub fn read_u32_be(&mut self) -> (r: Result<u32, TdsError>)
        requires
            old(self).wf(),
        ensures
            final(self).wf(),
            final(self).bytes() == old(self).bytes(),
            r is Ok <==> old(self).spec_remaining() >= 4,
            r matches Ok(v) ==> v == u32_be_of(
                old(self).bytes().subrange(old(self).pos as int, old(self).pos + 4),
            ) && final(self).pos == old(self).pos + 4,
            r is Err ==> r == Err::<u32, TdsError>(TdsError::UnexpectedEOF) && *final(self) == *old(self),
    {
        if 4 <= self.data.len() - self.pos {
            let b0 = self.data[self.pos];
            let b1 = self.data[self.pos + 1];
            let b2 = self.data[self.pos + 2];
            let b3 = self.data[self.pos + 3];
            self.pos = self.pos + 4;
            Ok(b3 as u32 + (b2 as u32) * 0x100 + (b1 as u32) * 0x10000 + (b0 as u32) * 0x1000000)
        } else {
            Err(TdsError::UnexpectedEOF)
        }
    }

    /// Read a 64-bit little-endian value.
    pub fn read_u64_le(&mut self) -> (r: Result<u64, TdsError>)
        requires
            old(self).wf(),
        ensures
            final(self).wf(),
            final(self).bytes() == old(self).bytes(),
            r is Ok <==> old(self).spec_remaining() >= 8,
            r matches Ok(v) ==> v == u64_le_of(
                old(self).bytes().subrange(old(self).pos as int, old(self).pos + 8),
            ) && final(self).pos == old(self).pos + 8,
            r is Err ==> r == Err::<u64, TdsError>(TdsError::UnexpectedEOF) && *final(self) == *old(self),
    {
        if 8 <= self.data.len() - self.pos {
            let lo = self.read_u32_le().unwrap();
            let hi = self.read_u32_le().unwrap();
            proof {
                let b = old(self).bytes().subrange(old(self).pos as int, old(self).pos + 8);
                assert(old(self).bytes().subrange(old(self).pos as int, old(self).pos + 4)
                    =~= b.subrange(0, 4));
                assert(old(self).bytes().subrange(old(self).pos + 4, old(self).pos + 8)
                    =~= b.subrange(4, 8));
                assert(u32_le_of(b.subrange(0, 4)) + u32_le_of(b.subrange(4, 8)) * 0x100000000
                    == u64_le_of(b));
            }
            Ok(lo as u64 + (hi as u64) * 0x100000000)
        } else {
            Err(TdsError::UnexpectedEOF)
        }
    }

    /// Read a signed 32-bit little-endian value.
    pub fn read_i32_le(&mut self) -> (r: Result<i32, TdsError>)
        requires
            old(self).wf(),
        ensures
            final(self).wf(),
            final(self).bytes() == old(self).bytes(),
            r is Ok <==> old(self).spec_remaining() >= 4,
            r matches Ok(v) ==> v == i32_of_u32(
                u32_le_of(old(self).bytes().subrange(old(self).pos as int, old(self).pos + 4)),
            ) && final(self).pos == old(self).pos + 4,
            r is Err ==> r == Err::<i32, TdsError>(TdsError::UnexpectedEOF) && *final(self) == *old(self),
    {
        match self.read_u32_le() {
            Ok(u) => {
                if u < 0x80000000 {
                    Ok(u as i32)
                } else {
                    Ok(-((0xFFFFFFFFu32 - u) as i32) - 1)
                }
            },
            Err(e) => Err(e),
        }
    }

    /// Read a signed 64-bit little-endian value.
    pub fn read_i64_le(&mut self) -> (r: Result<i64, TdsError>)
        requires
            old(self).wf(),
        ensures
            final(self).wf(),
            final(self).bytes() == old(self).bytes(),
            r is Ok <==> old(self).spec_remaining() >= 8,
            r matches Ok(v) ==> v == i64_of_u64(
                u64_le_of(old(self).bytes().subrange(old(self).pos as int, old(self).pos + 8)),
            ) && final(self).pos == old(self).pos + 8,
            r is Err ==> r == Err::<i64, TdsError>(TdsError::UnexpectedEOF) && *final(self) == *old(self),
    {
        match self.read_u64_le() {
            Ok(u) => {
                if u < 0x8000000000000000 {
                    Ok(u as i64)
                } else {
                    Ok(-((0xFFFFFFFFFFFFFFFFu64 - u) as i64) - 1)
                }
            },
            Err(e) => Err(e),
        }
    }

    /// Read a signed 16-bit little-endian value.
    pub fn read_i16_le(&mut self) -> (r: Result<i16, TdsError>)
        requires
            old(self).wf(),
        ensures
            final(self).wf(),
            final(self).bytes() == old(self).bytes(),
            r is Ok <==> old(self).spec_remaining() >= 2,
            r matches Ok(v) ==> v == i16_of_u16(
                u16_le_of(old(self).bytes().subrange(old(self).pos as int, old(self).pos + 2)),
            ) && final(self).pos == old(self).pos + 2,
            r is Err ==> r == Err::<i16, TdsError>(TdsError::UnexpectedEOF) && *final(self) == *old(self),
    {
        match self.read_u16_le() {
            Ok(u) => {
                if u < 0x8000 {
                    Ok(u as i16)
                } else {
                    Ok(-((0xFFFFu16 - u) as i16) - 1)
                }
            },
            Err(e) => Err(e),
        }
    }

    /// Read a signed byte.
    pub fn read_i8(&mut self) -> (r: Result<i8, TdsError>)
        requires
            old(self).wf(),
        ensures
            final(self).wf(),
            final(self).bytes() == old(self).bytes(),
            r is Ok <==> old(self).spec_remaining() >= 1,
            r matches Ok(v) ==> v == i8_of_u8(old(self).bytes()[old(self).pos as int])
                && final(self).pos == old(self).pos + 1,
            r is Err ==> r == Err::<i8, TdsError>(TdsError::UnexpectedEOF) && *final(self) == *old(self),
    {
        match self.read_u8() {
            Ok(u) => {
                if u < 0x80 {
                    Ok(u as i8)
                } else {
                    Ok(-((0xFFu8 - u) as i8) - 1)
                }
            },
            Err(e) => Err(e),
        }
    }
}

/// Append one byte.
pub fn write_u8(buf: &mut Vec<u8>, v: u8)
    ensures
        final(buf)@ == old(buf)@.push(v),
{
    buf.push(v);
}

/// Append a 16-bit value in little-endian order.
pub fn write_u16_le(buf: &mut Vec<u8>, v: u16)
    ensures
        final(buf)@ == old(buf)@ + u16_le_bytes(v),
{
    buf.push((v % 256) as u8);
    buf.push((v / 256) as u8);
    proof {
        assert(final(buf)@ =~= old(buf)@ + u16_le_bytes(v));
    }
}

/// Append a 16-bit value in big-endian order.
pub fn write_u16_be(buf: &mut Vec<u8>, v: u16)
    ensures
        final(buf)@ == old(buf)@ + u16_be_bytes(v),
{
    buf.push((v / 256) as u8);
    buf.push((v % 256) as u8);
    proof {
        assert(final(buf)@ =~= old(buf)@ + u16_be_bytes(v));
    }
}

/// Append a 32-bit value in little-endian order.
pub fn write_u32_le(buf: &mut Vec<u8>, v: u32)
    ensures
        final(buf)@ == old(buf)@ + u32_le_bytes(v),
{
    buf.push((v % 256) as u8);
    buf.push(((v / 0x100) % 256) as u8);
    buf.push(((v / 0x10000) % 256) as u8);
    buf.push(((v / 0x1000000) % 256) as u8);
    proof {
        assert(final(buf)@ =~= old(buf)@ + u32_le_bytes(v));
    }
}

/// Append a 32-bit value in big-endian order.
pub fn write_u32_be(buf: &mut Vec<u8>, v: u32)
    ensures
        final(buf)@ == old(buf)@ + u32_be_bytes(v),
{
    buf.push(((v / 0x1000000) % 256) as u8);
    buf.push(((v / 0x10000) % 256) as u8);
    buf.push(((v / 0x100) % 256) as u8);
    buf.push((v % 256) as u8);
    proof {
        assert(final(buf)@ =~= old(buf)@ + u32_be_bytes(v));
    }
}

/// Append a 64-bit value in little-endian order.
pub fn write_u64_le(buf: &mut Vec<u8>, v: u64)
    ensures
        final(buf)@ == old(buf)@ + u64_le_bytes(v),
{
    buf.push((v % 256) as u8);
    buf.push(((v / 0x100) % 256) as u8);
    buf.push(((v / 0x10000) % 256) as u8);
    buf.push(((v / 0x1000000) % 256) as u8);
    buf.push(((v / 0x100000000) % 256) as u8);
    buf.push(((v / 0x10000000000) % 256) as u8);
    buf.push(((v / 0x1000000000000) % 256) as u8);
    buf.push(((v / 0x100000000000000) % 256) as u8);
    proof {
        assert(final(buf)@ =~= old(buf)@ + u64_le_bytes(v));
    }
}

/// Append a signed 32-bit value in little-endian two's-complement order.
pub fn write_i32_le(buf: &mut Vec<u8>, v: i32)
    ensures
        final(buf)@ == old(buf)@ + u32_le_bytes(u32_of_i32(v)),
{
    let u: u32 = if v >= 0 {
        v as u32
    } else {
        0xFFFFFFFFu32 - ((-(v + 1)) as u32)
    };
    proof {
        assert(u == u32_of_i32(v));
    }
    write_u32_le(buf, u);
}

/// Append the bytes of `other`.
pub fn write_bytes(buf: &mut Vec<u8>, other: &[u8])
    ensures
        final(buf)@ == old(buf)@ + other@,
{
    let mut i: usize = 0;
    while i < other.len()
        invariant
            i <= other@.len(),
            buf@ == old(buf)@ + other@.subrange(0, i as int),
        decreases other@.len() - i,
    {
        buf.push(other[i]);
        i = i + 1;
        proof {
            assert(buf@ =~= old(buf)@ + other@.subrange(0, i as int));
        }
    }
    proof {
        assert(other@.subrange(0, other@.len() as int) =~= other@);
    }
}

} // verus!
