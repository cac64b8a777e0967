//! UTF-16LE string codec: every character value is encoded as one 16-bit code
//! unit, or as a surrogate pair for values above the basic plane, each unit in
//! little-endian byte order. Decoding validates surrogate pairing and fails on
//! lone surrogates or odd byte counts.
use vstd::prelude::*;

use crate::codec::{u16_le_bytes, u16_le_of, Reader};
use crate::TdsError;

verus! {

/// The UTF-16LE bytes of one character.
pub open spec fn utf16le_char_bytes(c: char) -> Seq<u8> {
    if (c as u32) < 0x10000 {
        u16_le_bytes((c as u32) as u16)
    } else {
        u16_le_bytes((0xD800 + (((c as u32) - 0x10000) / 0x400)) as u16) + u16_le_bytes(
            (0xDC00 + (((c as u32) - 0x10000) % 0x400)) as u16,
        )
    }
}

/// The UTF-16LE bytes of a character sequence.
pub open spec fn utf16le_bytes(s: Seq<char>) -> Seq<u8>
    decreases s.len(),
{
    if s.len() == 0 {
        Seq::empty()
    } else {
        utf16le_char_bytes(s[0]) + utf16le_bytes(s.drop_first())
    }
}

/// The characters read from UTF-16LE bytes, or `None` where the bytes are not
/// a valid encoding (odd length, lone or misordered surrogate).
pub open spec fn utf16le_decode(b: Seq<u8>) -> Option<Seq<char>>
    decreases b.len(),
{
    if b.len() == 0 {
        Some(Seq::empty())
    } else if b.len() == 1 {
        None
    } else {
        let u = u16_le_of(b.subrange(0, 2));
        if u < 0xD800 || u >= 0xE000 {
            match utf16le_decode(b.skip(2)) {
                Some(rest) => Some(seq![(u as u32) as char] + rest),
                None => None,
            }
        } else if u < 0xDC00 {
            if b.len() < 4 {
                None
            } else {
                let l = u16_le_of(b.subrange(2, 4));
                if 0xDC00 <= l && l < 0xE000 {
                    let v = (0x10000 + (u - 0xD800) * 0x400 + (l - 0xDC00)) as u32;
                    match utf16le_decode(b.skip(4)) {
                        Some(rest) => Some(seq![v as char] + rest),
                        None => None,
                    }
                } else {
                    None
                }
            }
        } else {
            None
        }
    }
}

/// Appending a character appends its encoding.
pub proof fn lemma_utf16le_bytes_push(s: Seq<char>, c: char)
    ensures
        utf16le_bytes(s.push(c)) == utf16le_bytes(s) + utf16le_char_bytes(c),
    decreases s.len(),
{
    if s.len() == 0 {
        assert(s.push(c).len() == 1);
        assert(s.push(c)[0] == c);
        assert(s.push(c).drop_first() =~= Seq::<char>::empty());
        assert(utf16le_bytes(s.push(c)) == utf16le_char_bytes(c) + utf16le_bytes(
            Seq::<char>::empty(),
        ));
        assert(utf16le_char_bytes(c) + Seq::<u8>::empty() =~= utf16le_char_bytes(c));
        assert(utf16le_bytes(s) + utf16le_char_bytes(c) =~= utf16le_char_bytes(c));
    } else {
        assert(s.push(c).drop_first() =~= s.drop_first().push(c));
        assert(s.push(c)[0] == s[0]);
        lemma_utf16le_bytes_push(s.drop_first(), c);
        assert(utf16le_bytes(s.push(c)) == utf16le_char_bytes(s[0]) + (utf16le_bytes(
            s.drop_first(),
        ) + utf16le_char_bytes(c)));
        assert(utf16le_char_bytes(s[0]) + (utf16le_bytes(s.drop_first()) + utf16le_char_bytes(c))
            =~= (utf16le_char_bytes(s[0]) + utf16le_bytes(s.drop_first())) + utf16le_char_bytes(c));
    }
}

/// The encoding of a character sequence is even in length.
pub proof fn lemma_utf16le_bytes_even(s: Seq<char>)
    ensures
        utf16le_bytes(s).len() % 2 == 0,
        utf16le_bytes(s).len() <= 4 * s.len(),
        utf16le_bytes(s).len() >= 2 * s.len(),
    decreases s.len(),
{
    if s.len() > 0 {
        lemma_utf16le_bytes_even(s.drop_first());
    }
}

/// Decoding the encoding of a character sequence yields it back.
pub proof fn lemma_utf16le_round_trip(s: Seq<char>)
    ensures
        utf16le_decode(utf16le_bytes(s)) == Some(s),
    decreases s.len(),
{
    if s.len() == 0 {
        assert(utf16le_decode(utf16le_bytes(s)) =~= Some(Seq::<char>::empty()));
        assert(s =~= Seq::<char>::empty());
    } else {
        let c = s[0];
        let rest = s.drop_first();
        let b = utf16le_bytes(s);
        lemma_utf16le_round_trip(rest);
        vstd::utf8::char_is_scalar(c);
        if (c as u32) < 0x10000 {
            let u = (c as u32) as u16;
            assert(u == c as u32);
            assert(b.subrange(0, 2) =~= u16_le_bytes(u));
            crate::codec::lemma_u16_le_round_trip(u);
            assert(u16_le_of(b.subrange(0, 2)) == u);
            assert(u < 0xD800 || u >= 0xE000);
            assert(b.skip(2) =~= utf16le_bytes(rest));
            vstd::utf8::char_u32_cast(c, u as u32);
            assert((u as u32) as char == c);
            assert(seq![c] + rest =~= s);
        } else {
            let v = (c as u32) - 0x10000;
            let hi = (0xD800 + v / 0x400) as u16;
            let lo = (0xDC00 + v % 0x400) as u16;
            assert(v <= 0xFFFFF);
            assert(v / 0x400 <= 0x3FF);
            assert(0xD800 <= hi <= 0xDBFF);
            assert(0xDC00 <= lo <= 0xDFFF);
            assert(utf16le_char_bytes(c).len() == 4);
            assert(b.subrange(0, 2) =~= u16_le_bytes(hi));
            assert(b.subrange(2, 4) =~= u16_le_bytes(lo));
            crate::codec::lemma_u16_le_round_trip(hi);
            crate::codec::lemma_u16_le_round_trip(lo);
            assert(b.skip(4) =~= utf16le_bytes(rest));
            assert(0x10000 + (hi - 0xD800) * 0x400 + (lo - 0xDC00) == c as u32) by {
                assert((v / 0x400) * 0x400 + v % 0x400 == v);
            }
            vstd::utf8::char_u32_cast(c, c as u32);
            assert(((0x10000 + (hi - 0xD800) * 0x400 + (lo - 0xDC00)) as u32) as char == c);
            assert(seq![c] + rest =~= s);
        }
    }
}

/// Relies on `char::from_u32`: `Some` exactly for Unicode scalar values, and
/// the returned character carries the given value.
#[verifier::external_body]
fn char_from_u32(v: u32) -> (r: Option<char>)
    ensures
        r is Some <==> (v < 0xD800 || (0xE000 <= v && v <= 0x10FFFF)),
        r matches Some(c) ==> c as u32 == v,
{
    char::from_u32(v)
}

/// Relies on `String::push`: appends exactly the given character.
#[verifier::external_body]
pub fn push_char(s: &mut String, c: char)
    ensures
        final(s)@ == old(s)@.push(c),
{
    s.push(c);
}

/// Encode a string as UTF-16LE bytes.
pub fn encode_utf16le(s: &str) -> (r: Vec<u8>)
    ensures
        r@ == utf16le_bytes(s@),
{
    let n = s.unicode_len();
    let mut buf: Vec<u8> = Vec::new();
    let mut i: usize = 0;
    while i < n
        invariant
            n == s@.len(),
            i <= n,
            buf@ == utf16le_bytes(s@.subrange(0, i as int)),
        decreases n - i,
    {
        let c = s.get_char(i);
        let u = c as u32;
        if u < 0x10000 {
            crate::codec::write_u16_le(&mut buf, u as u16);
        } else {
            let v = u - 0x10000;
            crate::codec::write_u16_le(&mut buf, (0xD800 + v / 0x400) as u16);
            crate::codec::write_u16_le(&mut buf, (0xDC00 + v % 0x400) as u16);
        }
        proof {
            lemma_utf16le_bytes_push(s@.subrange(0, i as int), c);
            assert(s@.subrange(0, i + 1) =~= s@.subrange(0, i as int).push(c));
            if u >= 0x10000 {
                assert(buf@ =~= utf16le_bytes(s@.subrange(0, i as int)) + utf16le_char_bytes(c));
            }
        }
        i = i + 1;
    }
    proof {
        assert(s@.subrange(0, n as int) =~= s@);
    }
    buf
}

/// Decode UTF-16LE bytes into a string; a conversion error where the bytes
/// are not a valid encoding.
pub fn decode_utf16le(b: &[u8]) -> (r: Result<String, TdsError>)
    ensures
        r is Ok <==> utf16le_decode(b@) is Some,
        r matches Ok(s) ==> Some(s@) == utf16le_decode(b@),
        r is Err ==> r matches Err(TdsError::Conversion(_)),
    decreases b@.len(),
{
    let mut out = String::new();
    let mut pos: usize = 0;
    let len = b.len();
    proof {
        assert(b@.skip(0) =~= b@);
    }
    loop
        invariant
            pos <= len,
            len == b@.len(),
            utf16le_decode(b@) matches Some(whole) ==> (utf16le_decode(b@.skip(pos as int))
                matches Some(rest) && whole == out@ + rest),
            utf16le_decode(b@) is None ==> utf16le_decode(b@.skip(pos as int)) is None,
        decreases len - pos,
    {
        if pos >= len {
            proof {
                assert(b@.skip(pos as int) =~= Seq::<u8>::empty());
            }
            return Ok(out);
        }
        if len - pos < 2 {
            return Err(TdsError::Conversion(String::from_str("invalid UTF-16LE byte length")));
        }
        let ghost tail = b@.skip(pos as int);
        let u = b[pos] as u16 + (b[pos + 1] as u16) * 256;
        proof {
            assert(tail.subrange(0, 2) =~= b@.subrange(pos as int, pos + 2));
            assert(u == u16_le_of(tail.subrange(0, 2)));
        }
        if u < 0xD800 || u >= 0xE000 {
            match char_from_u32(u as u32) {
                Some(c) => {
                    push_char(&mut out, c);
                    pos = pos + 2;
                    proof {
                        assert(b@.skip(pos as int) =~= tail.skip(2));
                        if let Some(rest2) = utf16le_decode(tail.skip(2)) {
                            assert(utf16le_decode(tail) == Some(seq![(u as u32) as char] + rest2));
                            vstd::utf8::char_u32_cast(c, u as u32);
                            assert((u as u32) as char == c);
                            if let Some(whole) = utf16le_decode(b@) {
                                assert(whole =~= out@ + rest2);
                            }
                        }
                    }
                },
                None => {
                    proof {
                        assert(false);
                    }
                },
            }
        } else if u < 0xDC00 {
            if len - pos < 4 {
                return Err(TdsError::Conversion(String::from_str("lone UTF-16 high surrogate")));
            }
            let l = b[pos + 2] as u16 + (b[pos + 3] as u16) * 256;
            proof {
                assert(tail.subrange(2, 4) =~= b@.subrange(pos + 2, pos + 4));
                assert(l == u16_le_of(tail.subrange(2, 4)));
            }
            if 0xDC00 <= l && l < 0xE000 {
                let v: u32 = 0x10000 + (u as u32 - 0xD800) * 0x400 + (l as u32 - 0xDC00);
                match char_from_u32(v) {
                    Some(c) => {
                        push_char(&mut out, c);
                        pos = pos + 4;
                        proof {
                            assert(b@.skip(pos as int) =~= tail.skip(4));
                            if let Some(rest2) = utf16le_decode(tail.skip(4)) {
                                assert(utf16le_decode(tail) == Some(seq![v as char] + rest2));
                                vstd::utf8::char_u32_cast(c, v);
                                assert(v as char == c);
                                if let Some(whole) = utf16le_decode(b@) {
                                    assert(whole =~= out@ + rest2);
                                }
                            }
                        }
                    },
                    None => {
                        proof {
                            assert(false);
                        }
                    },
                }
            } else {
                return Err(TdsError::Conversion(String::from_str("unpaired UTF-16 surrogate")));
            }
        } else {
            return Err(TdsError::Conversion(String::from_str("unpaired UTF-16 surrogate")));
        }
    }
}

} // verus!

verus! {

/// What reading an `n`-character UTF-16LE string from `b` at `pos` yields:
/// `None` where the bytes run short, otherwise the decode of the `2 * n`
/// bytes there.
pub open spec fn spec_read_varchar(b: Seq<u8>, pos: int, n: int) -> Option<Seq<char>> {
    if pos + 2 * n > b.len() {
        None
    } else {
        utf16le_decode(b.subrange(pos, pos + 2 * n))
    }
}

/// Read a fixed varchar: `n` UTF-16 code units (`2 * n` bytes), decoded.
pub fn read_varchar(r: &mut Reader, n: usize) -> (res: Result<String, TdsError>)
    requires
        old(r).wf(),
    ensures
        final(r).wf(),
        final(r).bytes() == old(r).bytes(),
        res is Ok <==> spec_read_varchar(old(r).bytes(), old(r).pos as int, n as int) is Some,
        res matches Ok(s) ==> Some(s@) == spec_read_varchar(
            old(r).bytes(),
            old(r).pos as int,
            n as int,
        ) && final(r).pos == old(r).pos + 2 * n,
        res is Err ==> res matches Err(TdsError::UnexpectedEOF) || res matches Err(
            TdsError::Conversion(_),
        ),
{
    let rem = r.remaining();
    if n > rem / 2 {
        return Err(TdsError::UnexpectedEOF);
    }
    let bytes = match r.read_bytes(2 * n) {
        Ok(v) => v,
        Err(e) => {
            proof {
                assert(false);
            }
            return Err(TdsError::UnexpectedEOF);
        },
    };
    decode_utf16le(bytes.as_slice())
}

/// Read a `B_VARCHAR`: a one-byte code-unit count, then that many UTF-16LE
/// code units.
pub fn read_b_varchar(r: &mut Reader) -> (res: Result<String, TdsError>)
    requires
        old(r).wf(),
    ensures
        final(r).wf(),
        final(r).bytes() == old(r).bytes(),
        res matches Ok(s) ==> {
            let n = old(r).bytes()[old(r).pos as int] as int;
            Some(s@) == spec_read_varchar(old(r).bytes(), old(r).pos + 1, n) && final(r).pos
                == old(r).pos + 1 + 2 * n
        },
        res is Ok <==> old(r).spec_remaining() >= 1 && spec_read_varchar(
            old(r).bytes(),
            old(r).pos + 1,
            old(r).bytes()[old(r).pos as int] as int,
        ) is Some,
        res is Err ==> res matches Err(TdsError::UnexpectedEOF) || res matches Err(
            TdsError::Conversion(_),
        ),
{
    let n = match r.read_u8() {
        Ok(v) => v,
        Err(e) => {
            return Err(e);
        },
    };
    read_varchar(r, n as usize)
}

/// Read a `US_VARCHAR`: a two-byte little-endian code-unit count, then that
/// many UTF-16LE code units.
pub fn read_us_varchar(r: &mut Reader) -> (res: Result<String, TdsError>)
    requires
        old(r).wf(),
    ensures
        final(r).wf(),
        final(r).bytes() == old(r).bytes(),
        res matches Ok(s) ==> {
            let n = u16_le_of(old(r).bytes().subrange(old(r).pos as int, old(r).pos + 2)) as int;
            Some(s@) == spec_read_varchar(old(r).bytes(), old(r).pos + 2, n) && final(r).pos
                == old(r).pos + 2 + 2 * n
        },
        res is Ok <==> old(r).spec_remaining() >= 2 && spec_read_varchar(
            old(r).bytes(),
            old(r).pos + 2,
            u16_le_of(old(r).bytes().subrange(old(r).pos as int, old(r).pos + 2)) as int,
        ) is Some,
        res is Err ==> res matches Err(TdsError::UnexpectedEOF) || res matches Err(
            TdsError::Conversion(_),
        ),
{
    let n = match r.read_u16_le() {
        Ok(v) => v,
        Err(e) => {
            return Err(e);
        },
    };
    read_varchar(r, n as usize)
}

/// Append a `B_VARCHAR`: the UTF-16 code-unit count in one byte, then the
/// encoded string. Fails where the string needs more than 255 code units.
pub fn write_b_varchar(buf: &mut Vec<u8>, s: &str) -> (res: Result<(), TdsError>)
    ensures
        res is Ok <==> utf16le_bytes(s@).len() <= 510,
        res is Ok ==> final(buf)@ == old(buf)@ + seq![(utf16le_bytes(s@).len() / 2) as u8]
            + utf16le_bytes(s@),
        res is Err ==> final(buf)@ == old(buf)@ && res matches Err(TdsError::Other(_)),
{
    let encoded = encode_utf16le(s);
    proof {
        lemma_utf16le_bytes_even(s@);
    }
    if encoded.len() > 510 {
        return Err(TdsError::Other(String::from_str("string too long for B_VARCHAR")));
    }
    crate::codec::write_u8(buf, (encoded.len() / 2) as u8);
    crate::codec::write_bytes(buf, encoded.as_slice());
    proof {
        assert(final(buf)@ =~= old(buf)@ + seq![(utf16le_bytes(s@).len() / 2) as u8]
            + utf16le_bytes(s@));
    }
    Ok(())
}

/// Append a `US_VARCHAR`: the UTF-16 code-unit count in two little-endian
/// bytes, then the encoded string. Fails where the count overflows 16 bits.
pub fn write_us_varchar(buf: &mut Vec<u8>, s: &str) -> (res: Result<(), TdsError>)
    ensures
        res is Ok <==> utf16le_bytes(s@).len() <= 131070,
        res is Ok ==> final(buf)@ == old(buf)@ + u16_le_bytes(
            (utf16le_bytes(s@).len() / 2) as u16,
        ) + utf16le_bytes(s@),
        res is Err ==> final(buf)@ == old(buf)@ && res matches Err(TdsError::Other(_)),
{
    let encoded = encode_utf16le(s);
    proof {
        lemma_utf16le_bytes_even(s@);
    }
    if encoded.len() > 131070 {
        return Err(TdsError::Other(String::from_str("string too long for US_VARCHAR")));
    }
    crate::codec::write_u16_le(buf, (encoded.len() / 2) as u16);
    crate::codec::write_bytes(buf, encoded.as_slice());
    Ok(())
}

} // verus!
