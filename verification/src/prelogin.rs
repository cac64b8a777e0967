//! The PRELOGIN message: a list of option tokens serialized as
//! `{token, offset, length}` records ending in a terminator byte, followed by
//! the packed option payloads the records point into.
use vstd::prelude::*;
use vstd::slice::slice_subrange;

use crate::codec::{u16_be_bytes, u16_be_of, u32_be_bytes, u32_be_of};
use crate::{TdsError, TdsProtocolError};

verus! {

/// The encryption stance announced during prelogin.
#[derive(Copy, Clone, Debug, PartialEq, Eq, Structural)]
pub enum EncryptionSetting {
    EncryptOff,
    EncryptOn,
    EncryptNotSupported,
    EncryptRequired,
}

impl EncryptionSetting {
    /// The wire code of this setting.
    pub open spec fn spec_code(self) -> u8 {
        match self {
            EncryptionSetting::EncryptOff => 0,
            EncryptionSetting::EncryptOn => 1,
            EncryptionSetting::EncryptNotSupported => 2,
            EncryptionSetting::EncryptRequired => 3,
        }
    }

    /// The setting a wire code names, if any.
    pub open spec fn spec_from_code(code: u8) -> Option<EncryptionSetting> {
        match code {
            0u8 => Some(EncryptionSetting::EncryptOff),
            1u8 => Some(EncryptionSetting::EncryptOn),
            2u8 => Some(EncryptionSetting::EncryptNotSupported),
            3u8 => Some(EncryptionSetting::EncryptRequired),
            _ => None,
        }
    }

    /// The wire code of this setting.
    pub fn code(self) -> (r: u8)
        ensures
            r == self.spec_code(),
    {
        match self {
            EncryptionSetting::EncryptOff => 0,
            EncryptionSetting::EncryptOn => 1,
            EncryptionSetting::EncryptNotSupported => 2,
            EncryptionSetting::EncryptRequired => 3,
        }
    }

    /// Recognize a wire code.
    pub fn from_code(code: u8) -> (r: Option<EncryptionSetting>)
        ensures
            r == EncryptionSetting::spec_from_code(code),
    {
        match code {
            0 => Some(EncryptionSetting::EncryptOff),
            1 => Some(EncryptionSetting::EncryptOn),
            2 => Some(EncryptionSetting::EncryptNotSupported),
            3 => Some(EncryptionSetting::EncryptRequired),
            _ => None,
        }
    }
}

/// One prelogin option and its payload.
#[derive(Debug, Clone, PartialEq, Eq)]
pub enum OptionTokenPair {
    /// Version (big-endian) and sub-build.
    Version(u32, u16),
    Encryption(EncryptionSetting),
    /// The instance name, sent as a nul-terminated string.
    Instance(String),
    ThreadId(u32),
    Mars(u8),
    /// A 16-byte connection id and a 20-byte activity id.
    TraceId(Vec<u8>, Vec<u8>),
    FedAuthRequired(u8),
    /// 32 bytes of nonce.
    Nonce(Vec<u8>),
    /// The record list's end marker.
    Terminator,
}

/// The model of an option, with buffers and strings as sequences.
pub enum OptionTokenModel {
    Version(u32, u16),
    Encryption(EncryptionSetting),
    Instance(Seq<char>),
    ThreadId(u32),
    Mars(u8),
    TraceId(Seq<u8>, Seq<u8>),
    FedAuthRequired(u8),
    Nonce(Seq<u8>),
    Terminator,
}

impl OptionTokenPair {
    /// The model of this option.
    pub open spec fn model(self) -> OptionTokenModel {
        match self {
            OptionTokenPair::Version(v, s) => OptionTokenModel::Version(v, s),
            OptionTokenPair::Encryption(e) => OptionTokenModel::Encryption(e),
            OptionTokenPair::Instance(s) => OptionTokenModel::Instance(s@),
            OptionTokenPair::ThreadId(t) => OptionTokenModel::ThreadId(t),
            OptionTokenPair::Mars(m) => OptionTokenModel::Mars(m),
            OptionTokenPair::TraceId(c, a) => OptionTokenModel::TraceId(c@, a@),
            OptionTokenPair::FedAuthRequired(f) => OptionTokenModel::FedAuthRequired(f),
            OptionTokenPair::Nonce(n) => OptionTokenModel::Nonce(n@),
            OptionTokenPair::Terminator => OptionTokenModel::Terminator,
        }
    }

    /// The token byte that introduces this option's record.
    pub open spec fn spec_token(self) -> u8 {
        match self {
            OptionTokenPair::Version(_, _) => 0,
            OptionTokenPair::Encryption(_) => 1,
            OptionTokenPair::Instance(_) => 2,
            OptionTokenPair::ThreadId(_) => 3,
            OptionTokenPair::Mars(_) => 4,
            OptionTokenPair::TraceId(_, _) => 5,
            OptionTokenPair::FedAuthRequired(_) => 6,
            OptionTokenPair::Nonce(_) => 7,
            OptionTokenPair::Terminator => 255,
        }
    }

    /// The token byte that introduces this option's record.
    pub fn token(&self) -> (r: u8)
        ensures
            r == self.spec_token(),
    {
        match self {
            OptionTokenPair::Version(_, _) => 0,
            OptionTokenPair::Encryption(_) => 1,
            OptionTokenPair::Instance(_) => 2,
            OptionTokenPair::ThreadId(_) => 3,
            OptionTokenPair::Mars(_) => 4,
            OptionTokenPair::TraceId(_, _) => 5,
            OptionTokenPair::FedAuthRequired(_) => 6,
            OptionTokenPair::Nonce(_) => 7,
            OptionTokenPair::Terminator => 255,
        }
    }

    /// The fixed-size payloads carry their documented sizes.
    pub open spec fn wf(self) -> bool {
        match self {
            OptionTokenPair::TraceId(c, a) => c@.len() == 16 && a@.len() == 20,
            OptionTokenPair::Nonce(n) => n@.len() == 32,
            _ => true,
        }
    }

    /// The payload bytes of this option.
    pub open spec fn payload_bytes(self) -> Seq<u8> {
        match self {
            OptionTokenPair::Version(v, s) => u32_be_bytes(v) + u16_be_bytes(s),
            OptionTokenPair::Encryption(e) => seq![e.spec_code()],
            OptionTokenPair::Instance(s) => vstd::utf8::encode_utf8(s@) + seq![0u8],
            OptionTokenPair::ThreadId(t) => u32_be_bytes(t),
            OptionTokenPair::Mars(m) => seq![m],
            OptionTokenPair::TraceId(c, a) => c@ + a@,
            OptionTokenPair::FedAuthRequired(f) => seq![f],
            OptionTokenPair::Nonce(n) => n@,
            OptionTokenPair::Terminator => Seq::empty(),
        }
    }
}

/// The header records of a prelogin option list, with the first payload at
/// `off`.
pub open spec fn prelogin_headers(opts: Seq<OptionTokenPair>, off: int) -> Seq<u8>
    decreases opts.len(),
{
    if opts.len() == 0 {
        Seq::empty()
    } else {
        seq![opts[0].spec_token()] + u16_be_bytes(off as u16) + u16_be_bytes(
            opts[0].payload_bytes().len() as u16,
        ) + prelogin_headers(opts.drop_first(), off + opts[0].payload_bytes().len())
    }
}

/// The packed payloads of a prelogin option list.
pub open spec fn prelogin_payloads(opts: Seq<OptionTokenPair>) -> Seq<u8>
    decreases opts.len(),
{
    if opts.len() == 0 {
        Seq::empty()
    } else {
        opts[0].payload_bytes() + prelogin_payloads(opts.drop_first())
    }
}

/// The whole prelogin message body: the records, the terminator, then the
/// payloads.
pub open spec fn prelogin_bytes(opts: Seq<OptionTokenPair>) -> Seq<u8> {
    prelogin_headers(opts, 5 * opts.len() as int + 1) + seq![255u8] + prelogin_payloads(opts)
}

/// Append one option's payload bytes.
fn write_option_payload(buf: &mut Vec<u8>, opt: &OptionTokenPair)
    requires
        opt.wf(),
    ensures
        final(buf)@ == old(buf)@ + opt.payload_bytes(),
{
    match opt {
        OptionTokenPair::Version(v, s) => {
            crate::codec::write_u32_be(buf, *v);
            crate::codec::write_u16_be(buf, *s);
            proof {
                assert(final(buf)@ =~= old(buf)@ + opt.payload_bytes());
            }
        },
        OptionTokenPair::Encryption(e) => {
            crate::codec::write_u8(buf, e.code());
            proof {
                assert(final(buf)@ =~= old(buf)@ + opt.payload_bytes());
            }
        },
        OptionTokenPair::Instance(s) => {
            crate::codec::write_bytes(buf, s.as_str().as_bytes());
            crate::codec::write_u8(buf, 0);
            proof {
                assert(final(buf)@ =~= old(buf)@ + opt.payload_bytes());
            }
        },
        OptionTokenPair::ThreadId(t) => {
            crate::codec::write_u32_be(buf, *t);
        },
        OptionTokenPair::Mars(m) => {
            crate::codec::write_u8(buf, *m);
            proof {
                assert(final(buf)@ =~= old(buf)@ + opt.payload_bytes());
            }
        },
        OptionTokenPair::TraceId(c, a) => {
            crate::codec::write_bytes(buf, c.as_slice());
            crate::codec::write_bytes(buf, a.as_slice());
            proof {
                assert(final(buf)@ =~= old(buf)@ + opt.payload_bytes());
            }
        },
        OptionTokenPair::FedAuthRequired(f) => {
            crate::codec::write_u8(buf, *f);
            proof {
                assert(final(buf)@ =~= old(buf)@ + opt.payload_bytes());
            }
        },
        OptionTokenPair::Nonce(n) => {
            crate::codec::write_bytes(buf, n.as_slice());
        },
        OptionTokenPair::Terminator => {
            proof {
                assert(final(buf)@ =~= old(buf)@ + opt.payload_bytes());
            }
        },
    }
}

/// Whether every option in the list is well-formed, none is a terminator,
/// and the whole message's offsets fit their 16-bit fields.
pub open spec fn prelogin_encodable(opts: Seq<OptionTokenPair>) -> bool {
    &&& forall|i: int| 0 <= i < opts.len() ==> (#[trigger] opts[i]).wf()
    &&& forall|i: int| 0 <= i < opts.len() ==> !((#[trigger] opts[i]) is Terminator)
    &&& 5 * opts.len() + 1 + prelogin_payloads(opts).len() <= 0xFFFF
}

/// Serialize a prelogin option list into a message body.
pub fn write_prelogin(opts: &Vec<OptionTokenPair>) -> (r: Vec<u8>)
    requires
        prelogin_encodable(opts@),
    ensures
        r@ == prelogin_bytes(opts@),
{
    let n = opts.len();
    let mut headers: Vec<u8> = Vec::new();
    let mut payloads: Vec<u8> = Vec::new();
    let base: usize = 5 * n + 1;
    let mut i: usize = 0;
    proof {
        assert(opts@.skip(0) =~= opts@);
    }
    while i < n
        invariant
            i <= n,
            n == opts@.len(),
            prelogin_encodable(opts@),
            base == 5 * n + 1,
            headers@ + prelogin_headers(opts@.skip(i as int), base + payloads@.len())
                =~= prelogin_headers(opts@, base as int),
            payloads@ + prelogin_payloads(opts@.skip(i as int)) =~= prelogin_payloads(opts@),
        decreases n - i,
    {
        proof {
            assert(opts@.skip(i as int)[0] == opts@[i as int]);
            assert(opts@.skip(i as int).drop_first() =~= opts@.skip(i + 1));
            assert(opts@[i as int].wf());
        }
        let opt = &opts[i];
        let off: usize = base + payloads.len();
        let before_len = payloads.len();
        write_option_payload(&mut payloads, opt);
        let opt_len: usize = payloads.len() - before_len;
        crate::codec::write_u8(&mut headers, opt.token());
        crate::codec::write_u16_be(&mut headers, off as u16);
        crate::codec::write_u16_be(&mut headers, opt_len as u16);
        i = i + 1;
        proof {
            assert(headers@ + prelogin_headers(opts@.skip(i as int), base + payloads@.len())
                =~= prelogin_headers(opts@, base as int));
            assert(payloads@ + prelogin_payloads(opts@.skip(i as int)) =~= prelogin_payloads(
                opts@,
            ));
        }
    }
    let mut out = headers;
    crate::codec::write_u8(&mut out, 255);
    crate::codec::write_bytes(&mut out, payloads.as_slice());
    proof {
        assert(opts@.skip(n as int) =~= Seq::<OptionTokenPair>::empty());
        assert(out@ =~= prelogin_bytes(opts@));
    }
    out
}

/// Parse the option at an absolute offset, introduced by `token` with the
/// record's stated length.
pub open spec fn spec_parse_option(b: Seq<u8>, token: u8, off: int, len: int) -> Option<
    OptionTokenModel,
> {
    if token == 0 {
        if off >= 0 && off + 6 <= b.len() {
            Some(
                OptionTokenModel::Version(
                    u32_be_of(b.subrange(off, off + 4)),
                    u16_be_of(b.subrange(off + 4, off + 6)),
                ),
            )
        } else {
            None
        }
    } else if token == 1 {
        if off >= 0 && off + 1 <= b.len() {
            match EncryptionSetting::spec_from_code(b[off]) {
                Some(e) => Some(OptionTokenModel::Encryption(e)),
                None => None,
            }
        } else {
            None
        }
    } else if token == 2 {
        if len >= 1 && off >= 0 && off + len - 1 <= b.len() {
            let payload = b.subrange(off, off + len - 1);
            if vstd::utf8::valid_utf8(payload) {
                Some(OptionTokenModel::Instance(vstd::utf8::decode_utf8(payload)))
            } else {
                None
            }
        } else {
            None
        }
    } else if token == 3 {
        if len == 0 {
            Some(OptionTokenModel::ThreadId(0))
        } else if off >= 0 && off + 4 <= b.len() {
            Some(OptionTokenModel::ThreadId(u32_be_of(b.subrange(off, off + 4))))
        } else {
            None
        }
    } else if token == 4 {
        if off >= 0 && off + 1 <= b.len() {
            Some(OptionTokenModel::Mars(b[off]))
        } else {
            None
        }
    } else if token == 5 {
        if off >= 0 && off + 36 <= b.len() {
            Some(
                OptionTokenModel::TraceId(
                    b.subrange(off, off + 16),
                    b.subrange(off + 16, off + 36),
                ),
            )
        } else {
            None
        }
    } else if token == 6 {
        if off >= 0 && off + 1 <= b.len() {
            Some(OptionTokenModel::FedAuthRequired(b[off]))
        } else {
            None
        }
    } else if token == 7 {
        if off >= 0 && off + 32 <= b.len() {
            Some(OptionTokenModel::Nonce(b.subrange(off, off + 32)))
        } else {
            None
        }
    } else {
        None
    }
}

/// Walk the header records from `pos`, collecting each option named by a
/// record, until the terminator byte.
pub open spec fn spec_parse_prelogin_from(b: Seq<u8>, pos: int) -> Option<Seq<OptionTokenModel>>
    decreases b.len() - pos,
{
    if pos < 0 || pos >= b.len() {
        None
    } else if b[pos] == 255 {
        Some(Seq::empty())
    } else if pos + 5 > b.len() {
        None
    } else {
        let token = b[pos];
        let off = u16_be_of(b.subrange(pos + 1, pos + 3)) as int;
        let len = u16_be_of(b.subrange(pos + 3, pos + 5)) as int;
        match spec_parse_option(b, token, off, len) {
            None => None,
            Some(m) => match spec_parse_prelogin_from(b, pos + 5) {
                None => None,
                Some(rest) => Some(seq![m] + rest),
            },
        }
    }
}

/// The options a prelogin response body carries.
pub open spec fn spec_parse_prelogin(b: Seq<u8>) -> Option<Seq<OptionTokenModel>> {
    spec_parse_prelogin_from(b, 0)
}

/// Read one option's payload at an absolute offset.
fn read_option_at(b: &[u8], token: u8, off: u16, len: u16) -> (res: Result<
    OptionTokenPair,
    TdsError,
>)
    ensures
        res is Ok <==> spec_parse_option(b@, token, off as int, len as int) is Some,
        res matches Ok(o) ==> Some(o.model()) == spec_parse_option(
            b@,
            token,
            off as int,
            len as int,
        ),
{
    let blen = b.len();
    let off_s = off as usize;
    if token == 0 {
        if off_s + 6 <= blen {
            let v = (b[off_s] as u32) * 0x1000000 + (b[off_s + 1] as u32) * 0x10000 + (b[off_s
                + 2] as u32) * 0x100 + b[off_s + 3] as u32;
            let s = (b[off_s + 4] as u16) * 256 + b[off_s + 5] as u16;
            proof {
                assert(b@.subrange(off as int, off + 4) =~= seq![
                    b@[off as int],
                    b@[off + 1],
                    b@[off + 2],
                    b@[off + 3],
                ]);
                assert(b@.subrange(off + 4, off + 6) =~= seq![b@[off + 4], b@[off + 5]]);
            }
            Ok(OptionTokenPair::Version(v, s))
        } else {
            Err(TdsError::UnexpectedEOF)
        }
    } else if token == 1 {
        if off_s + 1 <= blen {
            match EncryptionSetting::from_code(b[off_s]) {
                Some(e) => Ok(OptionTokenPair::Encryption(e)),
                None => Err(
                    TdsError::ProtocolError(
                        TdsProtocolError::InvalidValue(
                            String::from_str("prelogin: could not parse encryption"),
                            b[off_s] as u64,
                        ),
                    ),
                ),
            }
        } else {
            Err(TdsError::UnexpectedEOF)
        }
    } else if token == 2 {
        if len >= 1 && off_s + (len as usize - 1) <= blen {
            let payload = vstd::slice::slice_to_vec(
                slice_subrange(b, off_s, off_s + (len as usize - 1)),
            );
            match crate::types::string_from_utf8(payload) {
                Ok(s) => Ok(OptionTokenPair::Instance(s)),
                Err(e) => Err(e),
            }
        } else {
            Err(TdsError::UnexpectedEOF)
        }
    } else if token == 3 {
        if len == 0 {
            Ok(OptionTokenPair::ThreadId(0))
        } else if off_s + 4 <= blen {
            let v = (b[off_s] as u32) * 0x1000000 + (b[off_s + 1] as u32) * 0x10000 + (b[off_s
                + 2] as u32) * 0x100 + b[off_s + 3] as u32;
            proof {
                assert(b@.subrange(off as int, off + 4) =~= seq![
                    b@[off as int],
                    b@[off + 1],
                    b@[off + 2],
                    b@[off + 3],
                ]);
            }
            Ok(OptionTokenPair::ThreadId(v))
        } else {
            Err(TdsError::UnexpectedEOF)
        }
    } else if token == 4 {
        if off_s + 1 <= blen {
            Ok(OptionTokenPair::Mars(b[off_s]))
        } else {
            Err(TdsError::UnexpectedEOF)
        }
    } else if token == 5 {
        if off_s + 36 <= blen {
            let conn_id = vstd::slice::slice_to_vec(slice_subrange(b, off_s, off_s + 16));
            let activity = vstd::slice::slice_to_vec(slice_subrange(b, off_s + 16, off_s + 36));
            Ok(OptionTokenPair::TraceId(conn_id, activity))
        } else {
            Err(TdsError::UnexpectedEOF)
        }
    } else if token == 6 {
        if off_s + 1 <= blen {
            Ok(OptionTokenPair::FedAuthRequired(b[off_s]))
        } else {
            Err(TdsError::UnexpectedEOF)
        }
    } else if token == 7 {
        if off_s + 32 <= blen {
            Ok(OptionTokenPair::Nonce(vstd::slice::slice_to_vec(slice_subrange(b, off_s, off_s + 32))))
        } else {
            Err(TdsError::UnexpectedEOF)
        }
    } else {
        Err(
            TdsError::ProtocolError(
                TdsProtocolError::InvalidValue(
                    String::from_str("prelogin: option token: invalid value"),
                    token as u64,
                ),
            ),
        )
    }
}

/// Parse a prelogin response body into its options.
pub fn parse_prelogin(b: &[u8]) -> (res: Result<Vec<OptionTokenPair>, TdsError>)
    ensures
        res is Ok <==> spec_parse_prelogin(b@) is Some,
        res matches Ok(opts) ==> Some(opts@.map_values(|o: OptionTokenPair| o.model()))
            == spec_parse_prelogin(b@),
{
    let mut out: Vec<OptionTokenPair> = Vec::new();
    let mut pos: usize = 0;
    let blen = b.len();
    proof {
        assert(out@.map_values(|o: OptionTokenPair| o.model()) =~= Seq::<OptionTokenModel>::empty());
    }
    loop
        invariant
            pos <= blen,
            blen == b@.len(),
            spec_parse_prelogin(b@) matches Some(whole) ==> (spec_parse_prelogin_from(
                b@,
                pos as int,
            ) matches Some(rest) && whole == out@.map_values(|o: OptionTokenPair| o.model())
                + rest),
            spec_parse_prelogin(b@) is None ==> spec_parse_prelogin_from(b@, pos as int) is None,
        decreases blen - pos,
    {
        if pos >= blen {
            return Err(TdsError::UnexpectedEOF);
        }
        let token = b[pos];
        if token == 255 {
            proof {
                if let Some(whole) = spec_parse_prelogin(b@) {
                    assert(whole =~= out@.map_values(|o: OptionTokenPair| o.model()));
                }
            }
            return Ok(out);
        }
        if blen - pos < 5 {
            return Err(TdsError::UnexpectedEOF);
        }
        let off = (b[pos + 1] as u16) * 256 + b[pos + 2] as u16;
        let len = (b[pos + 3] as u16) * 256 + b[pos + 4] as u16;
        proof {
            assert(b@.subrange(pos + 1, pos + 3) =~= seq![b@[pos + 1], b@[pos + 2]]);
            assert(b@.subrange(pos + 3, pos + 5) =~= seq![b@[pos + 3], b@[pos + 4]]);
        }
        let opt = match read_option_at(b, token, off, len) {
            Ok(o) => o,
            Err(e) => {
                return Err(e);
            },
        };
        let ghost prev = out@;
        out.push(opt);
        pos = pos + 5;
        proof {
            assert(out@.map_values(|o: OptionTokenPair| o.model()) =~= prev.map_values(
                |o: OptionTokenPair| o.model(),
            ).push(opt.model()));
            if let Some(rest2) = spec_parse_prelogin_from(b@, pos as int) {
                assert(out@.map_values(|o: OptionTokenPair| o.model()) + rest2 =~= prev.map_values(
                    |o: OptionTokenPair| o.model(),
                ) + (seq![opt.model()] + rest2));
            }
        }
    }
}

/// The header records of `n` options occupy exactly `5 * n` bytes.
proof fn lemma_prelogin_headers_len(opts: Seq<OptionTokenPair>, off: int)
    ensures
        prelogin_headers(opts, off).len() == 5 * opts.len(),
    decreases opts.len(),
{
    if opts.len() > 0 {
        lemma_prelogin_headers_len(opts.drop_first(), off + opts[0].payload_bytes().len());
    }
}

/// The packed payloads split at any option: the prefix's payloads, that
/// option's payload, then the suffix's payloads.
proof fn lemma_prelogin_payloads_split(opts: Seq<OptionTokenPair>, i: int)
    requires
        0 <= i < opts.len(),
    ensures
        prelogin_payloads(opts) == prelogin_payloads(opts.take(i)) + opts[i].payload_bytes()
            + prelogin_payloads(opts.skip(i + 1)),
    decreases i,
{
    if i == 0 {
        assert(opts.take(0) =~= Seq::<OptionTokenPair>::empty());
        assert(opts.drop_first() =~= opts.skip(1));
        assert(prelogin_payloads(opts) =~= prelogin_payloads(opts.take(0))
            + opts[0].payload_bytes() + prelogin_payloads(opts.skip(1)));
    } else {
        lemma_prelogin_payloads_split(opts.drop_first(), i - 1);
        assert(opts.drop_first().take(i - 1) =~= opts.take(i).drop_first());
        assert(opts.drop_first().skip(i) =~= opts.skip(i + 1));
        assert(opts.drop_first()[i - 1] == opts[i]);
        assert(opts.take(i)[0] == opts[0]);
        assert(prelogin_payloads(opts.take(i)) == opts[0].payload_bytes() + prelogin_payloads(
            opts.take(i).drop_first(),
        ));
        assert(prelogin_payloads(opts) == opts[0].payload_bytes() + (prelogin_payloads(
            opts.drop_first().take(i - 1),
        ) + opts[i].payload_bytes() + prelogin_payloads(opts.drop_first().skip(i))));
        assert(opts[0].payload_bytes() + (prelogin_payloads(opts.drop_first().take(i - 1))
            + opts[i].payload_bytes() + prelogin_payloads(opts.drop_first().skip(i))) =~= (
        opts[0].payload_bytes() + prelogin_payloads(opts.drop_first().take(i - 1)))
            + opts[i].payload_bytes() + prelogin_payloads(opts.drop_first().skip(i)));
        assert(opts[0].payload_bytes() + prelogin_payloads(opts.drop_first().take(i - 1))
            =~= prelogin_payloads(opts.take(i)));
    }
}

/// The `i`-th header record: the option's token byte, the big-endian offset
/// of its payload (the base plus the payloads before it), and its payload's
/// big-endian length.
proof fn lemma_prelogin_header_record(opts: Seq<OptionTokenPair>, off: int, i: int)
    requires
        0 <= i < opts.len(),
    ensures
        prelogin_headers(opts, off).subrange(5 * i, 5 * i + 5) == seq![opts[i].spec_token()]
            + u16_be_bytes((off + prelogin_payloads(opts.take(i)).len()) as u16) + u16_be_bytes(
            opts[i].payload_bytes().len() as u16,
        ),
    decreases i,
{
    lemma_prelogin_headers_len(opts, off);
    if i == 0 {
        assert(opts.take(0) =~= Seq::<OptionTokenPair>::empty());
        assert(prelogin_headers(opts, off).subrange(0, 5) =~= seq![opts[0].spec_token()]
            + u16_be_bytes(off as u16) + u16_be_bytes(opts[0].payload_bytes().len() as u16));
    } else {
        let rest = opts.drop_first();
        let off2 = off + opts[0].payload_bytes().len();
        lemma_prelogin_header_record(rest, off2, i - 1);
        lemma_prelogin_headers_len(rest, off2);
        assert(rest[i - 1] == opts[i]);
        assert(prelogin_headers(opts, off).subrange(5 * i, 5 * i + 5) =~= prelogin_headers(
            rest,
            off2,
        ).subrange(5 * (i - 1), 5 * (i - 1) + 5));
        assert(rest.take(i - 1) =~= opts.take(i).drop_first());
        assert(opts.take(i)[0] == opts[0]);
        assert(prelogin_payloads(opts.take(i)) == opts[0].payload_bytes() + prelogin_payloads(
            rest.take(i - 1),
        ));
        assert(off2 + prelogin_payloads(rest.take(i - 1)).len() == off + prelogin_payloads(
            opts.take(i),
        ).len());
    }
}

/// Payload lengths are nonnegative, so every prefix's payloads fit inside
/// the whole.
proof fn lemma_prelogin_payload_bounds(opts: Seq<OptionTokenPair>, i: int)
    requires
        0 <= i < opts.len(),
    ensures
        prelogin_payloads(opts.take(i)).len() + opts[i].payload_bytes().len()
            <= prelogin_payloads(opts).len(),
{
    lemma_prelogin_payloads_split(opts, i);
}

/// Parsing one option's payload back at its absolute offset yields the
/// option's model.
proof fn lemma_prelogin_option_round_trip(b: Seq<u8>, o: OptionTokenPair, off: int)
    requires
        o.wf(),
        !(o is Terminator),
        0 <= off,
        off + o.payload_bytes().len() <= b.len(),
        b.subrange(off, off + o.payload_bytes().len()) == o.payload_bytes(),
    ensures
        spec_parse_option(b, o.spec_token(), off, o.payload_bytes().len() as int) == Some(
            o.model(),
        ),
{
    let len = o.payload_bytes().len() as int;
    match o {
        OptionTokenPair::Version(v, sub) => {
            assert(b.subrange(off, off + 4) =~= u32_be_bytes(v)) by {
                assert(b.subrange(off, off + 6).subrange(0, 4) =~= b.subrange(off, off + 4));
                assert(o.payload_bytes().subrange(0, 4) =~= u32_be_bytes(v));
            }
            assert(b.subrange(off + 4, off + 6) =~= u16_be_bytes(sub)) by {
                assert(o.payload_bytes().subrange(4, 6) =~= u16_be_bytes(sub));
                assert(b.subrange(off, off + 6).subrange(4, 6) =~= b.subrange(off + 4, off + 6));
            }
            crate::codec::lemma_u32_be_round_trip(v);
            crate::codec::lemma_u16_be_round_trip(sub);
        },
        OptionTokenPair::Encryption(e) => {
            assert(b[off] == e.spec_code()) by {
                assert(o.payload_bytes()[0] == e.spec_code());
            }
            assert(EncryptionSetting::spec_from_code(e.spec_code()) == Some(e));
        },
        OptionTokenPair::Instance(st) => {
            let enc = vstd::utf8::encode_utf8(st@);
            assert(len == enc.len() + 1);
            assert(b.subrange(off, off + len - 1) =~= enc) by {
                assert(o.payload_bytes().subrange(0, enc.len() as int) =~= enc);
                assert(b.subrange(off, off + len).subrange(0, enc.len() as int) =~= b.subrange(
                    off,
                    off + len - 1,
                ));
            }
            vstd::utf8::encode_utf8_valid_utf8(st@);
            vstd::utf8::encode_utf8_decode_utf8(st@);
        },
        OptionTokenPair::ThreadId(t) => {
            assert(len == 4);
            assert(b.subrange(off, off + 4) =~= u32_be_bytes(t));
            crate::codec::lemma_u32_be_round_trip(t);
        },
        OptionTokenPair::Mars(m) => {
            assert(b[off] == m) by {
                assert(o.payload_bytes()[0] == m);
            }
        },
        OptionTokenPair::TraceId(c, a) => {
            assert(len == 36);
            assert(b.subrange(off, off + 16) =~= c@) by {
                assert(o.payload_bytes().subrange(0, 16) =~= c@);
                assert(b.subrange(off, off + 36).subrange(0, 16) =~= b.subrange(off, off + 16));
            }
            assert(b.subrange(off + 16, off + 36) =~= a@) by {
                assert(o.payload_bytes().subrange(16, 36) =~= a@);
                assert(b.subrange(off, off + 36).subrange(16, 36) =~= b.subrange(
                    off + 16,
                    off + 36,
                ));
            }
        },
        OptionTokenPair::FedAuthRequired(f) => {
            assert(b[off] == f) by {
                assert(o.payload_bytes()[0] == f);
            }
        },
        OptionTokenPair::Nonce(n) => {
            assert(len == 32);
            assert(b.subrange(off, off + 32) =~= n@);
        },
        OptionTokenPair::Terminator => {
            assert(false);
        },
    }
}

/// Parsing the records from the `i`-th onward yields the remaining options'
/// models.
proof fn lemma_prelogin_parse_from(opts: Seq<OptionTokenPair>, i: int)
    requires
        prelogin_encodable(opts),
        0 <= i <= opts.len(),
    ensures
        spec_parse_prelogin_from(prelogin_bytes(opts), 5 * i) == Some(
            opts.skip(i).map_values(|o: OptionTokenPair| o.model()),
        ),
    decreases opts.len() - i,
{
    let b = prelogin_bytes(opts);
    let n = opts.len() as int;
    let base = 5 * n + 1;
    let hdrs = prelogin_headers(opts, base);
    let pls = prelogin_payloads(opts);
    lemma_prelogin_headers_len(opts, base);
    assert(b.len() == 5 * n + 1 + pls.len());
    if i == n {
        assert(b[5 * i] == 255);
        assert(opts.skip(i) =~= Seq::<OptionTokenPair>::empty());
        assert(opts.skip(i).map_values(|o: OptionTokenPair| o.model())
            =~= Seq::<OptionTokenModel>::empty());
    } else {
        let o = opts[i];
        let plen = o.payload_bytes().len() as int;
        let prefix_len = prelogin_payloads(opts.take(i)).len() as int;
        let off = base + prefix_len;
        lemma_prelogin_header_record(opts, base, i);
        lemma_prelogin_payload_bounds(opts, i);
        assert(b.subrange(5 * i, 5 * i + 5) =~= hdrs.subrange(5 * i, 5 * i + 5));
        let record = seq![o.spec_token()] + u16_be_bytes(off as u16) + u16_be_bytes(plen as u16);
        assert(b[5 * i] == record[0]);
        assert(!(o is Terminator));
        assert(b[5 * i] == o.spec_token());
        assert(b[5 * i] != 255) by {
            match o {
                OptionTokenPair::Terminator => {
                    assert(false);
                },
                _ => {},
            }
        }
        assert(b.subrange(5 * i + 1, 5 * i + 3) =~= u16_be_bytes(off as u16)) by {
            assert(record.subrange(1, 3) =~= u16_be_bytes(off as u16));
        }
        assert(b.subrange(5 * i + 3, 5 * i + 5) =~= u16_be_bytes(plen as u16)) by {
            assert(record.subrange(3, 5) =~= u16_be_bytes(plen as u16));
        }
        assert(off <= 0xFFFF && plen <= 0xFFFF);
        crate::codec::lemma_u16_be_round_trip(off as u16);
        crate::codec::lemma_u16_be_round_trip(plen as u16);
        lemma_prelogin_payloads_split(opts, i);
        assert(b.subrange(off, off + plen) =~= o.payload_bytes());
        assert(o.wf());
        lemma_prelogin_option_round_trip(b, o, off);
        lemma_prelogin_parse_from(opts, i + 1);
        assert(opts.skip(i)[0] == o);
        assert(opts.skip(i).drop_first() =~= opts.skip(i + 1));
        assert(opts.skip(i).map_values(|x: OptionTokenPair| x.model()) =~= seq![o.model()]
            + opts.skip(i + 1).map_values(|x: OptionTokenPair| x.model()));
    }
}

/// Parsing a serialized prelogin option list yields the options back, model
/// for model, for every encodable list.
pub proof fn lemma_prelogin_round_trip(opts: Seq<OptionTokenPair>)
    requires
        prelogin_encodable(opts),
    ensures
        spec_parse_prelogin(prelogin_bytes(opts)) == Some(
            opts.map_values(|o: OptionTokenPair| o.model()),
        ),
{
    lemma_prelogin_parse_from(opts, 0);
    assert(opts.skip(0) =~= opts);
    assert(opts.skip(0).map_values(|o: OptionTokenPair| o.model()) =~= opts.map_values(
        |o: OptionTokenPair| o.model(),
    ));
}

} // verus!
