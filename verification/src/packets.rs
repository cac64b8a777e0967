//! Packet framing: the 8-byte TDS packet header, its byte-exact encoding and
//! decoding, and the segmentation of a logical message into packets that
//! respect the negotiated packet size.
use vstd::prelude::*;
use vstd::slice::{slice_subrange, slice_to_vec};

use crate::codec::{u16_be_bytes, u16_be_of, Reader};
use crate::{TdsError, TdsProtocolError};

verus! {

/// The header size of every TDS packet, in bytes.
pub const HEADER_SIZE: u16 = 8;

/// The type of a packet.
#[derive(Copy, Clone, Debug, PartialEq, Eq, Structural)]
pub enum PacketType {
    /// Invalid; never sent.
    Unknown,
    SqlBatch,
    Rpc,
    TabularResult,
    Attention,
    BulkLoadData,
    FedAuthToken,
    TransactionManagerReq,
    /// Login, for TDS versions 7 and later.
    Login,
    Sspi,
    PreLogin,
}

impl PacketType {
    /// The wire code of this packet type.
    pub open spec fn spec_code(self) -> u8 {
        match self {
            PacketType::Unknown => 0,
            PacketType::SqlBatch => 1,
            PacketType::Rpc => 3,
            PacketType::TabularResult => 4,
            PacketType::Attention => 6,
            PacketType::BulkLoadData => 7,
            PacketType::FedAuthToken => 8,
            PacketType::TransactionManagerReq => 14,
            PacketType::Login => 16,
            PacketType::Sspi => 17,
            PacketType::PreLogin => 18,
        }
    }

    /// The packet type a wire code names, if any.
    pub open spec fn spec_from_code(code: u8) -> Option<PacketType> {
        match code {
            0u8 => Some(PacketType::Unknown),
            1u8 => Some(PacketType::SqlBatch),
            3u8 => Some(PacketType::Rpc),
            4u8 => Some(PacketType::TabularResult),
            6u8 => Some(PacketType::Attention),
            7u8 => Some(PacketType::BulkLoadData),
            8u8 => Some(PacketType::FedAuthToken),
            14u8 => Some(PacketType::TransactionManagerReq),
            16u8 => Some(PacketType::Login),
            17u8 => Some(PacketType::Sspi),
            18u8 => Some(PacketType::PreLogin),
            _ => None,
        }
    }

    /// The wire code of this packet type.
    pub fn code(self) -> (r: u8)
        ensures
            r == self.spec_code(),
    {
        match self {
            PacketType::Unknown => 0,
            PacketType::SqlBatch => 1,
            PacketType::Rpc => 3,
            PacketType::TabularResult => 4,
            PacketType::Attention => 6,
            PacketType::BulkLoadData => 7,
            PacketType::FedAuthToken => 8,
            PacketType::TransactionManagerReq => 14,
            PacketType::Login => 16,
            PacketType::Sspi => 17,
            PacketType::PreLogin => 18,
        }
    }

    /// Recognize a wire code.
    pub fn from_code(code: u8) -> (r: Option<PacketType>)
        ensures
            r == PacketType::spec_from_code(code),
    {
        match code {
            0 => Some(PacketType::Unknown),
            1 => Some(PacketType::SqlBatch),
            3 => Some(PacketType::Rpc),
            4 => Some(PacketType::TabularResult),
            6 => Some(PacketType::Attention),
            7 => Some(PacketType::BulkLoadData),
            8 => Some(PacketType::FedAuthToken),
            14 => Some(PacketType::TransactionManagerReq),
            16 => Some(PacketType::Login),
            17 => Some(PacketType::Sspi),
            18 => Some(PacketType::PreLogin),
            _ => None,
        }
    }
}

/// Decoding a type's own code names the type.
pub proof fn lemma_packet_type_code_round_trip(t: PacketType)
    ensures
        PacketType::spec_from_code(t.spec_code()) == Some(t),
{
}

/// The status bitfield values a packet header can carry.
#[derive(Copy, Clone, Debug, PartialEq, Eq, Structural)]
pub enum PacketStatus {
    NormalMessage,
    EndOfMessage,
    IgnoreEvent,
    ResetConnection,
    ResetConnectionSkipTransaction,
}

impl PacketStatus {
    /// The wire code of this status.
    pub open spec fn spec_code(self) -> u8 {
        match self {
            PacketStatus::NormalMessage => 0,
            PacketStatus::EndOfMessage => 1,
            PacketStatus::IgnoreEvent => 3,
            PacketStatus::ResetConnection => 8,
            PacketStatus::ResetConnectionSkipTransaction => 16,
        }
    }

    /// The status a wire code names, if any.
    pub open spec fn spec_from_code(code: u8) -> Option<PacketStatus> {
        match code {
            0u8 => Some(PacketStatus::NormalMessage),
            1u8 => Some(PacketStatus::EndOfMessage),
            3u8 => Some(PacketStatus::IgnoreEvent),
            8u8 => Some(PacketStatus::ResetConnection),
            16u8 => Some(PacketStatus::ResetConnectionSkipTransaction),
            _ => None,
        }
    }

    /// The wire code of this status.
    pub fn code(self) -> (r: u8)
        ensures
            r == self.spec_code(),
    {
        match self {
            PacketStatus::NormalMessage => 0,
            PacketStatus::EndOfMessage => 1,
            PacketStatus::IgnoreEvent => 3,
            PacketStatus::ResetConnection => 8,
            PacketStatus::ResetConnectionSkipTransaction => 16,
        }
    }

    /// Recognize a wire code.
    pub fn from_code(code: u8) -> (r: Option<PacketStatus>)
        ensures
            r == PacketStatus::spec_from_code(code),
    {
        match code {
            0 => Some(PacketStatus::NormalMessage),
            1 => Some(PacketStatus::EndOfMessage),
            3 => Some(PacketStatus::IgnoreEvent),
            8 => Some(PacketStatus::ResetConnection),
            16 => Some(PacketStatus::ResetConnectionSkipTransaction),
            _ => None,
        }
    }
}

/// Decoding a status's own code names the status.
pub proof fn lemma_packet_status_code_round_trip(s: PacketStatus)
    ensures
        PacketStatus::spec_from_code(s.spec_code()) == Some(s),
{
}

/// The 8-byte header that precedes every packet.
#[derive(Copy, Clone, Debug, PartialEq, Eq, Structural)]
pub struct PacketHeader {
    /// What the packet carries.
    pub ptype: PacketType,
    /// Status bits; bit 0 marks the end of a logical message.
    pub status: PacketStatus,
    /// Total packet length, header included; sent big-endian.
    pub length: u16,
    /// The server process id; sent big-endian, only for debugging.
    pub spid: u16,
    /// The session's rolling packet counter, modulo 255.
    pub id: u8,
    /// Unused.
    pub window: u8,
}

/// The eight bytes of a header on the wire.
pub open spec fn header_bytes(h: PacketHeader) -> Seq<u8> {
    seq![h.ptype.spec_code(), h.status.spec_code()] + u16_be_bytes(h.length) + u16_be_bytes(h.spid)
        + seq![h.id, h.window]
}

impl PacketHeader {
    /// A header with every field zeroed.
    pub fn new() -> (r: PacketHeader)
        ensures
            r == (PacketHeader {
                ptype: PacketType::Unknown,
                status: PacketStatus::NormalMessage,
                length: 0u16,
                spid: 0u16,
                id: 0u8,
                window: 0u8,
            }),
    {
        PacketHeader {
            ptype: PacketType::Unknown,
            status: PacketStatus::NormalMessage,
            length: 0,
            spid: 0,
            id: 0,
            window: 0,
        }
    }
}

/// Encode a packet header as its eight wire bytes.
pub fn encode_header(h: &PacketHeader) -> (r: Vec<u8>)
    ensures
        r@ == header_bytes(*h),
        r@.len() == 8,
{
    let mut buf: Vec<u8> = Vec::new();
    crate::codec::write_u8(&mut buf, h.ptype.code());
    crate::codec::write_u8(&mut buf, h.status.code());
    crate::codec::write_u16_be(&mut buf, h.length);
    crate::codec::write_u16_be(&mut buf, h.spid);
    crate::codec::write_u8(&mut buf, h.id);
    crate::codec::write_u8(&mut buf, h.window);
    proof {
        assert(buf@ =~= header_bytes(*h));
    }
    buf
}

/// Whether eight bytes form a well-formed header: the type and status codes
/// are both known, and the length field covers at least the header itself.
pub open spec fn header_decodes(b: Seq<u8>) -> bool {
    &&& b.len() >= 8
    &&& PacketType::spec_from_code(b[0]) is Some
    &&& PacketStatus::spec_from_code(b[1]) is Some
    &&& u16_be_of(b.subrange(2, 4)) >= 8
}

/// The header eight bytes describe.
pub open spec fn spec_decode_header(b: Seq<u8>) -> PacketHeader
    recommends
        header_decodes(b),
{
    PacketHeader {
        ptype: PacketType::spec_from_code(b[0]).unwrap(),
        status: PacketStatus::spec_from_code(b[1]).unwrap(),
        length: u16_be_of(b.subrange(2, 4)),
        spid: u16_be_of(b.subrange(4, 6)),
        id: b[6],
        window: b[7],
    }
}

/// Decode a packet header from the first eight bytes of `b`.
///
/// An unknown type or status code is a protocol error, as is a length field
/// too small to cover the header; fewer than eight bytes is an unexpected
/// end of input.
pub fn decode_header(b: &[u8]) -> (r: Result<PacketHeader, TdsError>)
    ensures
        r is Ok <==> header_decodes(b@),
        r matches Ok(h) ==> h == spec_decode_header(b@),
        r is Err ==> (b@.len() < 8 && r == Err::<PacketHeader, TdsError>(TdsError::UnexpectedEOF))
            || (b@.len() >= 8 && r matches Err(TdsError::ProtocolError(_))),
        b@.len() >= 8 && (PacketType::spec_from_code(b@[0]) is None
            || PacketStatus::spec_from_code(b@[1]) is None) ==> r matches Err(
            TdsError::ProtocolError(TdsProtocolError::InvalidValue(_, _)),
        ),
        b@.len() >= 8 && PacketType::spec_from_code(b@[0]) is Some && PacketStatus::spec_from_code(
            b@[1],
        ) is Some && u16_be_of(b@.subrange(2, 4)) < 8 ==> r matches Err(
            TdsError::ProtocolError(TdsProtocolError::InvalidLength(_)),
        ),
{
    if b.len() < 8 {
        return Err(TdsError::UnexpectedEOF);
    }
    let type_code = b[0];
    let status_code = b[1];
    let ptype = match PacketType::from_code(type_code) {
        Some(t) => t,
        None => {
            return Err(
                TdsError::ProtocolError(
                    TdsProtocolError::InvalidValue(
                        String::from_str("header: unknown packet type"),
                        type_code as u64,
                    ),
                ),
            );
        },
    };
    let status = match PacketStatus::from_code(status_code) {
        Some(s) => s,
        None => {
            return Err(
                TdsError::ProtocolError(
                    TdsProtocolError::InvalidValue(
                        String::from_str("header: unknown status"),
                        status_code as u64,
                    ),
                ),
            );
        },
    };
    let length = (b[2] as u16) * 256 + b[3] as u16;
    let spid = (b[4] as u16) * 256 + b[5] as u16;
    proof {
        assert(b@.subrange(2, 4) =~= seq![b@[2], b@[3]]);
        assert(b@.subrange(4, 6) =~= seq![b@[4], b@[5]]);
    }
    if length < 8 {
        return Err(
            TdsError::ProtocolError(
                TdsProtocolError::InvalidLength(
                    String::from_str("header: length below the header size"),
                ),
            ),
        );
    }
    Ok(PacketHeader { ptype, status, length, spid, id: b[6], window: b[7] })
}

/// Decoding a header's own bytes yields the header again, for every header
/// whose length field covers at least the header itself (the only kind the
/// library builds).
pub proof fn lemma_header_round_trip(h: PacketHeader)
    requires
        h.length >= 8,
    ensures
        header_decodes(header_bytes(h)),
        spec_decode_header(header_bytes(h)) == h,
{
    let b = header_bytes(h);
    assert(b[0] == h.ptype.spec_code());
    assert(b[1] == h.status.spec_code());
    assert(b.subrange(2, 4) =~= u16_be_bytes(h.length));
    assert(b.subrange(4, 6) =~= u16_be_bytes(h.spid));
    crate::codec::lemma_u16_be_round_trip(h.length);
    crate::codec::lemma_u16_be_round_trip(h.spid);
}

/// A packet as read off the wire: its header and its raw payload.
#[derive(Debug)]
pub struct RawPacket {
    /// The packet's header.
    pub header: PacketHeader,
    /// The `length - 8` payload bytes.
    pub data: Vec<u8>,
}

/// The payload chunks a message body is cut into, each at most `cap` bytes,
/// all but the last exactly `cap`. An empty body still yields one (empty)
/// chunk, since even an empty message is sent as one packet.
pub open spec fn chunks_of(body: Seq<u8>, cap: int) -> Seq<Seq<u8>>
    recommends
        cap >= 1,
    decreases body.len(),
{
    if body.len() <= cap {
        seq![body]
    } else if cap < 1 {
        seq![body]
    } else {
        seq![body.take(cap)] + chunks_of(body.skip(cap), cap)
    }
}

/// The concatenation of a sequence of chunks.
pub open spec fn concat_chunks(chunks: Seq<Seq<u8>>) -> Seq<u8>
    decreases chunks.len(),
{
    if chunks.len() == 0 {
        Seq::empty()
    } else {
        chunks[0] + concat_chunks(chunks.drop_first())
    }
}

/// Cutting a body into chunks and concatenating them restores the body, for
/// every body and every positive chunk capacity.
pub proof fn lemma_segmentation_round_trip(body: Seq<u8>, cap: int)
    requires
        cap >= 1,
    ensures
        concat_chunks(chunks_of(body, cap)) == body,
    decreases body.len(),
{
    if body.len() <= cap {
        let cs = chunks_of(body, cap);
        assert(cs.len() == 1 && cs[0] == body);
        assert(cs.drop_first() =~= Seq::<Seq<u8>>::empty());
        assert(concat_chunks(cs) == cs[0] + concat_chunks(cs.drop_first()));
        assert(body + Seq::<u8>::empty() =~= body);
    } else {
        lemma_segmentation_round_trip(body.skip(cap), cap);
        assert(chunks_of(body, cap).drop_first() =~= chunks_of(body.skip(cap), cap));
        assert(concat_chunks(chunks_of(body, cap)) =~= body.take(cap) + body.skip(cap));
        assert(body.take(cap) + body.skip(cap) =~= body);
    }
}

/// Every chunk fits the capacity; all but the last are exactly full, and a
/// body no longer than the capacity is a single chunk.
pub proof fn lemma_chunk_sizes(body: Seq<u8>, cap: int)
    requires
        cap >= 1,
    ensures
        chunks_of(body, cap).len() >= 1,
        forall|i: int|
            0 <= i < chunks_of(body, cap).len() ==> (#[trigger] chunks_of(body, cap)[i]).len()
                <= cap,
        forall|i: int|
            0 <= i < chunks_of(body, cap).len() - 1 ==> (#[trigger] chunks_of(body, cap)[i]).len()
                == cap,
        body.len() <= cap ==> chunks_of(body, cap) == seq![body],
    decreases body.len(),
{
    if body.len() > cap {
        lemma_chunk_sizes(body.skip(cap), cap);
        let cs = chunks_of(body, cap);
        let rest = chunks_of(body.skip(cap), cap);
        assert forall|i: int| 0 <= i < cs.len() implies (#[trigger] cs[i]).len() <= cap by {
            if i > 0 {
                assert(cs[i] == rest[i - 1]);
            }
        }
        assert forall|i: int| 0 <= i < cs.len() - 1 implies (#[trigger] cs[i]).len() == cap by {
            if i > 0 {
                assert(cs[i] == rest[i - 1]);
            }
        }
    }
}

/// Cut a message body into payload chunks of at most `packet_size - 8` bytes.
///
/// A body that fits, even exactly, is a single chunk, so it travels as one
/// end-of-message packet.
pub fn segment_message(body: &[u8], packet_size: u16) -> (r: Vec<Vec<u8>>)
    requires
        packet_size >= 9,
    ensures
        r@.map_values(|c: Vec<u8>| c@) == chunks_of(body@, packet_size - 8),
{
    let cap: usize = (packet_size - 8) as usize;
    let mut out: Vec<Vec<u8>> = Vec::new();
    let mut offset: usize = 0;
    proof {
        assert(body@.skip(0) =~= body@);
        assert(out@.map_values(|c: Vec<u8>| c@) =~= Seq::<Seq<u8>>::empty());
        assert(chunks_of(body@, cap as int) =~= out@.map_values(|c: Vec<u8>| c@) + chunks_of(
            body@.skip(0),
            cap as int,
        ));
    }
    while body.len() - offset > cap
        invariant
            cap == packet_size - 8,
            cap >= 1,
            offset <= body@.len(),
            chunks_of(body@, cap as int) =~= out@.map_values(|c: Vec<u8>| c@) + chunks_of(
                body@.skip(offset as int),
                cap as int,
            ),
        decreases body@.len() - offset,
    {
        let ghost prev = out@;
        let chunk = slice_to_vec(slice_subrange(body, offset, offset + cap));
        out.push(chunk);
        proof {
            let tail = body@.skip(offset as int);
            assert(tail.take(cap as int) =~= body@.subrange(offset as int, offset + cap));
            assert(tail.skip(cap as int) =~= body@.skip(offset + cap));
            assert(out@.map_values(|c: Vec<u8>| c@) =~= prev.map_values(|c: Vec<u8>| c@) + seq![
                body@.subrange(offset as int, offset + cap),
            ]);
        }
        offset = offset + cap;
        proof {
            assert(chunks_of(body@, cap as int) =~= out@.map_values(|c: Vec<u8>| c@) + chunks_of(
                body@.skip(offset as int),
                cap as int,
            ));
        }
    }
    let ghost prev = out@;
    let last = slice_to_vec(slice_subrange(body, offset, body.len()));
    out.push(last);
    proof {
        let tail = body@.skip(offset as int);
        assert(tail =~= body@.subrange(offset as int, body@.len() as int));
        assert(chunks_of(tail, cap as int) =~= seq![tail]);
        assert(out@.map_values(|c: Vec<u8>| c@) =~= prev.map_values(|c: Vec<u8>| c@) + seq![tail]);
        assert(out@.map_values(|c: Vec<u8>| c@) =~= chunks_of(body@, cap as int));
    }
    out
}

/// Concatenate the payloads of the packets of a logical message back into one
/// body.
pub fn reassemble(payloads: &Vec<Vec<u8>>) -> (r: Vec<u8>)
    ensures
        r@ == concat_chunks(payloads@.map_values(|c: Vec<u8>| c@)),
{
    let mut out: Vec<u8> = Vec::new();
    let mut i: usize = 0;
    proof {
        lemma_concat_chunks_take(payloads@.map_values(|c: Vec<u8>| c@), 0);
    }
    while i < payloads.len()
        invariant
            i <= payloads@.len(),
            out@ == concat_chunks(payloads@.map_values(|c: Vec<u8>| c@).take(i as int)),
        decreases payloads@.len() - i,
    {
        crate::codec::write_bytes(&mut out, payloads[i].as_slice());
        proof {
            let views = payloads@.map_values(|c: Vec<u8>| c@);
            lemma_concat_chunks_snoc(views, i as int);
        }
        i = i + 1;
    }
    proof {
        let views = payloads@.map_values(|c: Vec<u8>| c@);
        assert(views.take(views.len() as int) =~= views);
    }
    out
}

/// Concatenating an empty prefix yields the empty sequence.
proof fn lemma_concat_chunks_take(chunks: Seq<Seq<u8>>, i: int)
    requires
        i == 0,
    ensures
        concat_chunks(chunks.take(i)) == Seq::<u8>::empty(),
{
    assert(chunks.take(0) =~= Seq::<Seq<u8>>::empty());
}

/// Extending a concatenated prefix by one chunk appends that chunk.
proof fn lemma_concat_chunks_snoc(chunks: Seq<Seq<u8>>, i: int)
    requires
        0 <= i < chunks.len(),
    ensures
        concat_chunks(chunks.take(i + 1)) == concat_chunks(chunks.take(i)) + chunks[i],
    decreases i,
{
    if i == 0 {
        let cs = chunks.take(1);
        assert(cs.len() == 1 && cs[0] == chunks[0]);
        assert(cs.drop_first() =~= Seq::<Seq<u8>>::empty());
        assert(concat_chunks(cs) == cs[0] + concat_chunks(cs.drop_first()));
        assert(chunks[0] + Seq::<u8>::empty() =~= chunks[0]);
        assert(chunks.take(0) =~= Seq::<Seq<u8>>::empty());
        assert(concat_chunks(chunks.take(0)) + chunks[0] =~= chunks[0]);
    } else {
        lemma_concat_chunks_snoc(chunks.drop_first(), i - 1);
        assert(chunks.take(i + 1).drop_first() =~= chunks.drop_first().take(i));
        assert(chunks.take(i).drop_first() =~= chunks.drop_first().take(i - 1));
        assert(chunks.take(i + 1)[0] == chunks[0]);
        assert(chunks.take(i)[0] == chunks[0]);
        assert(chunks.drop_first()[i - 1] == chunks[i]);
        assert(chunks[0] + (concat_chunks(chunks.drop_first().take(i - 1)) + chunks[i]) =~= (
        chunks[0] + concat_chunks(chunks.drop_first().take(i - 1))) + chunks[i]);
    }
}

} // verus!
