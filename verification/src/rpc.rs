//! Outbound request bodies: the ALL_HEADERS preamble, the SQLBATCH body,
//! and the RPC request with its typed parameters.
use vstd::prelude::*;

use crate::codec::{u16_le_bytes, u32_le_bytes, u32_of_i32, u64_le_bytes};
use crate::types::ColumnType;
use crate::utf16::utf16le_bytes;
use crate::TdsError;

verus! {

/// The flag marking an RPC parameter passed by reference (an OUTPUT
/// parameter).
pub const RPC_BY_REF_VALUE: u8 = 0x01;

/// The RPC flag requesting recompilation.
pub const RPC_WITH_RECOMP: u16 = 0x01;

/// The RPC flag announcing the client already caches metadata.
pub const RPC_NO_META_DATA: u16 = 0x02;

/// The RPC flag allowing metadata reuse.
pub const RPC_REUSE_META_DATA: u16 = 0x04;

/// The well-known stored procedures addressed by id.
#[derive(Copy, Clone, Debug, PartialEq, Eq, Structural)]
pub enum RpcProcId {
    SpPrepare,
    SpExecute,
    SpUnprepare,
}

impl RpcProcId {
    /// The procedure's wire id.
    pub open spec fn spec_code(self) -> u16 {
        match self {
            RpcProcId::SpPrepare => 11,
            RpcProcId::SpExecute => 12,
            RpcProcId::SpUnprepare => 15,
        }
    }

    /// The procedure's wire id.
    pub fn code(self) -> (r: u16)
        ensures
            r == self.spec_code(),
    {
        match self {
            RpcProcId::SpPrepare => 11,
            RpcProcId::SpExecute => 12,
            RpcProcId::SpUnprepare => 15,
        }
    }
}

/// How an RPC request names its procedure: by name, or by well-known id.
#[derive(Debug, Clone, PartialEq, Eq)]
pub enum RpcProcIdValue {
    Name(String),
    Id(RpcProcId),
}

/// One RPC parameter: its name, its status flags and its value.
#[derive(Debug, Clone, PartialEq, Eq)]
pub struct RpcParamData {
    /// The parameter's name, without the leading `@`.
    pub name: String,
    /// Status bits; bit 0 passes the parameter by reference.
    pub status_flags: u8,
    /// The value to marshal.
    pub value: ColumnType,
}

/// A full RPC request: the procedure, the option flags and the parameters.
#[derive(Debug, Clone, PartialEq, Eq)]
pub struct RpcRequestData {
    /// The procedure to invoke.
    pub proc_id: RpcProcIdValue,
    /// Option bits: recompile, no-metadata, reuse-metadata.
    pub flags: u16,
    /// The parameters, in order.
    pub params: Vec<RpcParamData>,
}

/// The ALL_HEADERS preamble bytes: total length, header length, the
/// transaction-descriptor header type, then the descriptor and the
/// outstanding-request count.
pub open spec fn all_headers_bytes(tx_descriptor: u64, outstanding: u32) -> Seq<u8> {
    u32_le_bytes(22) + u32_le_bytes(18) + u16_le_bytes(2) + u64_le_bytes(tx_descriptor)
        + u32_le_bytes(outstanding)
}

/// Append an ALL_HEADERS preamble carrying a transaction descriptor.
pub fn write_data_header(buf: &mut Vec<u8>, tx_descriptor: u64, outstanding: u32)
    ensures
        final(buf)@ == old(buf)@ + all_headers_bytes(tx_descriptor, outstanding),
{
    crate::codec::write_u32_le(buf, 22);
    crate::codec::write_u32_le(buf, 18);
    crate::codec::write_u16_le(buf, 2);
    crate::codec::write_u64_le(buf, tx_descriptor);
    crate::codec::write_u32_le(buf, outstanding);
    proof {
        assert(final(buf)@ =~= old(buf)@ + all_headers_bytes(tx_descriptor, outstanding));
    }
}

/// The body of a SQLBATCH request: the ALL_HEADERS preamble, then the SQL
/// text in UTF-16LE with no terminator.
pub open spec fn sql_batch_bytes(sql: Seq<char>) -> Seq<u8> {
    all_headers_bytes(0, 1) + utf16le_bytes(sql)
}

/// Build a SQLBATCH request body.
pub fn write_sql_batch(sql: &str) -> (r: Vec<u8>)
    ensures
        r@ == sql_batch_bytes(sql@),
{
    let mut buf: Vec<u8> = Vec::new();
    write_data_header(&mut buf, 0, 1);
    let encoded = crate::utf16::encode_utf16le(sql);
    crate::codec::write_bytes(&mut buf, encoded.as_slice());
    buf
}

/// Whether a parameter value is one the encoder can marshal.
pub open spec fn encodable_param(v: ColumnType) -> bool {
    match v {
        ColumnType::I32(_) => true,
        ColumnType::String(s) => utf16le_bytes(s@).len() <= 0xFFFF,
        _ => false,
    }
}

/// The `TYPE_INFO` and value bytes of one marshalled parameter: an `int` as
/// a 4-byte `Intn`, a string as an `NVarchar` with an unset collation.
pub open spec fn param_bytes(v: ColumnType) -> Seq<u8>
    recommends
        encodable_param(v),
{
    match v {
        ColumnType::I32(val) => seq![0x26u8, 4u8, 4u8] + u32_le_bytes(u32_of_i32(val)),
        ColumnType::String(s) => seq![0xE7u8] + u16_le_bytes(utf16le_bytes(s@).len() as u16)
            + seq![0u8, 0u8, 0u8, 0u8, 0u8] + u16_le_bytes(utf16le_bytes(s@).len() as u16)
            + utf16le_bytes(s@),
        _ => Seq::empty(),
    }
}

/// Append one marshalled parameter value. A kind outside the supported set
/// is refused.
pub fn write_param_value(buf: &mut Vec<u8>, v: &ColumnType) -> (res: Result<(), TdsError>)
    ensures
        res is Ok <==> encodable_param(*v),
        res is Ok ==> final(buf)@ == old(buf)@ + param_bytes(*v),
        res is Err ==> final(buf)@ == old(buf)@ && res matches Err(TdsError::Other(_)),
{
    match v {
        ColumnType::I32(val) => {
            crate::codec::write_u8(buf, 0x26);
            crate::codec::write_u8(buf, 4);
            crate::codec::write_u8(buf, 4);
            crate::codec::write_i32_le(buf, *val);
            proof {
                assert(final(buf)@ =~= old(buf)@ + param_bytes(*v));
            }
            Ok(())
        },
        ColumnType::String(s) => {
            let encoded = crate::utf16::encode_utf16le(s.as_str());
            if encoded.len() > 0xFFFF {
                return Err(TdsError::Other(String::from_str("parameter string too long")));
            }
            let len = encoded.len() as u16;
            crate::codec::write_u8(buf, 0xE7);
            crate::codec::write_u16_le(buf, len);
            crate::codec::write_u8(buf, 0);
            crate::codec::write_u8(buf, 0);
            crate::codec::write_u8(buf, 0);
            crate::codec::write_u8(buf, 0);
            crate::codec::write_u8(buf, 0);
            crate::codec::write_u16_le(buf, len);
            crate::codec::write_bytes(buf, encoded.as_slice());
            proof {
                assert(final(buf)@ =~= old(buf)@ + param_bytes(*v));
            }
            Ok(())
        },
        _ => Err(TdsError::Other(String::from_str("rpc: unsupported parameter kind"))),
    }
}

/// The bytes naming the procedure: a US_VARCHAR name, or the id marker and
/// the id.
pub open spec fn proc_id_bytes(p: RpcProcIdValue) -> Seq<u8> {
    match p {
        RpcProcIdValue::Name(n) => u16_le_bytes((utf16le_bytes(n@).len() / 2) as u16)
            + utf16le_bytes(n@),
        RpcProcIdValue::Id(id) => u16_le_bytes(0xFFFF) + u16_le_bytes(id.spec_code()),
    }
}

/// Append the procedure id or name of an RPC request.
pub fn write_rpc_procid(buf: &mut Vec<u8>, proc_id: &RpcProcIdValue) -> (res: Result<(), TdsError>)
    ensures
        res is Ok <==> match *proc_id {
            RpcProcIdValue::Name(n) => utf16le_bytes(n@).len() <= 131070,
            RpcProcIdValue::Id(_) => true,
        },
        res is Ok ==> final(buf)@ == old(buf)@ + proc_id_bytes(*proc_id),
        res is Err ==> final(buf)@ == old(buf)@ && res matches Err(TdsError::Other(_)),
{
    match proc_id {
        RpcProcIdValue::Name(n) => {
            match crate::utf16::write_us_varchar(buf, n.as_str()) {
                Ok(x) => {
                    proof {
                        assert(final(buf)@ =~= old(buf)@ + proc_id_bytes(*proc_id));
                    }
                    Ok(x)
                },
                Err(e) => Err(e),
            }
        },
        RpcProcIdValue::Id(id) => {
            crate::codec::write_u16_le(buf, 0xFFFF);
            crate::codec::write_u16_le(buf, id.code());
            proof {
                assert(final(buf)@ =~= old(buf)@ + proc_id_bytes(*proc_id));
            }
            Ok(())
        },
    }
}

/// The bytes of one whole parameter: its `B_VARCHAR` name, its status byte,
/// then its type and value.
pub open spec fn rpc_param_bytes(p: RpcParamData) -> Seq<u8> {
    seq![(utf16le_bytes(p.name@).len() / 2) as u8] + utf16le_bytes(p.name@) + seq![p.status_flags]
        + param_bytes(p.value)
}

/// The bytes of a parameter list.
pub open spec fn rpc_params_bytes(ps: Seq<RpcParamData>) -> Seq<u8>
    decreases ps.len(),
{
    if ps.len() == 0 {
        Seq::empty()
    } else {
        rpc_param_bytes(ps[0]) + rpc_params_bytes(ps.drop_first())
    }
}

/// Whether every parameter can be marshalled: a short enough name and a
/// supported value kind.
pub open spec fn encodable_params(ps: Seq<RpcParamData>) -> bool {
    forall|i: int|
        0 <= i < ps.len() ==> utf16le_bytes((#[trigger] ps[i]).name@).len() <= 510
            && encodable_param(ps[i].value)
}

/// The body of an RPC request: the ALL_HEADERS preamble, the procedure, the
/// flags, then the marshalled parameters.
pub open spec fn rpc_request_bytes(req: RpcRequestData) -> Seq<u8> {
    all_headers_bytes(0, 1) + proc_id_bytes(req.proc_id) + u16_le_bytes(req.flags)
        + rpc_params_bytes(req.params@)
}

/// Build an RPC request body. Fails where the procedure name or a parameter
/// cannot be marshalled.
pub fn write_rpc_request(req: &RpcRequestData) -> (res: Result<Vec<u8>, TdsError>)
    ensures
        res is Ok <==> (match req.proc_id {
            RpcProcIdValue::Name(n) => utf16le_bytes(n@).len() <= 131070,
            RpcProcIdValue::Id(_) => true,
        } && encodable_params(req.params@)),
        res matches Ok(v) ==> v@ == rpc_request_bytes(*req),
        res is Err ==> res matches Err(TdsError::Other(_)),
{
    let mut buf: Vec<u8> = Vec::new();
    write_data_header(&mut buf, 0, 1);
    match write_rpc_procid(&mut buf, &req.proc_id) {
        Ok(x) => x,
        Err(e) => {
            return Err(e);
        },
    };
    crate::codec::write_u16_le(&mut buf, req.flags);
    let ghost prefix = buf@;
    let mut i: usize = 0;
    proof {
        assert(req.params@.skip(0) =~= req.params@);
    }
    while i < req.params.len()
        invariant
            i <= req.params@.len(),
            prefix == all_headers_bytes(0, 1) + proc_id_bytes(req.proc_id) + u16_le_bytes(
                req.flags,
            ),
            buf@ + rpc_params_bytes(req.params@.skip(i as int)) =~= prefix + rpc_params_bytes(
                req.params@,
            ),
            forall|j: int|
                0 <= j < i ==> utf16le_bytes((#[trigger] req.params@[j]).name@).len() <= 510
                    && encodable_param(req.params@[j].value),
        decreases req.params@.len() - i,
    {
        proof {
            assert(req.params@.skip(i as int)[0] == req.params@[i as int]);
            assert(req.params@.skip(i as int).drop_first() =~= req.params@.skip(i + 1));
        }
        let p = &req.params[i];
        match crate::utf16::write_b_varchar(&mut buf, p.name.as_str()) {
            Ok(x) => x,
            Err(e) => {
                proof {
                    assert(utf16le_bytes(req.params@[i as int].name@).len() > 510);
                    assert(!encodable_params(req.params@));
                }
                return Err(e);
            },
        };
        crate::codec::write_u8(&mut buf, p.status_flags);
        match crate::rpc::write_param_value(&mut buf, &p.value) {
            Ok(x) => x,
            Err(e) => {
                proof {
                    assert(!encodable_param(req.params@[i as int].value));
                    assert(!encodable_params(req.params@));
                }
                return Err(e);
            },
        };
        i = i + 1;
        proof {
            assert(buf@ + rpc_params_bytes(req.params@.skip(i as int)) =~= prefix
                + rpc_params_bytes(req.params@));
        }
    }
    proof {
        assert(req.params@.skip(req.params@.len() as int) =~= Seq::<RpcParamData>::empty());
        assert(buf@ =~= rpc_request_bytes(*req));
    }
    Ok(buf)
}

/// Decoding the bytes of a marshalled parameter yields the value again: the
/// type description parses back, and the value bytes decode to the same
/// model, for every value the encoder accepts.
#[verifier::rlimit(100)]
pub proof fn lemma_param_round_trip(v: ColumnType)
    requires
        encodable_param(v),
    ensures
        crate::typeinfo::spec_parse_type_info(param_bytes(v), 0) matches Some((ti, p))
            && crate::types::spec_parse_value(param_bytes(v), p, ti, true) == Some(
            (v.model(), param_bytes(v).len() as int),
        ),
{
    let b = param_bytes(v);
    match v {
        ColumnType::I32(val) => {
            let u = u32_of_i32(val);
            assert(b[0] == 0x26 && b[1] == 4);
            assert(crate::typeinfo::VarLenType::spec_from_code(0x26) == Some(
                crate::typeinfo::VarLenType::Intn,
            ));
            assert(crate::typeinfo::spec_parse_type_info(b, 0) == Some(
                (
                    crate::typeinfo::TypeInfo::VarLenType(
                        crate::typeinfo::VarLenType::Intn,
                        4u32,
                        None,
                    ),
                    2int,
                ),
            ));
            assert(b[2] == 4);
            assert(b.subrange(3, 7) =~= crate::codec::u32_le_bytes(u));
            crate::codec::lemma_u32_le_round_trip(u);
            crate::codec::lemma_i32_round_trip(val);
            assert(b.len() == 7);
        },
        ColumnType::String(s) => {
            let payload = crate::utf16::utf16le_bytes(s@);
            let len16 = payload.len() as u16;
            crate::utf16::lemma_utf16le_bytes_even(s@);
            assert(payload.len() != 0xFFFF);
            assert(b[0] == 0xE7);
            assert(crate::typeinfo::VarLenType::spec_from_code(0xE7) == Some(
                crate::typeinfo::VarLenType::NVarchar,
            ));
            assert(b.len() == 10 + payload.len() as int);
            assert(b.subrange(1, 3) =~= u16_le_bytes(len16));
            assert(b.subrange(3, 8) =~= seq![0u8, 0u8, 0u8, 0u8, 0u8]);
            assert(b.subrange(3, 7) =~= crate::codec::u32_le_bytes(0));
            assert(b[7] == 0);
            crate::codec::lemma_u16_le_round_trip(len16);
            assert(crate::typeinfo::spec_collation_of(b.subrange(3, 8))
                == (crate::typeinfo::Collation { info: 0, sortid: 0 }));
            assert(crate::typeinfo::spec_parse_type_info(b, 0) == Some(
                (
                    crate::typeinfo::TypeInfo::VarLenType(
                        crate::typeinfo::VarLenType::NVarchar,
                        len16 as u32,
                        Some(crate::typeinfo::Collation { info: 0, sortid: 0 }),
                    ),
                    8int,
                ),
            ));
            assert(b.subrange(8, 10) =~= u16_le_bytes(len16));
            assert(b.subrange(10, 10 + payload.len() as int) =~= payload);
            crate::utf16::lemma_utf16le_round_trip(s@);
        },
        _ => {
            assert(false);
        },
    }
}

} // verus!
