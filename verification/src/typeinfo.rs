//! The TDS column type descriptors: fixed-length and variable-length type
//! tags, collation, and the `TYPE_INFO` structure that announces a column's
//! type, with its byte-exact decoder.
use vstd::prelude::*;

use crate::codec::{u16_le_bytes, u16_le_of, u32_le_bytes, u32_le_of, Reader};
use crate::{TdsError, TdsProtocolError};

verus! {

/// A type whose value width is implied by the type tag alone.
#[derive(Copy, Clone, Debug, PartialEq, Eq, Structural)]
pub enum FixedLenType {
    Int1,
    Bit,
    Int2,
    Int4,
    /// Small datetime: day count and minutes.
    DateTime4,
    Float4,
    Money8,
    DateTime,
    Float8,
    Money4,
    Int8,
}

impl FixedLenType {
    /// The wire tag of this type.
    pub open spec fn spec_code(self) -> u8 {
        match self {
            FixedLenType::Int1 => 0x30,
            FixedLenType::Bit => 0x32,
            FixedLenType::Int2 => 0x34,
            FixedLenType::Int4 => 0x38,
            FixedLenType::DateTime4 => 0x3A,
            FixedLenType::Float4 => 0x3B,
            FixedLenType::Money8 => 0x3C,
            FixedLenType::DateTime => 0x3D,
            FixedLenType::Float8 => 0x3E,
            FixedLenType::Money4 => 0x7A,
            FixedLenType::Int8 => 0x7F,
        }
    }

    /// The type a wire tag names, if any.
    pub open spec fn spec_from_code(code: u8) -> Option<FixedLenType> {
        match code {
            0x30u8 => Some(FixedLenType::Int1),
            0x32u8 => Some(FixedLenType::Bit),
            0x34u8 => Some(FixedLenType::Int2),
            0x38u8 => Some(FixedLenType::Int4),
            0x3Au8 => Some(FixedLenType::DateTime4),
            0x3Bu8 => Some(FixedLenType::Float4),
            0x3Cu8 => Some(FixedLenType::Money8),
            0x3Du8 => Some(FixedLenType::DateTime),
            0x3Eu8 => Some(FixedLenType::Float8),
            0x7Au8 => Some(FixedLenType::Money4),
            0x7Fu8 => Some(FixedLenType::Int8),
            _ => None,
        }
    }

    /// The wire tag of this type.
    pub fn code(self) -> (r: u8)
        ensures
            r == self.spec_code(),
    {
        match self {
            FixedLenType::Int1 => 0x30,
            FixedLenType::Bit => 0x32,
            FixedLenType::Int2 => 0x34,
            FixedLenType::Int4 => 0x38,
            FixedLenType::DateTime4 => 0x3A,
            FixedLenType::Float4 => 0x3B,
            FixedLenType::Money8 => 0x3C,
            FixedLenType::DateTime => 0x3D,
            FixedLenType::Float8 => 0x3E,
            FixedLenType::Money4 => 0x7A,
            FixedLenType::Int8 => 0x7F,
        }
    }

    /// Recognize a wire tag.
    pub fn from_code(code: u8) -> (r: Option<FixedLenType>)
        ensures
            r == FixedLenType::spec_from_code(code),
    {
        match code {
            0x30 => Some(FixedLenType::Int1),
            0x32 => Some(FixedLenType::Bit),
            0x34 => Some(FixedLenType::Int2),
            0x38 => Some(FixedLenType::Int4),
            0x3A => Some(FixedLenType::DateTime4),
            0x3B => Some(FixedLenType::Float4),
            0x3C => Some(FixedLenType::Money8),
            0x3D => Some(FixedLenType::DateTime),
            0x3E => Some(FixedLenType::Float8),
            0x7A => Some(FixedLenType::Money4),
            0x7F => Some(FixedLenType::Int8),
            _ => None,
        }
    }
}

/// A type whose value carries its own length information.
#[derive(Copy, Clone, Debug, PartialEq, Eq, Structural)]
pub enum VarLenType {
    Guid,
    Intn,
    Bitn,
    Decimaln,
    Numericn,
    Floatn,
    Money,
    Datetimen,
    /// TDS 7.3.
    Daten,
    /// TDS 7.3.
    Timen,
    /// TDS 7.3.
    Datetime2,
    /// TDS 7.3.
    DatetimeOffsetn,
    BigVarBin,
    BigVarChar,
    BigBinary,
    BigChar,
    NVarchar,
    NChar,
    Xml,
    Udt,
    Text,
    Image,
    NText,
    SSVariant,
}

impl VarLenType {
    /// The wire tag of this type.
    pub open spec fn spec_code(self) -> u8 {
        match self {
            VarLenType::Guid => 0x24,
            VarLenType::Intn => 0x26,
            VarLenType::Bitn => 0x68,
            VarLenType::Decimaln => 0x6A,
            VarLenType::Numericn => 0x6C,
            VarLenType::Floatn => 0x6D,
            VarLenType::Money => 0x6E,
            VarLenType::Datetimen => 0x6F,
            VarLenType::Daten => 0x28,
            VarLenType::Timen => 0x29,
            VarLenType::Datetime2 => 0x2A,
            VarLenType::DatetimeOffsetn => 0x2B,
            VarLenType::BigVarBin => 0xA5,
            VarLenType::BigVarChar => 0xA7,
            VarLenType::BigBinary => 0xAD,
            VarLenType::BigChar => 0xAF,
            VarLenType::NVarchar => 0xE7,
            VarLenType::NChar => 0xEF,
            VarLenType::Xml => 0xF1,
            VarLenType::Udt => 0xF0,
            VarLenType::Text => 0x23,
            VarLenType::Image => 0x22,
            VarLenType::NText => 0x63,
            VarLenType::SSVariant => 0x62,
        }
    }

    /// The type a wire tag names, if any.
    pub open spec fn spec_from_code(code: u8) -> Option<VarLenType> {
        match code {
            0x24u8 => Some(VarLenType::Guid),
            0x26u8 => Some(VarLenType::Intn),
            0x68u8 => Some(VarLenType::Bitn),
            0x6Au8 => Some(VarLenType::Decimaln),
            0x6Cu8 => Some(VarLenType::Numericn),
            0x6Du8 => Some(VarLenType::Floatn),
            0x6Eu8 => Some(VarLenType::Money),
            0x6Fu8 => Some(VarLenType::Datetimen),
            0x28u8 => Some(VarLenType::Daten),
            0x29u8 => Some(VarLenType::Timen),
            0x2Au8 => Some(VarLenType::Datetime2),
            0x2Bu8 => Some(VarLenType::DatetimeOffsetn),
            0xA5u8 => Some(VarLenType::BigVarBin),
            0xA7u8 => Some(VarLenType::BigVarChar),
            0xADu8 => Some(VarLenType::BigBinary),
            0xAFu8 => Some(VarLenType::BigChar),
            0xE7u8 => Some(VarLenType::NVarchar),
            0xEFu8 => Some(VarLenType::NChar),
            0xF1u8 => Some(VarLenType::Xml),
            0xF0u8 => Some(VarLenType::Udt),
            0x23u8 => Some(VarLenType::Text),
            0x22u8 => Some(VarLenType::Image),
            0x63u8 => Some(VarLenType::NText),
            0x62u8 => Some(VarLenType::SSVariant),
            _ => None,
        }
    }

    /// The wire tag of this type.
    pub fn code(self) -> (r: u8)
        ensures
            r == self.spec_code(),
    {
        match self {
            VarLenType::Guid => 0x24,
            VarLenType::Intn => 0x26,
            VarLenType::Bitn => 0x68,
            VarLenType::Decimaln => 0x6A,
            VarLenType::Numericn => 0x6C,
            VarLenType::Floatn => 0x6D,
            VarLenType::Money => 0x6E,
            VarLenType::Datetimen => 0x6F,
            VarLenType::Daten => 0x28,
            VarLenType::Timen => 0x29,
            VarLenType::Datetime2 => 0x2A,
            VarLenType::DatetimeOffsetn => 0x2B,
            VarLenType::BigVarBin => 0xA5,
            VarLenType::BigVarChar => 0xA7,
            VarLenType::BigBinary => 0xAD,
            VarLenType::BigChar => 0xAF,
            VarLenType::NVarchar => 0xE7,
            VarLenType::NChar => 0xEF,
            VarLenType::Xml => 0xF1,
            VarLenType::Udt => 0xF0,
            VarLenType::Text => 0x23,
            VarLenType::Image => 0x22,
            VarLenType::NText => 0x63,
            VarLenType::SSVariant => 0x62,
        }
    }

    /// Recognize a wire tag.
    pub fn from_code(code: u8) -> (r: Option<VarLenType>)
        ensures
            r == VarLenType::spec_from_code(code),
    {
        match code {
            0x24 => Some(VarLenType::Guid),
            0x26 => Some(VarLenType::Intn),
            0x68 => Some(VarLenType::Bitn),
            0x6A => Some(VarLenType::Decimaln),
            0x6C => Some(VarLenType::Numericn),
            0x6D => Some(VarLenType::Floatn),
            0x6E => Some(VarLenType::Money),
            0x6F => Some(VarLenType::Datetimen),
            0x28 => Some(VarLenType::Daten),
            0x29 => Some(VarLenType::Timen),
            0x2A => Some(VarLenType::Datetime2),
            0x2B => Some(VarLenType::DatetimeOffsetn),
            0xA5 => Some(VarLenType::BigVarBin),
            0xA7 => Some(VarLenType::BigVarChar),
            0xAD => Some(VarLenType::BigBinary),
            0xAF => Some(VarLenType::BigChar),
            0xE7 => Some(VarLenType::NVarchar),
            0xEF => Some(VarLenType::NChar),
            0xF1 => Some(VarLenType::Xml),
            0xF0 => Some(VarLenType::Udt),
            0x23 => Some(VarLenType::Text),
            0x22 => Some(VarLenType::Image),
            0x63 => Some(VarLenType::NText),
            0x62 => Some(VarLenType::SSVariant),
            _ => None,
        }
    }

    /// Kinds whose length header is a single byte.
    pub open spec fn has_byte_len(self) -> bool {
        self == VarLenType::Guid || self == VarLenType::Intn || self == VarLenType::Datetimen
            || self == VarLenType::Floatn || self == VarLenType::Money || self == VarLenType::Bitn
    }

    /// Character kinds with a two-byte length header and a collation.
    pub open spec fn has_short_len_collation(self) -> bool {
        self == VarLenType::NVarchar || self == VarLenType::BigChar || self
            == VarLenType::BigVarChar || self == VarLenType::NChar
    }

    /// Binary kinds with a two-byte length header and no collation.
    pub open spec fn has_short_len_plain(self) -> bool {
        self == VarLenType::BigBinary || self == VarLenType::BigVarBin
    }
}

/// The 5-byte collation that character types carry: four packed bytes and a
/// sort id.
#[derive(Copy, Clone, Debug, PartialEq, Eq, Structural)]
pub struct Collation {
    /// The four packed little-endian bytes: locale id, flags and version.
    pub info: u32,
    /// The sort order id.
    pub sortid: u8,
}

impl Collation {
    /// The locale identifier bits of the packed word.
    pub open spec fn spec_lcid(self) -> u32 {
        self.info & 0xFFFFF000
    }

    /// The comparison-flag bits of the packed word.
    pub open spec fn spec_flags(self) -> u8 {
        (self.info & 0x00000FF0) as u8
    }

    /// The version bits of the packed word.
    pub open spec fn spec_version(self) -> u8 {
        (self.info & 0x0000000F) as u8
    }

    /// The locale identifier bits of the packed word.
    pub fn lcid(&self) -> (r: u32)
        ensures
            r == self.spec_lcid(),
    {
        self.info & 0xFFFFF000
    }

    /// The comparison-flag bits of the packed word.
    pub fn flags(&self) -> (r: u8)
        ensures
            r == self.spec_flags(),
    {
        #[verifier::truncate] ((self.info & 0x00000FF0) as u8)
    }

    /// The version bits of the packed word.
    pub fn version(&self) -> (r: u8)
        ensures
            r == self.spec_version(),
    {
        (self.info & 0x0000000F) as u8
    }
}

/// The collation five bytes carry.
pub open spec fn spec_collation_of(b: Seq<u8>) -> Collation
    recommends
        b.len() == 5,
{
    Collation { info: u32_le_of(b.subrange(0, 4)), sortid: b[4] }
}

/// The five wire bytes of a collation.
pub open spec fn collation_bytes(c: Collation) -> Seq<u8> {
    u32_le_bytes(c.info) + seq![c.sortid]
}

impl Collation {
    /// Read a collation: four packed bytes, then the sort id.
    pub fn decode(r: &mut Reader) -> (res: Result<Collation, TdsError>)
        requires
            old(r).wf(),
        ensures
            final(r).wf(),
            final(r).bytes() == old(r).bytes(),
            res is Ok <==> old(r).spec_remaining() >= 5,
            res matches Ok(c) ==> c == spec_collation_of(
                old(r).bytes().subrange(old(r).pos as int, old(r).pos + 5),
            ) && final(r).pos == old(r).pos + 5,
            res is Err ==> res == Err::<Collation, TdsError>(TdsError::UnexpectedEOF) && *final(r)
                == *old(r),
    {
        if r.remaining() < 5 {
            return Err(TdsError::UnexpectedEOF);
        }
        let info = match r.read_u32_le() {
            Ok(v) => v,
            Err(e) => {
                proof {
                    assert(false);
                }
                return Err(e);
            },
        };
        let sortid = match r.read_u8() {
            Ok(v) => v,
            Err(e) => {
                proof {
                    assert(false);
                }
                return Err(e);
            },
        };
        proof {
            let b = old(r).bytes().subrange(old(r).pos as int, old(r).pos + 5);
            assert(b.subrange(0, 4) =~= old(r).bytes().subrange(old(r).pos as int, old(r).pos + 4));
            assert(b[4] == old(r).bytes()[old(r).pos + 4]);
        }
        Ok(Collation { info, sortid })
    }
}

/// A column's full type description.
#[derive(Copy, Clone, Debug, PartialEq, Eq, Structural)]
pub enum TypeInfo {
    /// A fixed-length type; the tag alone.
    FixedLenType(FixedLenType),
    /// A variable-length type: its maximum length and, for character kinds,
    /// the collation.
    VarLenType(VarLenType, u32, Option<Collation>),
    /// Decimal or numeric: maximum length, precision and scale.
    VarLenTypeP(VarLenType, u32, u8, u8),
    /// A scale-only type (`datetime2`).
    VarLenTypeS(VarLenType, u8),
}

/// Whether a `TypeInfo` value is one the wire format can carry: the kind
/// matches the variant, the length fits its header width, and a collation is
/// present exactly on character kinds.
pub open spec fn wf_type_info(ti: TypeInfo) -> bool {
    match ti {
        TypeInfo::FixedLenType(_) => true,
        TypeInfo::VarLenType(v, len, col) => {
            if v.has_byte_len() {
                len <= 0xFF && col is None
            } else if v.has_short_len_collation() {
                len <= 0xFFFF && col is Some
            } else if v.has_short_len_plain() {
                len <= 0xFFFF && col is None
            } else if v == VarLenType::Text || v == VarLenType::NText {
                col is Some
            } else if v == VarLenType::Image {
                col is None
            } else {
                false
            }
        },
        TypeInfo::VarLenTypeP(v, len, _, _) => (v == VarLenType::Decimaln || v
            == VarLenType::Numericn) && len <= 0xFF,
        TypeInfo::VarLenTypeS(v, _) => v == VarLenType::Datetime2,
    }
}

/// The wire bytes of a type description.
pub open spec fn type_info_bytes(ti: TypeInfo) -> Seq<u8>
    recommends
        wf_type_info(ti),
{
    match ti {
        TypeInfo::FixedLenType(f) => seq![f.spec_code()],
        TypeInfo::VarLenType(v, len, col) => {
            if v.has_byte_len() {
                seq![v.spec_code(), len as u8]
            } else if v.has_short_len_collation() {
                seq![v.spec_code()] + u16_le_bytes(len as u16) + collation_bytes(col.unwrap())
            } else if v.has_short_len_plain() {
                seq![v.spec_code()] + u16_le_bytes(len as u16)
            } else if v == VarLenType::Text || v == VarLenType::NText {
                seq![v.spec_code()] + u32_le_bytes(len) + collation_bytes(col.unwrap())
            } else {
                seq![v.spec_code()] + u32_le_bytes(len)
            }
        },
        TypeInfo::VarLenTypeP(v, len, p, s) => seq![v.spec_code(), len as u8, p, s],
        TypeInfo::VarLenTypeS(v, s) => seq![v.spec_code(), s],
    }
}

/// Parse a type description at `pos`: the value it names and the position
/// after it, or `None` where the bytes run short, the tag is unknown, or the
/// kind is one this library does not support.
pub open spec fn spec_parse_type_info(b: Seq<u8>, pos: int) -> Option<(TypeInfo, int)> {
    if pos >= b.len() {
        None
    } else {
        let tag = b[pos];
        match FixedLenType::spec_from_code(tag) {
            Some(f) => Some((TypeInfo::FixedLenType(f), pos + 1)),
            None => match VarLenType::spec_from_code(tag) {
                None => None,
                Some(v) => {
                    if v.has_byte_len() {
                        if pos + 2 <= b.len() {
                            Some((TypeInfo::VarLenType(v, b[pos + 1] as u32, None), pos + 2))
                        } else {
                            None
                        }
                    } else if v.has_short_len_collation() {
                        if pos + 8 <= b.len() {
                            Some(
                                (
                                    TypeInfo::VarLenType(
                                        v,
                                        u16_le_of(b.subrange(pos + 1, pos + 3)) as u32,
                                        Some(spec_collation_of(b.subrange(pos + 3, pos + 8))),
                                    ),
                                    pos + 8,
                                ),
                            )
                        } else {
                            None
                        }
                    } else if v.has_short_len_plain() {
                        if pos + 3 <= b.len() {
                            Some(
                                (
                                    TypeInfo::VarLenType(
                                        v,
                                        u16_le_of(b.subrange(pos + 1, pos + 3)) as u32,
                                        None,
                                    ),
                                    pos + 3,
                                ),
                            )
                        } else {
                            None
                        }
                    } else if v == VarLenType::Text || v == VarLenType::NText {
                        if pos + 10 <= b.len() {
                            Some(
                                (
                                    TypeInfo::VarLenType(
                                        v,
                                        u32_le_of(b.subrange(pos + 1, pos + 5)),
                                        Some(spec_collation_of(b.subrange(pos + 5, pos + 10))),
                                    ),
                                    pos + 10,
                                ),
                            )
                        } else {
                            None
                        }
                    } else if v == VarLenType::Image {
                        if pos + 5 <= b.len() {
                            Some(
                                (
                                    TypeInfo::VarLenType(
                                        v,
                                        u32_le_of(b.subrange(pos + 1, pos + 5)),
                                        None,
                                    ),
                                    pos + 5,
                                ),
                            )
                        } else {
                            None
                        }
                    } else if v == VarLenType::Decimaln || v == VarLenType::Numericn {
                        if pos + 4 <= b.len() {
                            Some(
                                (
                                    TypeInfo::VarLenTypeP(
                                        v,
                                        b[pos + 1] as u32,
                                        b[pos + 2],
                                        b[pos + 3],
                                    ),
                                    pos + 4,
                                ),
                            )
                        } else {
                            None
                        }
                    } else if v == VarLenType::Datetime2 {
                        if pos + 2 <= b.len() {
                            Some((TypeInfo::VarLenTypeS(v, b[pos + 1]), pos + 2))
                        } else {
                            None
                        }
                    } else {
                        None
                    }
                },
            },
        }
    }
}

impl TypeInfo {
    /// Read a type description from the stream.
    ///
    /// A tag outside the wire format is a protocol error; a known but
    /// unsupported kind is refused as such; running out of bytes mid-field
    /// is an unexpected end of input.
    pub fn decode(r: &mut Reader) -> (res: Result<TypeInfo, TdsError>)
        requires
            old(r).wf(),
        ensures
            final(r).wf(),
            final(r).bytes() == old(r).bytes(),
            res is Ok <==> spec_parse_type_info(old(r).bytes(), old(r).pos as int) is Some,
            res matches Ok(ti) ==> spec_parse_type_info(old(r).bytes(), old(r).pos as int) == Some(
                (ti, final(r).pos as int),
            ) && wf_type_info(ti),
            res is Err ==> (res matches Err(TdsError::UnexpectedEOF) || res matches Err(
                TdsError::Other(_),
            ) || res matches Err(TdsError::ProtocolError(TdsProtocolError::InvalidValue(_, _)))),
            old(r).spec_remaining() >= 1 && FixedLenType::spec_from_code(
                old(r).bytes()[old(r).pos as int],
            ) is None && VarLenType::spec_from_code(old(r).bytes()[old(r).pos as int]) is None
                ==> res matches Err(TdsError::ProtocolError(TdsProtocolError::InvalidValue(_, _))),
    {
        let tag = match r.read_u8() {
            Ok(v) => v,
            Err(e) => {
                return Err(e);
            },
        };
        if let Some(f) = FixedLenType::from_code(tag) {
            return Ok(TypeInfo::FixedLenType(f));
        }
        let v = match VarLenType::from_code(tag) {
            Some(v) => v,
            None => {
                return Err(
                    TdsError::ProtocolError(
                        TdsProtocolError::InvalidValue(
                            String::from_str("unknown column data type"),
                            tag as u64,
                        ),
                    ),
                );
            },
        };
        match v {
            VarLenType::Guid | VarLenType::Intn | VarLenType::Datetimen | VarLenType::Floatn
                | VarLenType::Money | VarLenType::Bitn => {
                let len = match r.read_u8() {
                    Ok(x) => x,
                    Err(e) => {
                        return Err(e);
                    },
                };
                Ok(TypeInfo::VarLenType(v, len as u32, None))
            },
            VarLenType::NVarchar | VarLenType::BigChar | VarLenType::BigVarChar
                | VarLenType::NChar => {
                if r.remaining() < 7 {
                    return Err(TdsError::UnexpectedEOF);
                }
                let len = match r.read_u16_le() {
                    Ok(x) => x,
                    Err(e) => {
                        return Err(e);
                    },
                };
                let col = match Collation::decode(r) {
                    Ok(c) => c,
                    Err(e) => {
                        return Err(e);
                    },
                };
                proof {
                    assert(old(r).bytes().subrange(old(r).pos + 1, old(r).pos + 3)
                        =~= old(r).bytes().subrange(old(r).pos as int, old(r).bytes().len() as int)
                        .subrange(1, 3));
                }
                Ok(TypeInfo::VarLenType(v, len as u32, Some(col)))
            },
            VarLenType::BigBinary | VarLenType::BigVarBin => {
                let len = match r.read_u16_le() {
                    Ok(x) => x,
                    Err(e) => {
                        return Err(e);
                    },
                };
                Ok(TypeInfo::VarLenType(v, len as u32, None))
            },
            VarLenType::Text | VarLenType::NText => {
                if r.remaining() < 9 {
                    return Err(TdsError::UnexpectedEOF);
                }
                let len = match r.read_u32_le() {
                    Ok(x) => x,
                    Err(e) => {
                        return Err(e);
                    },
                };
                let col = match Collation::decode(r) {
                    Ok(c) => c,
                    Err(e) => {
                        return Err(e);
                    },
                };
                Ok(TypeInfo::VarLenType(v, len, Some(col)))
            },
            VarLenType::Image => {
                let len = match r.read_u32_le() {
                    Ok(x) => x,
                    Err(e) => {
                        return Err(e);
                    },
                };
                Ok(TypeInfo::VarLenType(v, len, None))
            },
            VarLenType::Decimaln | VarLenType::Numericn => {
                if r.remaining() < 3 {
                    return Err(TdsError::UnexpectedEOF);
                }
                let len = match r.read_u8() {
                    Ok(x) => x,
                    Err(e) => {
                        return Err(e);
                    },
                };
                let precision = match r.read_u8() {
                    Ok(x) => x,
                    Err(e) => {
                        return Err(e);
                    },
                };
                let scale = match r.read_u8() {
                    Ok(x) => x,
                    Err(e) => {
                        return Err(e);
                    },
                };
                Ok(TypeInfo::VarLenTypeP(v, len as u32, precision, scale))
            },
            VarLenType::Datetime2 => {
                let scale = match r.read_u8() {
                    Ok(x) => x,
                    Err(e) => {
                        return Err(e);
                    },
                };
                Ok(TypeInfo::VarLenTypeS(v, scale))
            },
            _ => Err(TdsError::Other(String::from_str("variable length type not supported"))),
        }
    }
}

/// Parsing the wire bytes of a well-formed type description yields it back.
pub proof fn lemma_type_info_round_trip(ti: TypeInfo)
    requires
        wf_type_info(ti),
    ensures
        spec_parse_type_info(type_info_bytes(ti), 0) == Some((ti, type_info_bytes(ti).len() as int)),
{
    let b = type_info_bytes(ti);
    match ti {
        TypeInfo::FixedLenType(f) => {
            assert(FixedLenType::spec_from_code(f.spec_code()) == Some(f));
        },
        TypeInfo::VarLenType(v, len, col) => {
            assert(FixedLenType::spec_from_code(v.spec_code()) is None);
            assert(VarLenType::spec_from_code(v.spec_code()) == Some(v));
            if v.has_byte_len() {
                assert(b[1] == len as u8);
            } else if v.has_short_len_collation() {
                assert(b.subrange(1, 3) =~= u16_le_bytes(len as u16));
                assert(b.subrange(3, 8) =~= collation_bytes(col.unwrap()));
                crate::codec::lemma_u16_le_round_trip(len as u16);
                lemma_collation_round_trip(col.unwrap());
            } else if v.has_short_len_plain() {
                assert(b.subrange(1, 3) =~= u16_le_bytes(len as u16));
                crate::codec::lemma_u16_le_round_trip(len as u16);
            } else if v == VarLenType::Text || v == VarLenType::NText {
                assert(b.subrange(1, 5) =~= u32_le_bytes(len));
                assert(b.subrange(5, 10) =~= collation_bytes(col.unwrap()));
                crate::codec::lemma_u32_le_round_trip(len);
                lemma_collation_round_trip(col.unwrap());
            } else {
                assert(b.subrange(1, 5) =~= u32_le_bytes(len));
                crate::codec::lemma_u32_le_round_trip(len);
            }
        },
        TypeInfo::VarLenTypeP(v, len, p, s) => {
            assert(b[1] == len as u8 && b[2] == p && b[3] == s);
        },
        TypeInfo::VarLenTypeS(v, s) => {
            assert(b[1] == s);
        },
    }
}

/// Reading back the wire bytes of a collation yields it.
proof fn lemma_collation_round_trip(c: Collation)
    ensures
        spec_collation_of(collation_bytes(c)) == c,
{
    assert(collation_bytes(c).subrange(0, 4) =~= u32_le_bytes(c.info));
    crate::codec::lemma_u32_le_round_trip(c.info);
}

} // verus!
