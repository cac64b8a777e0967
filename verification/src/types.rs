//! The SQL value model and the `TYPE_VARBYTE` value codec: decoding a
//! column's bytes into a typed value, guided by its `TYPE_INFO` and its
//! nullability, and the small encoder for outbound parameter values.
use vstd::prelude::*;

use crate::codec::{
    i16_of_u16, i32_of_u32, i64_of_u64, i8_of_u8, u16_le_of, u32_le_of, u64_le_of, Reader,
};
use crate::datetime::{spec_datetime_of, Datetime};
use crate::typeinfo::{FixedLenType, TypeInfo, VarLenType};
use crate::utf16::utf16le_decode;
use crate::{TdsError, TdsProtocolError};

verus! {

/// The day number of 1900-01-01, the epoch of the `datetime` wire formats.
pub open spec fn days_1900() -> int {
    693595
}

/// The named epoch is the day number of 1900-01-01.
pub proof fn lemma_days_1900()
    ensures
        crate::datetime::day_number(1900, 1, 1) == days_1900(),
{
    assert(crate::datetime::days_before_year(1900int) == 365 * 1899 + 1899int / 4 - 1899int / 100
        + 1899int / 400);
    assert(crate::datetime::days_before_month(1900int, 1int) == 0);
}

/// Ten to the power `e`.
pub open spec fn pow10(e: int) -> int
    decreases e,
{
    if e <= 0 {
        1
    } else {
        10 * pow10(e - 1)
    }
}

/// Ten to the power `e`, executably.
pub fn pow10_u64(e: u8) -> (r: u64)
    requires
        e <= 9,
    ensures
        r == pow10(e as int),
        r >= 1,
{
    proof {
        reveal_with_fuel(pow10, 11);
    }
    match e {
        0 => 1,
        1 => 10,
        2 => 100,
        3 => 1_000,
        4 => 10_000,
        5 => 100_000,
        6 => 1_000_000,
        7 => 10_000_000,
        8 => 100_000_000,
        _ => 1_000_000_000,
    }
}

/// A `uniqueidentifier` value: sixteen bytes in the wire's mixed-endian
/// layout.
#[derive(Debug, Clone, PartialEq, Eq)]
pub struct Guid {
    /// The sixteen raw bytes as they stand on the wire.
    pub bytes: Vec<u8>,
}

/// The lowercase hex digit for a value below sixteen.
pub open spec fn hex_char(n: u8) -> char {
    if n < 10 {
        ((0x30 + n) as u8) as char
    } else {
        ((0x57 + n) as u8) as char
    }
}

/// The two lowercase hex digits of a byte.
pub open spec fn byte_hex(x: u8) -> Seq<char> {
    seq![hex_char(x / 16), hex_char(x % 16)]
}

/// The canonical hyphenated text of a GUID: the first four bytes reversed,
/// then two pairs reversed, then the last eight bytes in order.
pub open spec fn guid_chars(b: Seq<u8>) -> Seq<char>
    recommends
        b.len() == 16,
{
    byte_hex(b[3]) + byte_hex(b[2]) + byte_hex(b[1]) + byte_hex(b[0]) + seq!['-'] + byte_hex(b[5])
        + byte_hex(b[4]) + seq!['-'] + byte_hex(b[7]) + byte_hex(b[6]) + seq!['-'] + byte_hex(b[8])
        + byte_hex(b[9]) + seq!['-'] + byte_hex(b[10]) + byte_hex(b[11]) + byte_hex(b[12])
        + byte_hex(b[13]) + byte_hex(b[14]) + byte_hex(b[15])
}

/// Append the two hex digits of one byte.
fn push_byte_hex(s: &mut String, x: u8)
    ensures
        final(s)@ == old(s)@ + byte_hex(x),
{
    let hi: u8 = x / 16;
    let lo: u8 = x % 16;
    let hc: char = if hi < 10 {
        (0x30 + hi) as char
    } else {
        (0x57 + hi) as char
    };
    let lc: char = if lo < 10 {
        (0x30 + lo) as char
    } else {
        (0x57 + lo) as char
    };
    crate::utf16::push_char(s, hc);
    crate::utf16::push_char(s, lc);
    proof {
        assert(hc == hex_char(hi) && lc == hex_char(lo));
        assert(final(s)@ =~= old(s)@ + byte_hex(x));
    }
}

impl Guid {
    /// A GUID holds exactly sixteen bytes.
    pub open spec fn wf(&self) -> bool {
        self.bytes@.len() == 16
    }

    /// Read a GUID's sixteen raw bytes.
    pub fn decode(r: &mut Reader) -> (res: Result<Guid, TdsError>)
        requires
            old(r).wf(),
        ensures
            final(r).wf(),
            final(r).bytes() == old(r).bytes(),
            res is Ok <==> old(r).spec_remaining() >= 16,
            res matches Ok(g) ==> g.wf() && g.bytes@ == old(r).bytes().subrange(
                old(r).pos as int,
                old(r).pos + 16,
            ) && final(r).pos == old(r).pos + 16,
            res is Err ==> res == Err::<Guid, TdsError>(TdsError::UnexpectedEOF) && *final(r)
                == *old(r),
    {
        match r.read_bytes(16) {
            Ok(v) => Ok(Guid { bytes: v }),
            Err(e) => Err(e),
        }
    }

    /// The canonical hyphenated lowercase text of this GUID.
    pub fn as_str(&self) -> (res: String)
        requires
            self.wf(),
        ensures
            res@ == guid_chars(self.bytes@),
    {
        let mut s = String::new();
        push_byte_hex(&mut s, self.bytes[3]);
        push_byte_hex(&mut s, self.bytes[2]);
        push_byte_hex(&mut s, self.bytes[1]);
        push_byte_hex(&mut s, self.bytes[0]);
        crate::utf16::push_char(&mut s, '-');
        push_byte_hex(&mut s, self.bytes[5]);
        push_byte_hex(&mut s, self.bytes[4]);
        crate::utf16::push_char(&mut s, '-');
        push_byte_hex(&mut s, self.bytes[7]);
        push_byte_hex(&mut s, self.bytes[6]);
        crate::utf16::push_char(&mut s, '-');
        push_byte_hex(&mut s, self.bytes[8]);
        push_byte_hex(&mut s, self.bytes[9]);
        crate::utf16::push_char(&mut s, '-');
        push_byte_hex(&mut s, self.bytes[10]);
        push_byte_hex(&mut s, self.bytes[11]);
        push_byte_hex(&mut s, self.bytes[12]);
        push_byte_hex(&mut s, self.bytes[13]);
        push_byte_hex(&mut s, self.bytes[14]);
        push_byte_hex(&mut s, self.bytes[15]);
        proof {
            assert(s@ =~= guid_chars(self.bytes@));
        }
        s
    }
}

/// An exact `decimal`/`numeric` value: a sign, an integer magnitude, and the
/// power of ten it is scaled down by.
#[derive(Copy, Clone, Debug, PartialEq, Eq, Structural)]
pub struct DecimalValue {
    /// Whether the value is negative.
    pub negative: bool,
    /// The unscaled magnitude.
    pub magnitude: u64,
    /// The value equals `magnitude / 10^scale`, negated when negative.
    pub scale: u8,
}

/// The converted SQL value of a column.
///
/// Floating-point columns are carried as their IEEE-754 bit patterns, and the
/// money types as integers scaled by ten thousand, so that every field is
/// exact; a caller that wants a float converts at the edge.
#[derive(Debug, Clone, PartialEq, Eq)]
pub enum ColumnType {
    Bool(bool),
    I8(i8),
    I16(i16),
    I32(i32),
    I64(i64),
    /// The bits of a single-precision IEEE-754 float.
    F32(u32),
    /// The bits of a double-precision IEEE-754 float.
    F64(u64),
    /// A `smallmoney`: the value times ten thousand.
    Money4(i32),
    /// A `money`: the value times ten thousand.
    Money8(i64),
    /// An exact decimal.
    Decimal(DecimalValue),
    String(String),
    Guid(Guid),
    Datetime(Datetime),
    Binary(Vec<u8>),
}

/// A column's value slot: a value, or SQL NULL.
#[derive(Debug, Clone, PartialEq, Eq)]
pub enum ColumnValue {
    /// A present value.
    Value(ColumnType),
    /// SQL NULL.
    Null,
}

/// The mathematical model of a column value, with strings and buffers as
/// sequences.
pub enum ColumnValueModel {
    Null,
    Bool(bool),
    I8(i8),
    I16(i16),
    I32(i32),
    I64(i64),
    F32(u32),
    F64(u64),
    Money4(i32),
    Money8(i64),
    Decimal(bool, u64, u8),
    Chars(Seq<char>),
    Guid(Seq<u8>),
    Datetime(Datetime),
    Bytes(Seq<u8>),
}

impl ColumnType {
    /// The model of this value.
    pub open spec fn model(self) -> ColumnValueModel {
        match self {
            ColumnType::Bool(v) => ColumnValueModel::Bool(v),
            ColumnType::I8(v) => ColumnValueModel::I8(v),
            ColumnType::I16(v) => ColumnValueModel::I16(v),
            ColumnType::I32(v) => ColumnValueModel::I32(v),
            ColumnType::I64(v) => ColumnValueModel::I64(v),
            ColumnType::F32(v) => ColumnValueModel::F32(v),
            ColumnType::F64(v) => ColumnValueModel::F64(v),
            ColumnType::Money4(v) => ColumnValueModel::Money4(v),
            ColumnType::Money8(v) => ColumnValueModel::Money8(v),
            ColumnType::Decimal(d) => ColumnValueModel::Decimal(d.negative, d.magnitude, d.scale),
            ColumnType::String(s) => ColumnValueModel::Chars(s@),
            ColumnType::Guid(g) => ColumnValueModel::Guid(g.bytes@),
            ColumnType::Datetime(dt) => ColumnValueModel::Datetime(dt),
            ColumnType::Binary(v) => ColumnValueModel::Bytes(v@),
        }
    }
}

impl ColumnValue {
    /// The model of this slot.
    pub open spec fn model(self) -> ColumnValueModel {
        match self {
            ColumnValue::Null => ColumnValueModel::Null,
            ColumnValue::Value(v) => v.model(),
        }
    }

    /// Whether the slot is SQL NULL.
    pub open spec fn is_null(self) -> bool {
        self is Null
    }
}

/// The combined `money` value: the high word shifted up, the low word as-is.
pub open spec fn money8_of(hi: i32, lo: u32) -> i64 {
    (hi * 0x100000000 + lo) as i64
}

/// The datetime named by a `smalldatetime`: days since 1900-01-01 and minutes
/// since midnight, rolled over where the minutes exceed a day.
pub open spec fn spec_dt4(days: u16, mins: u16) -> Datetime {
    spec_datetime_of(days_1900() + days + mins / 1440, (mins % 1440) * 60_000_000_000)
}

/// The datetime named by a `datetime`: days since 1900-01-01 and 1/300-second
/// ticks since midnight, or `None` where the day count leaves the supported
/// calendar.
pub open spec fn spec_dt8(days: u32, ticks: u32) -> Option<Datetime> {
    let total = days_1900() + days + ticks / 25920000;
    if total > 0xFFFFFF {
        None
    } else {
        Some(spec_datetime_of(total, (ticks % 25920000) * 10_000_000 / 3))
    }
}

/// The datetime named by a `datetime2` payload: `10^-scale`-second increments
/// since midnight and days since 0001-01-01, or `None` where the day count
/// leaves the supported calendar.
pub open spec fn spec_dt2(scale: u8, inc: u64, days: u32) -> Option<Datetime> {
    let secs = inc / (pow10(scale as int) as u64);
    let frac = inc % (pow10(scale as int) as u64);
    let total = days + secs / 86400;
    if total > 0xFFFFFF {
        None
    } else {
        Some(
            spec_datetime_of(
                total as int,
                (secs % 86400) * 1_000_000_000 + frac * pow10(9 - scale as int),
            ),
        )
    }
}

/// What a NULL sentinel yields: NULL on a nullable column, a refusal on any
/// other, since a non-nullable column must never carry one.
pub open spec fn spec_null(nullable: bool, pos: int) -> Option<(ColumnValueModel, int)> {
    if nullable {
        Some((ColumnValueModel::Null, pos))
    } else {
        None
    }
}

/// Parse the value bytes (`TYPE_VARBYTE`) of one column at `pos`, guided by
/// its type description and its nullability: the value's model and the
/// position after it, or `None` where the bytes are short, a length or
/// sentinel is impossible, text fails to decode, or the kind is unsupported.
pub open spec fn spec_parse_value(b: Seq<u8>, pos: int, ti: TypeInfo, nullable: bool) -> Option<
    (ColumnValueModel, int),
> {
    match ti {
        TypeInfo::FixedLenType(f) => spec_parse_fixed(b, pos, f),
        TypeInfo::VarLenType(v, _len, _col) => spec_parse_varlen(b, pos, v, nullable),
        TypeInfo::VarLenTypeP(v, _len, _precision, scale) => {
            if v == VarLenType::Decimaln || v == VarLenType::Numericn {
                spec_parse_decimal(b, pos, scale, nullable)
            } else {
                None
            }
        },
        TypeInfo::VarLenTypeS(v, scale) => {
            if v == VarLenType::Datetime2 {
                spec_parse_datetime2(b, pos, scale)
            } else {
                None
            }
        },
    }
}

/// Parse a fixed-length value.
pub open spec fn spec_parse_fixed(b: Seq<u8>, pos: int, f: FixedLenType) -> Option<
    (ColumnValueModel, int),
> {
    match f {
        FixedLenType::Bit => {
            if pos + 1 <= b.len() {
                Some((ColumnValueModel::Bool(b[pos] == 1), pos + 1))
            } else {
                None
            }
        },
        FixedLenType::Int1 => {
            if pos + 1 <= b.len() {
                Some((ColumnValueModel::I8(i8_of_u8(b[pos])), pos + 1))
            } else {
                None
            }
        },
        FixedLenType::Int2 => {
            if pos + 2 <= b.len() {
                Some(
                    (
                        ColumnValueModel::I16(i16_of_u16(u16_le_of(b.subrange(pos, pos + 2)))),
                        pos + 2,
                    ),
                )
            } else {
                None
            }
        },
        FixedLenType::Int4 => {
            if pos + 4 <= b.len() {
                Some(
                    (
                        ColumnValueModel::I32(i32_of_u32(u32_le_of(b.subrange(pos, pos + 4)))),
                        pos + 4,
                    ),
                )
            } else {
                None
            }
        },
        FixedLenType::Int8 => {
            if pos + 8 <= b.len() {
                Some(
                    (
                        ColumnValueModel::I64(i64_of_u64(u64_le_of(b.subrange(pos, pos + 8)))),
                        pos + 8,
                    ),
                )
            } else {
                None
            }
        },
        FixedLenType::Float4 => {
            if pos + 4 <= b.len() {
                Some((ColumnValueModel::F32(u32_le_of(b.subrange(pos, pos + 4))), pos + 4))
            } else {
                None
            }
        },
        FixedLenType::Float8 => {
            if pos + 8 <= b.len() {
                Some((ColumnValueModel::F64(u64_le_of(b.subrange(pos, pos + 8))), pos + 8))
            } else {
                None
            }
        },
        FixedLenType::Money4 => {
            if pos + 4 <= b.len() {
                Some(
                    (
                        ColumnValueModel::Money4(i32_of_u32(u32_le_of(b.subrange(pos, pos + 4)))),
                        pos + 4,
                    ),
                )
            } else {
                None
            }
        },
        FixedLenType::Money8 => {
            if pos + 8 <= b.len() {
                Some(
                    (
                        ColumnValueModel::Money8(
                            money8_of(
                                i32_of_u32(u32_le_of(b.subrange(pos, pos + 4))),
                                u32_le_of(b.subrange(pos + 4, pos + 8)),
                            ),
                        ),
                        pos + 8,
                    ),
                )
            } else {
                None
            }
        },
        FixedLenType::DateTime4 => {
            if pos + 4 <= b.len() {
                Some(
                    (
                        ColumnValueModel::Datetime(
                            spec_dt4(
                                u16_le_of(b.subrange(pos, pos + 2)),
                                u16_le_of(b.subrange(pos + 2, pos + 4)),
                            ),
                        ),
                        pos + 4,
                    ),
                )
            } else {
                None
            }
        },
        FixedLenType::DateTime => {
            if pos + 8 <= b.len() {
                match spec_dt8(
                    u32_le_of(b.subrange(pos, pos + 4)),
                    u32_le_of(b.subrange(pos + 4, pos + 8)),
                ) {
                    Some(dt) => Some((ColumnValueModel::Datetime(dt), pos + 8)),
                    None => None,
                }
            } else {
                None
            }
        },
    }
}

/// Parse a variable-length value introduced by its own length header.
pub open spec fn spec_parse_varlen(b: Seq<u8>, pos: int, v: VarLenType, nullable: bool) -> Option<
    (ColumnValueModel, int),
> {
    if v == VarLenType::BigChar || v == VarLenType::BigVarChar {
        if pos + 2 > b.len() {
            None
        } else {
            let len = u16_le_of(b.subrange(pos, pos + 2));
            if len == 0xFFFF {
                spec_null(nullable, pos + 2)
            } else if pos + 2 + len > b.len() {
                None
            } else if vstd::utf8::valid_utf8(b.subrange(pos + 2, pos + 2 + len)) {
                Some(
                    (
                        ColumnValueModel::Chars(
                            vstd::utf8::decode_utf8(b.subrange(pos + 2, pos + 2 + len)),
                        ),
                        pos + 2 + len,
                    ),
                )
            } else {
                None
            }
        }
    } else if v == VarLenType::NVarchar || v == VarLenType::NChar {
        if pos + 2 > b.len() {
            None
        } else {
            let len = u16_le_of(b.subrange(pos, pos + 2));
            if len == 0xFFFF {
                spec_null(nullable, pos + 2)
            } else if pos + 2 + len > b.len() {
                None
            } else {
                match utf16le_decode(b.subrange(pos + 2, pos + 2 + len)) {
                    Some(cs) => Some((ColumnValueModel::Chars(cs), pos + 2 + len)),
                    None => None,
                }
            }
        }
    } else if v == VarLenType::BigBinary || v == VarLenType::BigVarBin {
        if pos + 2 > b.len() {
            None
        } else {
            let len = u16_le_of(b.subrange(pos, pos + 2));
            if len == 0xFFFF {
                spec_null(nullable, pos + 2)
            } else if pos + 2 + len > b.len() {
                None
            } else {
                Some((ColumnValueModel::Bytes(b.subrange(pos + 2, pos + 2 + len)), pos + 2 + len))
            }
        }
    } else if v == VarLenType::Text || v == VarLenType::NText || v == VarLenType::Image {
        spec_parse_text(b, pos, v, nullable)
    } else if v == VarLenType::Intn {
        if pos + 1 > b.len() {
            None
        } else {
            let len = b[pos];
            if len == 0 {
                spec_null(nullable, pos + 1)
            } else if len == 1 {
                if pos + 2 <= b.len() {
                    Some((ColumnValueModel::I8(i8_of_u8(b[pos + 1])), pos + 2))
                } else {
                    None
                }
            } else if len == 2 {
                if pos + 3 <= b.len() {
                    Some(
                        (
                            ColumnValueModel::I16(
                                i16_of_u16(u16_le_of(b.subrange(pos + 1, pos + 3))),
                            ),
                            pos + 3,
                        ),
                    )
                } else {
                    None
                }
            } else if len == 4 {
                if pos + 5 <= b.len() {
                    Some(
                        (
                            ColumnValueModel::I32(
                                i32_of_u32(u32_le_of(b.subrange(pos + 1, pos + 5))),
                            ),
                            pos + 5,
                        ),
                    )
                } else {
                    None
                }
            } else if len == 8 {
                if pos + 9 <= b.len() {
                    Some(
                        (
                            ColumnValueModel::I64(
                                i64_of_u64(u64_le_of(b.subrange(pos + 1, pos + 9))),
                            ),
                            pos + 9,
                        ),
                    )
                } else {
                    None
                }
            } else {
                None
            }
        }
    } else if v == VarLenType::Guid {
        if pos + 1 > b.len() {
            None
        } else {
            let len = b[pos];
            if len == 0 {
                spec_null(nullable, pos + 1)
            } else if len == 0x10 {
                if pos + 17 <= b.len() {
                    Some((ColumnValueModel::Guid(b.subrange(pos + 1, pos + 17)), pos + 17))
                } else {
                    None
                }
            } else {
                None
            }
        }
    } else if v == VarLenType::Datetimen {
        if pos + 1 > b.len() {
            None
        } else {
            let len = b[pos];
            if len == 0 {
                spec_null(nullable, pos + 1)
            } else if len == 4 {
                match spec_parse_fixed(b, pos + 1, FixedLenType::DateTime4) {
                    Some((m, p)) => Some((m, p)),
                    None => None,
                }
            } else if len == 8 {
                match spec_parse_fixed(b, pos + 1, FixedLenType::DateTime) {
                    Some((m, p)) => Some((m, p)),
                    None => None,
                }
            } else {
                None
            }
        }
    } else if v == VarLenType::Floatn {
        if pos + 1 > b.len() {
            None
        } else {
            let len = b[pos];
            if len == 0 {
                spec_null(nullable, pos + 1)
            } else if len == 4 {
                spec_parse_fixed(b, pos + 1, FixedLenType::Float4)
            } else if len == 8 {
                spec_parse_fixed(b, pos + 1, FixedLenType::Float8)
            } else {
                None
            }
        }
    } else if v == VarLenType::Money {
        if pos + 1 > b.len() {
            None
        } else {
            let len = b[pos];
            if len == 0 {
                spec_null(nullable, pos + 1)
            } else if len == 4 {
                spec_parse_fixed(b, pos + 1, FixedLenType::Money4)
            } else if len == 8 {
                spec_parse_fixed(b, pos + 1, FixedLenType::Money8)
            } else {
                None
            }
        }
    } else if v == VarLenType::Bitn {
        if pos + 1 > b.len() {
            None
        } else {
            let len = b[pos];
            if len == 0 {
                spec_null(nullable, pos + 1)
            } else if len == 1 {
                if pos + 2 <= b.len() {
                    Some((ColumnValueModel::Bool(b[pos + 1] != 0), pos + 2))
                } else {
                    None
                }
            } else {
                None
            }
        }
    } else {
        None
    }
}

/// Parse a `text`, `ntext` or `image` value: a text pointer, a timestamp, a
/// signed length, then the payload.
pub open spec fn spec_parse_text(b: Seq<u8>, pos: int, v: VarLenType, nullable: bool) -> Option<
    (ColumnValueModel, int),
> {
    if pos + 1 > b.len() {
        None
    } else {
        let tp_len = b[pos];
        if tp_len == 0 {
            spec_null(nullable, pos + 1)
        } else {
            let q = pos + 1 + tp_len + 8;
            if q + 4 > b.len() {
                None
            } else {
                let len = i32_of_u32(u32_le_of(b.subrange(q, q + 4)));
                if len < -1 {
                    None
                } else if len == -1 {
                    spec_null(nullable, q + 4)
                } else if q + 4 + len > b.len() {
                    None
                } else {
                    let payload = b.subrange(q + 4, q + 4 + len);
                    if v == VarLenType::Text {
                        if vstd::utf8::valid_utf8(payload) {
                            Some(
                                (
                                    ColumnValueModel::Chars(vstd::utf8::decode_utf8(payload)),
                                    q + 4 + len,
                                ),
                            )
                        } else {
                            None
                        }
                    } else if v == VarLenType::NText {
                        match utf16le_decode(payload) {
                            Some(cs) => Some((ColumnValueModel::Chars(cs), q + 4 + len)),
                            None => None,
                        }
                    } else {
                        Some((ColumnValueModel::Bytes(payload), q + 4 + len))
                    }
                }
            }
        }
    }
}

/// Parse a `decimal`/`numeric` value: a length byte, a sign byte (zero means
/// negative), then a four- or eight-byte unsigned magnitude.
pub open spec fn spec_parse_decimal(b: Seq<u8>, pos: int, scale: u8, nullable: bool) -> Option<
    (ColumnValueModel, int),
> {
    if pos + 1 > b.len() {
        None
    } else {
        let len = b[pos];
        if len == 0 {
            spec_null(nullable, pos + 1)
        } else if len == 5 {
            if pos + 6 <= b.len() {
                Some(
                    (
                        ColumnValueModel::Decimal(
                            b[pos + 1] == 0,
                            u32_le_of(b.subrange(pos + 2, pos + 6)) as u64,
                            scale,
                        ),
                        pos + 6,
                    ),
                )
            } else {
                None
            }
        } else if len == 9 {
            if pos + 10 <= b.len() {
                Some(
                    (
                        ColumnValueModel::Decimal(
                            b[pos + 1] == 0,
                            u64_le_of(b.subrange(pos + 2, pos + 10)),
                            scale,
                        ),
                        pos + 10,
                    ),
                )
            } else {
                None
            }
        } else {
            None
        }
    }
}

/// Parse a `datetime2` value: a length byte, the time increments in a width
/// set by the scale band, then three bytes of days since 0001-01-01.
pub open spec fn spec_parse_datetime2(b: Seq<u8>, pos: int, scale: u8) -> Option<
    (ColumnValueModel, int),
> {
    if pos + 1 > b.len() {
        None
    } else if scale <= 2 {
        if pos + 7 <= b.len() {
            let inc = u16_le_of(b.subrange(pos + 1, pos + 3)) + b[pos + 3] * 0x10000;
            spec_dt2_result(b, pos + 4, scale, inc as u64)
        } else {
            None
        }
    } else if scale <= 4 {
        if pos + 8 <= b.len() {
            let inc = u32_le_of(b.subrange(pos + 1, pos + 5));
            spec_dt2_result(b, pos + 5, scale, inc as u64)
        } else {
            None
        }
    } else if scale <= 7 {
        if pos + 9 <= b.len() {
            let inc = u32_le_of(b.subrange(pos + 1, pos + 5)) + b[pos + 5] * 0x100000000;
            spec_dt2_result(b, pos + 6, scale, inc as u64)
        } else {
            None
        }
    } else {
        None
    }
}

/// The tail of a `datetime2` parse: three bytes of days, then the datetime
/// they name together with the increments.
pub open spec fn spec_dt2_result(b: Seq<u8>, pos: int, scale: u8, inc: u64) -> Option<
    (ColumnValueModel, int),
> {
    let days = u16_le_of(b.subrange(pos, pos + 2)) + b[pos + 2] * 0x10000;
    match spec_dt2(scale, inc, days as u32) {
        Some(dt) => Some((ColumnValueModel::Datetime(dt), pos + 3)),
        None => None,
    }
}

/// Relies on `String::from_utf8`: succeeds exactly on valid UTF-8 and decodes
/// those bytes.
#[verifier::external_body]
pub(crate) fn string_from_utf8(v: Vec<u8>) -> (r: Result<String, TdsError>)
    ensures
        r is Ok <==> vstd::utf8::valid_utf8(v@),
        r matches Ok(s) ==> s@ == vstd::utf8::decode_utf8(v@),
        r is Err ==> r matches Err(TdsError::Conversion(_)),
{
    match String::from_utf8(v) {
        Ok(s) => Ok(s),
        Err(e) => Err(TdsError::Conversion(format!("invalid UTF-8: {}", e))),
    }
}

/// Decode a `smalldatetime` or `datetime` body: a day count since 1900-01-01,
/// then minutes or 1/300-second ticks since midnight.
pub fn decode_datetime(ty: FixedLenType, r: &mut Reader) -> (res: Result<Datetime, TdsError>)
    requires
        old(r).wf(),
        ty == FixedLenType::DateTime4 || ty == FixedLenType::DateTime,
    ensures
        final(r).wf(),
        final(r).bytes() == old(r).bytes(),
        res is Ok <==> spec_parse_fixed(old(r).bytes(), old(r).pos as int, ty) is Some,
        res matches Ok(dt) ==> spec_parse_fixed(old(r).bytes(), old(r).pos as int, ty) == Some(
            (ColumnValueModel::Datetime(dt), final(r).pos as int),
        ),
        res is Err ==> (res matches Err(TdsError::UnexpectedEOF) || res matches Err(
            TdsError::Conversion(_),
        )),
{
    match ty {
        FixedLenType::DateTime4 => {
            if r.remaining() < 4 {
                return Err(TdsError::UnexpectedEOF);
            }
            let days = r.read_u16_le().unwrap();
            let mins = r.read_u16_le().unwrap();
            let total: u32 = 693595 + days as u32 + (mins / 1440) as u32;
            let day_nanos: u64 = (mins % 1440) as u64 * 60_000_000_000;
            Ok(crate::datetime::datetime_from_parts(total, day_nanos))
        },
        _ => {
            if r.remaining() < 8 {
                return Err(TdsError::UnexpectedEOF);
            }
            let days = r.read_u32_le().unwrap();
            let ticks = r.read_u32_le().unwrap();
            let total: u64 = 693595 + days as u64 + (ticks / 25920000) as u64;
            if total > 0xFFFFFF {
                return Err(TdsError::Conversion(String::from_str("datetime out of range")));
            }
            let day_nanos: u64 = (ticks % 25920000) as u64 * 10_000_000 / 3;
            Ok(crate::datetime::datetime_from_parts(total as u32, day_nanos))
        },
    }
}

/// Decode a `smallmoney` or `money` body: one or two signed words, the value
/// scaled by ten thousand.
pub fn decode_money(ty: FixedLenType, r: &mut Reader) -> (res: Result<ColumnType, TdsError>)
    requires
        old(r).wf(),
        ty == FixedLenType::Money4 || ty == FixedLenType::Money8,
    ensures
        final(r).wf(),
        final(r).bytes() == old(r).bytes(),
        res is Ok <==> spec_parse_fixed(old(r).bytes(), old(r).pos as int, ty) is Some,
        res matches Ok(ct) ==> spec_parse_fixed(old(r).bytes(), old(r).pos as int, ty) == Some(
            (ct.model(), final(r).pos as int),
        ),
        res is Err ==> res matches Err(TdsError::UnexpectedEOF),
{
    match ty {
        FixedLenType::Money4 => {
            match r.read_i32_le() {
                Ok(v) => Ok(ColumnType::Money4(v)),
                Err(e) => Err(TdsError::UnexpectedEOF),
            }
        },
        _ => {
            if r.remaining() < 8 {
                return Err(TdsError::UnexpectedEOF);
            }
            let hi = r.read_i32_le().unwrap();
            let lo = r.read_u32_le().unwrap();
            Ok(ColumnType::Money8(hi as i64 * 0x100000000 + lo as i64))
        },
    }
}

impl ColumnValue {
    /// Decode one column's value bytes (`TYPE_VARBYTE`), guided by its type
    /// description and nullability.
    ///
    /// A NULL sentinel on a non-nullable column is a protocol error; text
    /// that does not decode is a conversion error; short bytes are an
    /// unexpected end of input; an unsupported kind is refused.
    pub fn decode(r: &mut Reader, ti: &TypeInfo, nullable: bool) -> (res: Result<
        ColumnValue,
        TdsError,
    >)
        requires
            old(r).wf(),
        ensures
            final(r).wf(),
            final(r).bytes() == old(r).bytes(),
            res is Ok <==> spec_parse_value(old(r).bytes(), old(r).pos as int, *ti, nullable)
                is Some,
            res matches Err(e) ==> crate::spec_decode_error(e),
            res matches Ok(cv) ==> spec_parse_value(old(r).bytes(), old(r).pos as int, *ti, nullable)
                == Some((cv.model(), final(r).pos as int)),
    {
        match ti {
            TypeInfo::FixedLenType(f) => Self::decode_fixed(r, *f),
            TypeInfo::VarLenType(v, _len, _col) => Self::decode_varlen(r, *v, nullable),
            TypeInfo::VarLenTypeP(v, _len, _precision, scale) => {
                if *v == VarLenType::Decimaln || *v == VarLenType::Numericn {
                    Self::decode_decimal(r, *scale, nullable)
                } else {
                    Err(TdsError::Other(String::from_str("unsupported scaled value type")))
                }
            },
            TypeInfo::VarLenTypeS(v, scale) => {
                if *v == VarLenType::Datetime2 {
                    Self::decode_datetime2(r, *scale)
                } else {
                    Err(TdsError::Other(String::from_str("unsupported scale-only value type")))
                }
            },
        }
    }

    /// Decode a fixed-length value body.
    fn decode_fixed(r: &mut Reader, f: FixedLenType) -> (res: Result<ColumnValue, TdsError>)
        requires
            old(r).wf(),
        ensures
            final(r).wf(),
            final(r).bytes() == old(r).bytes(),
            res is Ok <==> spec_parse_fixed(old(r).bytes(), old(r).pos as int, f) is Some,
            res matches Err(e) ==> crate::spec_decode_error(e),
            res matches Ok(cv) ==> spec_parse_fixed(old(r).bytes(), old(r).pos as int, f) == Some(
                (cv.model(), final(r).pos as int),
            ),
    {
        match f {
            FixedLenType::Bit => {
                match r.read_u8() {
                    Ok(b) => Ok(ColumnValue::Value(ColumnType::Bool(b == 1))),
                    Err(e) => Err(e),
                }
            },
            FixedLenType::Int1 => {
                match r.read_i8() {
                    Ok(v) => Ok(ColumnValue::Value(ColumnType::I8(v))),
                    Err(e) => Err(e),
                }
            },
            FixedLenType::Int2 => {
                match r.read_i16_le() {
                    Ok(v) => Ok(ColumnValue::Value(ColumnType::I16(v))),
                    Err(e) => Err(e),
                }
            },
            FixedLenType::Int4 => {
                match r.read_i32_le() {
                    Ok(v) => Ok(ColumnValue::Value(ColumnType::I32(v))),
                    Err(e) => Err(e),
                }
            },
            FixedLenType::Int8 => {
                match r.read_i64_le() {
                    Ok(v) => Ok(ColumnValue::Value(ColumnType::I64(v))),
                    Err(e) => Err(e),
                }
            },
            FixedLenType::Float4 => {
                match r.read_u32_le() {
                    Ok(v) => Ok(ColumnValue::Value(ColumnType::F32(v))),
                    Err(e) => Err(e),
                }
            },
            FixedLenType::Float8 => {
                match r.read_u64_le() {
                    Ok(v) => Ok(ColumnValue::Value(ColumnType::F64(v))),
                    Err(e) => Err(e),
                }
            },
            FixedLenType::Money4 | FixedLenType::Money8 => {
                match decode_money(f, r) {
                    Ok(ct) => Ok(ColumnValue::Value(ct)),
                    Err(e) => Err(e),
                }
            },
            FixedLenType::DateTime4 | FixedLenType::DateTime => {
                match decode_datetime(f, r) {
                    Ok(dt) => Ok(ColumnValue::Value(ColumnType::Datetime(dt))),
                    Err(e) => Err(e),
                }
            },
        }
    }

    /// Decode a variable-length value body.
    fn decode_varlen(r: &mut Reader, v: VarLenType, nullable: bool) -> (res: Result<
        ColumnValue,
        TdsError,
    >)
        requires
            old(r).wf(),
        ensures
            final(r).wf(),
            final(r).bytes() == old(r).bytes(),
            res is Ok <==> spec_parse_varlen(old(r).bytes(), old(r).pos as int, v, nullable)
                is Some,
            res matches Err(e) ==> crate::spec_decode_error(e),
            res matches Ok(cv) ==> spec_parse_varlen(
                old(r).bytes(),
                old(r).pos as int,
                v,
                nullable,
            ) == Some((cv.model(), final(r).pos as int)),
    {
        match v {
            VarLenType::BigChar | VarLenType::BigVarChar => {
                let len = match r.read_u16_le() {
                    Ok(x) => x,
                    Err(e) => {
                        return Err(e);
                    },
                };
                if len == 0xFFFF {
                    return Self::null_value(nullable);
                }
                let buf = match r.read_bytes(len as usize) {
                    Ok(x) => x,
                    Err(e) => {
                        return Err(e);
                    },
                };
                match string_from_utf8(buf) {
                    Ok(s) => Ok(ColumnValue::Value(ColumnType::String(s))),
                    Err(e) => Err(e),
                }
            },
            VarLenType::NVarchar | VarLenType::NChar => {
                let len = match r.read_u16_le() {
                    Ok(x) => x,
                    Err(e) => {
                        return Err(e);
                    },
                };
                if len == 0xFFFF {
                    return Self::null_value(nullable);
                }
                let buf = match r.read_bytes(len as usize) {
                    Ok(x) => x,
                    Err(e) => {
                        return Err(e);
                    },
                };
                match crate::utf16::decode_utf16le(buf.as_slice()) {
                    Ok(s) => Ok(ColumnValue::Value(ColumnType::String(s))),
                    Err(e) => Err(e),
                }
            },
            VarLenType::BigBinary | VarLenType::BigVarBin => {
                let len = match r.read_u16_le() {
                    Ok(x) => x,
                    Err(e) => {
                        return Err(e);
                    },
                };
                if len == 0xFFFF {
                    return Self::null_value(nullable);
                }
                match r.read_bytes(len as usize) {
                    Ok(x) => Ok(ColumnValue::Value(ColumnType::Binary(x))),
                    Err(e) => Err(e),
                }
            },
            VarLenType::Text | VarLenType::NText | VarLenType::Image => {
                Self::decode_text(r, v, nullable)
            },
            VarLenType::Intn => {
                let len = match r.read_u8() {
                    Ok(x) => x,
                    Err(e) => {
                        return Err(e);
                    },
                };
                match len {
                    0 => Self::null_value(nullable),
                    1 => match r.read_i8() {
                        Ok(x) => Ok(ColumnValue::Value(ColumnType::I8(x))),
                        Err(e) => Err(e),
                    },
                    2 => match r.read_i16_le() {
                        Ok(x) => Ok(ColumnValue::Value(ColumnType::I16(x))),
                        Err(e) => Err(e),
                    },
                    4 => match r.read_i32_le() {
                        Ok(x) => Ok(ColumnValue::Value(ColumnType::I32(x))),
                        Err(e) => Err(e),
                    },
                    8 => match r.read_i64_le() {
                        Ok(x) => Ok(ColumnValue::Value(ColumnType::I64(x))),
                        Err(e) => Err(e),
                    },
                    _ => Err(
                        TdsError::ProtocolError(
                            TdsProtocolError::InvalidLength(
                                String::from_str("intn: invalid length"),
                            ),
                        ),
                    ),
                }
            },
            VarLenType::Guid => {
                let len = match r.read_u8() {
                    Ok(x) => x,
                    Err(e) => {
                        return Err(e);
                    },
                };
                match len {
                    0 => Self::null_value(nullable),
                    0x10 => match Guid::decode(r) {
                        Ok(g) => Ok(ColumnValue::Value(ColumnType::Guid(g))),
                        Err(e) => Err(e),
                    },
                    _ => Err(
                        TdsError::ProtocolError(
                            TdsProtocolError::InvalidLength(
                                String::from_str("guid: invalid length"),
                            ),
                        ),
                    ),
                }
            },
            VarLenType::Datetimen => {
                let len = match r.read_u8() {
                    Ok(x) => x,
                    Err(e) => {
                        return Err(e);
                    },
                };
                match len {
                    0 => Self::null_value(nullable),
                    4 => match decode_datetime(FixedLenType::DateTime4, r) {
                        Ok(dt) => Ok(ColumnValue::Value(ColumnType::Datetime(dt))),
                        Err(e) => Err(e),
                    },
                    8 => match decode_datetime(FixedLenType::DateTime, r) {
                        Ok(dt) => Ok(ColumnValue::Value(ColumnType::Datetime(dt))),
                        Err(e) => Err(e),
                    },
                    _ => Err(
                        TdsError::ProtocolError(
                            TdsProtocolError::InvalidLength(
                                String::from_str("datetimen: invalid length"),
                            ),
                        ),
                    ),
                }
            },
            VarLenType::Floatn => {
                let len = match r.read_u8() {
                    Ok(x) => x,
                    Err(e) => {
                        return Err(e);
                    },
                };
                match len {
                    0 => Self::null_value(nullable),
                    4 => match r.read_u32_le() {
                        Ok(x) => Ok(ColumnValue::Value(ColumnType::F32(x))),
                        Err(e) => Err(e),
                    },
                    8 => match r.read_u64_le() {
                        Ok(x) => Ok(ColumnValue::Value(ColumnType::F64(x))),
                        Err(e) => Err(e),
                    },
                    _ => Err(
                        TdsError::ProtocolError(
                            TdsProtocolError::InvalidLength(
                                String::from_str("floatn: invalid length"),
                            ),
                        ),
                    ),
                }
            },
            VarLenType::Money => {
                let len = match r.read_u8() {
                    Ok(x) => x,
                    Err(e) => {
                        return Err(e);
                    },
                };
                match len {
                    0 => Self::null_value(nullable),
                    4 => match decode_money(FixedLenType::Money4, r) {
                        Ok(ct) => Ok(ColumnValue::Value(ct)),
                        Err(e) => Err(e),
                    },
                    8 => match decode_money(FixedLenType::Money8, r) {
                        Ok(ct) => Ok(ColumnValue::Value(ct)),
                        Err(e) => Err(e),
                    },
                    _ => Err(
                        TdsError::ProtocolError(
                            TdsProtocolError::InvalidLength(
                                String::from_str("money: invalid length"),
                            ),
                        ),
                    ),
                }
            },
            VarLenType::Bitn => {
                let len = match r.read_u8() {
                    Ok(x) => x,
                    Err(e) => {
                        return Err(e);
                    },
                };
                match len {
                    0 => Self::null_value(nullable),
                    1 => match r.read_u8() {
                        Ok(x) => Ok(ColumnValue::Value(ColumnType::Bool(x != 0))),
                        Err(e) => Err(e),
                    },
                    _ => Err(
                        TdsError::ProtocolError(
                            TdsProtocolError::InvalidLength(
                                String::from_str("bitn: invalid length"),
                            ),
                        ),
                    ),
                }
            },
            _ => Err(TdsError::Other(String::from_str("unsupported variable-length value type"))),
        }
    }

    /// The result of a NULL sentinel: NULL, or a protocol error on a
    /// non-nullable column.
    fn null_value(nullable: bool) -> (res: Result<ColumnValue, TdsError>)
        ensures
            nullable ==> res == Ok::<ColumnValue, TdsError>(ColumnValue::Null),
            !nullable ==> res matches Err(TdsError::ProtocolError(TdsProtocolError::InvalidValue(
                _,
                _,
            ))),
    {
        if nullable {
            Ok(ColumnValue::Null)
        } else {
            Err(
                TdsError::ProtocolError(
                    TdsProtocolError::InvalidValue(
                        String::from_str("NULL on a column not marked nullable"),
                        0xFFFF,
                    ),
                ),
            )
        }
    }

    /// Decode a `text`, `ntext` or `image` value body.
    fn decode_text(r: &mut Reader, v: VarLenType, nullable: bool) -> (res: Result<
        ColumnValue,
        TdsError,
    >)
        requires
            old(r).wf(),
            v == VarLenType::Text || v == VarLenType::NText || v == VarLenType::Image,
        ensures
            final(r).wf(),
            final(r).bytes() == old(r).bytes(),
            res is Ok <==> spec_parse_text(old(r).bytes(), old(r).pos as int, v, nullable) is Some,
            res matches Err(e) ==> crate::spec_decode_error(e),
            res matches Ok(cv) ==> spec_parse_text(old(r).bytes(), old(r).pos as int, v, nullable)
                == Some((cv.model(), final(r).pos as int)),
    {
        let tp_len = match r.read_u8() {
            Ok(x) => x,
            Err(e) => {
                return Err(e);
            },
        };
        if tp_len == 0 {
            return Self::null_value(nullable);
        }
        match r.skip(tp_len as usize + 8) {
            Ok(x) => x,
            Err(e) => {
                return Err(e);
            },
        };
        let len = match r.read_i32_le() {
            Ok(x) => x,
            Err(e) => {
                return Err(e);
            },
        };
        if len < -1 {
            return Err(
                TdsError::ProtocolError(
                    TdsProtocolError::InvalidLength(String::from_str("text: invalid length")),
                ),
            );
        }
        if len == -1 {
            return Self::null_value(nullable);
        }
        let payload = match r.read_bytes(len as usize) {
            Ok(x) => x,
            Err(e) => {
                return Err(e);
            },
        };
        if matches!(v, VarLenType::Text) {
            match string_from_utf8(payload) {
                Ok(s) => Ok(ColumnValue::Value(ColumnType::String(s))),
                Err(e) => Err(e),
            }
        } else if matches!(v, VarLenType::NText) {
            match crate::utf16::decode_utf16le(payload.as_slice()) {
                Ok(s) => Ok(ColumnValue::Value(ColumnType::String(s))),
                Err(e) => Err(e),
            }
        } else {
            Ok(ColumnValue::Value(ColumnType::Binary(payload)))
        }
    }

    /// Decode a `decimal`/`numeric` value body.
    fn decode_decimal(r: &mut Reader, scale: u8, nullable: bool) -> (res: Result<
        ColumnValue,
        TdsError,
    >)
        requires
            old(r).wf(),
        ensures
            final(r).wf(),
            final(r).bytes() == old(r).bytes(),
            res is Ok <==> spec_parse_decimal(old(r).bytes(), old(r).pos as int, scale, nullable)
                is Some,
            res matches Err(e) ==> crate::spec_decode_error(e),
            res matches Ok(cv) ==> spec_parse_decimal(
                old(r).bytes(),
                old(r).pos as int,
                scale,
                nullable,
            ) == Some((cv.model(), final(r).pos as int)),
    {
        let len = match r.read_u8() {
            Ok(x) => x,
            Err(e) => {
                return Err(e);
            },
        };
        if len == 0 {
            return Self::null_value(nullable);
        }
        if len != 5 && len != 9 {
            return Err(
                TdsError::ProtocolError(
                    TdsProtocolError::InvalidLength(String::from_str("decimal: invalid length")),
                ),
            );
        }
        let sign = match r.read_u8() {
            Ok(x) => x,
            Err(e) => {
                return Err(e);
            },
        };
        if len == 5 {
            match r.read_u32_le() {
                Ok(m) => Ok(
                    ColumnValue::Value(
                        ColumnType::Decimal(
                            DecimalValue { negative: sign == 0, magnitude: m as u64, scale },
                        ),
                    ),
                ),
                Err(e) => Err(e),
            }
        } else {
            match r.read_u64_le() {
                Ok(m) => Ok(
                    ColumnValue::Value(
                        ColumnType::Decimal(DecimalValue { negative: sign == 0, magnitude: m, scale }),
                    ),
                ),
                Err(e) => Err(e),
            }
        }
    }

    /// Decode a `datetime2` value body at the given scale.
    fn decode_datetime2(r: &mut Reader, scale: u8) -> (res: Result<ColumnValue, TdsError>)
        requires
            old(r).wf(),
        ensures
            final(r).wf(),
            final(r).bytes() == old(r).bytes(),
            res is Ok <==> spec_parse_datetime2(old(r).bytes(), old(r).pos as int, scale) is Some,
            res matches Err(e) ==> crate::spec_decode_error(e),
            res matches Ok(cv) ==> spec_parse_datetime2(old(r).bytes(), old(r).pos as int, scale)
                == Some((cv.model(), final(r).pos as int)),
    {
        if scale > 7 {
            return Err(
                TdsError::ProtocolError(
                    TdsProtocolError::InvalidLength(String::from_str("datetime2: invalid scale")),
                ),
            );
        }
        let _len = match r.read_u8() {
            Ok(x) => x,
            Err(e) => {
                return Err(e);
            },
        };
        let inc: u64 = if scale <= 2 {
            if r.remaining() < 6 {
                return Err(TdsError::UnexpectedEOF);
            }
            let lo = r.read_u16_le().unwrap();
            let hi = r.read_u8().unwrap();
            lo as u64 + (hi as u64) * 0x10000
        } else if scale <= 4 {
            if r.remaining() < 7 {
                return Err(TdsError::UnexpectedEOF);
            }
            r.read_u32_le().unwrap() as u64
        } else {
            if r.remaining() < 8 {
                return Err(TdsError::UnexpectedEOF);
            }
            let lo = r.read_u32_le().unwrap();
            let hi = r.read_u8().unwrap();
            lo as u64 + (hi as u64) * 0x100000000
        };
        let dlo = r.read_u16_le().unwrap();
        let dhi = r.read_u8().unwrap();
        let days: u32 = dlo as u32 + (dhi as u32) * 0x10000;
        let p = pow10_u64(scale);
        let secs: u64 = inc / p;
        let frac: u64 = inc % p;
        let total: u64 = days as u64 + secs / 86400;
        if total > 0xFFFFFF {
            return Err(TdsError::Conversion(String::from_str("datetime2 out of range")));
        }
        let np = pow10_u64(9 - scale);
        proof {
            lemma_pow10_product(scale as int);
            assert(frac < pow10(scale as int));
            assert(frac * pow10(9 - scale as int) < 1_000_000_000) by (nonlinear_arith)
                requires
                    0 <= frac < pow10(scale as int),
                    pow10(scale as int) * pow10(9 - scale as int) == 1_000_000_000,
                    pow10(9 - scale as int) >= 1,
            ;
        }
        let day_nanos: u64 = (secs % 86400) * 1_000_000_000 + frac * np;
        Ok(
            ColumnValue::Value(
                ColumnType::Datetime(crate::datetime::datetime_from_parts(total as u32, day_nanos)),
            ),
        )
    }
}

/// Ten to `s` times ten to `9 - s` is ten to the ninth.
pub proof fn lemma_pow10_product(s: int)
    requires
        0 <= s <= 9,
    ensures
        pow10(s) * pow10(9 - s) == 1_000_000_000,
        pow10(s) >= 1,
        pow10(9 - s) >= 1,
{
    reveal_with_fuel(pow10, 11);
    assert(pow10(0) == 1);
    assert(pow10(1) == 10);
    assert(pow10(2) == 100);
    assert(pow10(3) == 1_000);
    assert(pow10(4) == 10_000);
    assert(pow10(5) == 100_000);
    assert(pow10(6) == 1_000_000);
    assert(pow10(7) == 10_000_000);
    assert(pow10(8) == 100_000_000);
    assert(pow10(9) == 1_000_000_000);
    if s == 0 {
        assert(pow10(0) * pow10(9) == 1_000_000_000);
    } else if s == 1 {
        assert(pow10(1) * pow10(8) == 1_000_000_000);
    } else if s == 2 {
        assert(pow10(2) * pow10(7) == 1_000_000_000);
    } else if s == 3 {
        assert(pow10(3) * pow10(6) == 1_000_000_000);
    } else if s == 4 {
        assert(pow10(4) * pow10(5) == 1_000_000_000);
    } else if s == 5 {
        assert(pow10(5) * pow10(4) == 1_000_000_000);
    } else if s == 6 {
        assert(pow10(6) * pow10(3) == 1_000_000_000);
    } else if s == 7 {
        assert(pow10(7) * pow10(2) == 1_000_000_000);
    } else if s == 8 {
        assert(pow10(8) * pow10(1) == 1_000_000_000);
    } else {
        assert(pow10(9) * pow10(0) == 1_000_000_000);
    }
}

} // verus!
