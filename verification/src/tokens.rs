//! The response token stream: the discriminated records a TabularResult
//! payload concatenates (errors, login acknowledgement, environment changes,
//! completion markers, column metadata, rows and return values), parsed
//! sequentially against a statement's column cache.
use vstd::prelude::*;

use crate::codec::{i32_of_u32, u16_le_of, u32_le_of, u64_le_of, Reader};
use crate::typeinfo::{spec_parse_type_info, TypeInfo, VarLenType};
use crate::types::{spec_parse_value, ColumnValue, ColumnValueModel};
use crate::utf16::{read_b_varchar, read_us_varchar, spec_read_varchar};
use crate::{TdsError, TdsProtocolError, TokenStreamError};

verus! {

/// The discriminator bytes of the supported tokens.
#[derive(Copy, Clone, Debug, PartialEq, Eq, Structural)]
pub enum MessageTypeToken {
    Done,
    DoneProc,
    DoneInProc,
    EnvChange,
    Error,
    LoginAck,
    ReturnStatus,
    Colmetadata,
    ReturnValue,
    Row,
    Order,
}

impl MessageTypeToken {
    /// The discriminator byte of this token.
    pub open spec fn spec_code(self) -> u8 {
        match self {
            MessageTypeToken::Done => 0xFD,
            MessageTypeToken::DoneProc => 0xFE,
            MessageTypeToken::DoneInProc => 0xFF,
            MessageTypeToken::EnvChange => 0xE3,
            MessageTypeToken::Error => 0xAA,
            MessageTypeToken::LoginAck => 0xAD,
            MessageTypeToken::ReturnStatus => 0x79,
            MessageTypeToken::Colmetadata => 0x81,
            MessageTypeToken::ReturnValue => 0xAC,
            MessageTypeToken::Row => 0xD1,
            MessageTypeToken::Order => 0xA9,
        }
    }

    /// The token a discriminator byte names, if any.
    pub open spec fn spec_from_code(code: u8) -> Option<MessageTypeToken> {
        match code {
            0xFDu8 => Some(MessageTypeToken::Done),
            0xFEu8 => Some(MessageTypeToken::DoneProc),
            0xFFu8 => Some(MessageTypeToken::DoneInProc),
            0xE3u8 => Some(MessageTypeToken::EnvChange),
            0xAAu8 => Some(MessageTypeToken::Error),
            0xADu8 => Some(MessageTypeToken::LoginAck),
            0x79u8 => Some(MessageTypeToken::ReturnStatus),
            0x81u8 => Some(MessageTypeToken::Colmetadata),
            0xACu8 => Some(MessageTypeToken::ReturnValue),
            0xD1u8 => Some(MessageTypeToken::Row),
            0xA9u8 => Some(MessageTypeToken::Order),
            _ => None,
        }
    }

    /// The discriminator byte of this token.
    pub fn code(self) -> (r: u8)
        ensures
            r == self.spec_code(),
    {
        match self {
            MessageTypeToken::Done => 0xFD,
            MessageTypeToken::DoneProc => 0xFE,
            MessageTypeToken::DoneInProc => 0xFF,
            MessageTypeToken::EnvChange => 0xE3,
            MessageTypeToken::Error => 0xAA,
            MessageTypeToken::LoginAck => 0xAD,
            MessageTypeToken::ReturnStatus => 0x79,
            MessageTypeToken::Colmetadata => 0x81,
            MessageTypeToken::ReturnValue => 0xAC,
            MessageTypeToken::Row => 0xD1,
            MessageTypeToken::Order => 0xA9,
        }
    }

    /// Recognize a discriminator byte.
    pub fn from_code(code: u8) -> (r: Option<MessageTypeToken>)
        ensures
            r == MessageTypeToken::spec_from_code(code),
    {
        match code {
            0xFD => Some(MessageTypeToken::Done),
            0xFE => Some(MessageTypeToken::DoneProc),
            0xFF => Some(MessageTypeToken::DoneInProc),
            0xE3 => Some(MessageTypeToken::EnvChange),
            0xAA => Some(MessageTypeToken::Error),
            0xAD => Some(MessageTypeToken::LoginAck),
            0x79 => Some(MessageTypeToken::ReturnStatus),
            0x81 => Some(MessageTypeToken::Colmetadata),
            0xAC => Some(MessageTypeToken::ReturnValue),
            0xD1 => Some(MessageTypeToken::Row),
            0xA9 => Some(MessageTypeToken::Order),
            _ => None,
        }
    }
}

/// The flag values of a DONE token's status field.
#[derive(Copy, Clone, Debug, PartialEq, Eq, Structural)]
pub enum TokenStreamDoneStatus {
    Final,
    More,
    Error,
    Inxact,
    Count,
    Attn,
    SrvErr,
}

impl TokenStreamDoneStatus {
    /// The flag's bit value.
    pub open spec fn spec_code(self) -> u16 {
        match self {
            TokenStreamDoneStatus::Final => 0x00,
            TokenStreamDoneStatus::More => 0x01,
            TokenStreamDoneStatus::Error => 0x02,
            TokenStreamDoneStatus::Inxact => 0x04,
            TokenStreamDoneStatus::Count => 0x10,
            TokenStreamDoneStatus::Attn => 0x20,
            TokenStreamDoneStatus::SrvErr => 0x100,
        }
    }

    /// The flag's bit value.
    pub fn code(self) -> (r: u16)
        ensures
            r == self.spec_code(),
    {
        match self {
            TokenStreamDoneStatus::Final => 0x00,
            TokenStreamDoneStatus::More => 0x01,
            TokenStreamDoneStatus::Error => 0x02,
            TokenStreamDoneStatus::Inxact => 0x04,
            TokenStreamDoneStatus::Count => 0x10,
            TokenStreamDoneStatus::Attn => 0x20,
            TokenStreamDoneStatus::SrvErr => 0x100,
        }
    }
}

/// The token stream DONE: a completion marker.
#[derive(Copy, Clone, Debug, PartialEq, Eq, Structural)]
pub struct TokenStreamDone {
    /// A combination of the completion flags.
    pub status: u16,
    /// The current command's token.
    pub cur_cmd: u16,
    /// The affected-row count; meaningful only with the count flag set.
    pub done_row_count: u64,
}

impl TokenStreamDone {
    /// Read a DONE token body: status, command and row count.
    pub fn decode(r: &mut Reader) -> (res: Result<TokenStreamDone, TdsError>)
        requires
            old(r).wf(),
        ensures
            final(r).wf(),
            final(r).bytes() == old(r).bytes(),
            res is Ok <==> old(r).spec_remaining() >= 12,
            res matches Ok(d) ==> {
                let b = old(r).bytes();
                let p = old(r).pos as int;
                d.status == u16_le_of(b.subrange(p, p + 2)) && d.cur_cmd == u16_le_of(
                    b.subrange(p + 2, p + 4),
                ) && d.done_row_count == u64_le_of(b.subrange(p + 4, p + 12)) && final(r).pos == p
                    + 12
            },
            res is Err ==> res matches Err(TdsError::UnexpectedEOF),
    {
        if r.remaining() < 12 {
            return Err(TdsError::UnexpectedEOF);
        }
        let status = r.read_u16_le().unwrap();
        let cur_cmd = r.read_u16_le().unwrap();
        let done_row_count = r.read_u64_le().unwrap();
        Ok(TokenStreamDone { status, cur_cmd, done_row_count })
    }
}

/// The model of a server error report, with its strings as sequences.
pub struct ErrorModel {
    pub code: u32,
    pub state: u8,
    pub class: u8,
    pub message: Seq<char>,
    pub server_name: Seq<char>,
    pub proc_name: Seq<char>,
    pub line_number: u32,
}

impl TokenStreamError {
    /// The model of this error report.
    pub open spec fn model(self) -> ErrorModel {
        ErrorModel {
            code: self.code,
            state: self.state,
            class: self.class,
            message: self.message@,
            server_name: self.server_name@,
            proc_name: self.proc_name@,
            line_number: self.line_number,
        }
    }
}

/// Read a `B_VARCHAR` in spec-land: the characters and the position after.
pub open spec fn spec_b_varchar(b: Seq<u8>, pos: int) -> Option<(Seq<char>, int)> {
    if pos + 1 > b.len() {
        None
    } else {
        let n = b[pos] as int;
        match spec_read_varchar(b, pos + 1, n) {
            Some(cs) => Some((cs, pos + 1 + 2 * n)),
            None => None,
        }
    }
}

/// Read a `US_VARCHAR` in spec-land: the characters and the position after.
pub open spec fn spec_us_varchar(b: Seq<u8>, pos: int) -> Option<(Seq<char>, int)> {
    if pos + 2 > b.len() {
        None
    } else {
        let n = u16_le_of(b.subrange(pos, pos + 2)) as int;
        match spec_read_varchar(b, pos + 2, n) {
            Some(cs) => Some((cs, pos + 2 + 2 * n)),
            None => None,
        }
    }
}

/// Parse an ERROR token body: length, code, state, class, message, server,
/// procedure and line number.
pub open spec fn spec_parse_error(b: Seq<u8>, pos: int) -> Option<(ErrorModel, int)> {
    if pos + 8 > b.len() {
        None
    } else {
        let code = u32_le_of(b.subrange(pos + 2, pos + 6));
        let state = b[pos + 6];
        let class = b[pos + 7];
        match spec_us_varchar(b, pos + 8) {
            None => None,
            Some((message, p1)) => match spec_b_varchar(b, p1) {
                None => None,
                Some((server_name, p2)) => match spec_b_varchar(b, p2) {
                    None => None,
                    Some((proc_name, p3)) => {
                        if p3 + 4 > b.len() {
                            None
                        } else {
                            Some(
                                (
                                    ErrorModel {
                                        code,
                                        state,
                                        class,
                                        message,
                                        server_name,
                                        proc_name,
                                        line_number: u32_le_of(b.subrange(p3, p3 + 4)),
                                    },
                                    p3 + 4,
                                ),
                            )
                        }
                    },
                },
            },
        }
    }
}

impl TokenStreamError {
    /// Read an ERROR token body.
    pub fn decode(r: &mut Reader) -> (res: Result<TokenStreamError, TdsError>)
        requires
            old(r).wf(),
        ensures
            final(r).wf(),
            final(r).bytes() == old(r).bytes(),
            res is Ok <==> spec_parse_error(old(r).bytes(), old(r).pos as int) is Some,
            res matches Err(e) ==> crate::spec_decode_error(e),
            res matches Ok(e) ==> spec_parse_error(old(r).bytes(), old(r).pos as int) == Some(
                (e.model(), final(r).pos as int),
            ),
    {
        if r.remaining() < 8 {
            return Err(TdsError::UnexpectedEOF);
        }
        let _length = r.read_u16_le().unwrap();
        let code = r.read_u32_le().unwrap();
        let state = r.read_u8().unwrap();
        let class = r.read_u8().unwrap();
        let message = match read_us_varchar(r) {
            Ok(s) => s,
            Err(e) => {
                return Err(e);
            },
        };
        let server_name = match read_b_varchar(r) {
            Ok(s) => s,
            Err(e) => {
                return Err(e);
            },
        };
        let proc_name = match read_b_varchar(r) {
            Ok(s) => s,
            Err(e) => {
                return Err(e);
            },
        };
        let line_number = match r.read_u32_le() {
            Ok(v) => v,
            Err(e) => {
                return Err(e);
            },
        };
        Ok(TokenStreamError { code, state, class, message, server_name, proc_name, line_number })
    }
}

/// The login acknowledgement: the server's interface, version and name.
#[derive(Debug, Clone, PartialEq, Eq)]
pub struct TokenStreamLoginAck {
    pub interface: u8,
    pub tds_version: u32,
    /// The server's program name.
    pub prog_name: String,
    pub major_version: u8,
    pub minor_version: u8,
    pub build_num_high: u8,
    pub build_num_low: u8,
}

/// The model of a login acknowledgement.
pub struct LoginAckModel {
    pub interface: u8,
    pub tds_version: u32,
    pub prog_name: Seq<char>,
    pub major_version: u8,
    pub minor_version: u8,
    pub build_num_high: u8,
    pub build_num_low: u8,
}

impl TokenStreamLoginAck {
    /// The model of this acknowledgement.
    pub open spec fn model(self) -> LoginAckModel {
        LoginAckModel {
            interface: self.interface,
            tds_version: self.tds_version,
            prog_name: self.prog_name@,
            major_version: self.major_version,
            minor_version: self.minor_version,
            build_num_high: self.build_num_high,
            build_num_low: self.build_num_low,
        }
    }
}

/// Parse a LOGINACK token body.
pub open spec fn spec_parse_loginack(b: Seq<u8>, pos: int) -> Option<(LoginAckModel, int)> {
    if pos + 7 > b.len() {
        None
    } else {
        let interface = b[pos + 2];
        let tds_version = u32_le_of(b.subrange(pos + 3, pos + 7));
        match spec_b_varchar(b, pos + 7) {
            None => None,
            Some((prog_name, p1)) => {
                if p1 + 4 > b.len() {
                    None
                } else {
                    Some(
                        (
                            LoginAckModel {
                                interface,
                                tds_version,
                                prog_name,
                                major_version: b[p1],
                                minor_version: b[p1 + 1],
                                build_num_high: b[p1 + 2],
                                build_num_low: b[p1 + 3],
                            },
                            p1 + 4,
                        ),
                    )
                }
            },
        }
    }
}

impl TokenStreamLoginAck {
    /// Read a LOGINACK token body.
    pub fn decode(r: &mut Reader) -> (res: Result<TokenStreamLoginAck, TdsError>)
        requires
            old(r).wf(),
        ensures
            final(r).wf(),
            final(r).bytes() == old(r).bytes(),
            res is Ok <==> spec_parse_loginack(old(r).bytes(), old(r).pos as int) is Some,
            res matches Err(e) ==> crate::spec_decode_error(e),
            res matches Ok(a) ==> spec_parse_loginack(old(r).bytes(), old(r).pos as int) == Some(
                (a.model(), final(r).pos as int),
            ),
    {
        if r.remaining() < 7 {
            return Err(TdsError::UnexpectedEOF);
        }
        let _length = r.read_u16_le().unwrap();
        let interface = r.read_u8().unwrap();
        let tds_version = r.read_u32_le().unwrap();
        let prog_name = match read_b_varchar(r) {
            Ok(s) => s,
            Err(e) => {
                return Err(e);
            },
        };
        if r.remaining() < 4 {
            return Err(TdsError::UnexpectedEOF);
        }
        let major_version = r.read_u8().unwrap();
        let minor_version = r.read_u8().unwrap();
        let build_num_high = r.read_u8().unwrap();
        let build_num_low = r.read_u8().unwrap();
        Ok(
            TokenStreamLoginAck {
                interface,
                tds_version,
                prog_name,
                major_version,
                minor_version,
                build_num_high,
                build_num_low,
            },
        )
    }
}

/// The subtypes an ENVCHANGE token can carry.
#[derive(Copy, Clone, Debug, PartialEq, Eq, Structural)]
pub enum EnvChangeType {
    Database,
    Language,
    CharacterSet,
    PacketSize,
    UnicodeDataSortLID,
    UnicodeDataSortLCF,
    SqlCollation,
    BeginTransaction,
    CommitTransaction,
    RollbackTransaction,
    EnlistDTCTransaction,
    DefectTransaction,
    Rtls,
    PromoteTransaction,
    TransactionManagerAddr,
    TransactionEnded,
    ResetConnectionAck,
    SessStartUserInst,
    RoutingInformation,
}

impl EnvChangeType {
    /// The subtype's wire code.
    pub open spec fn spec_code(self) -> u8 {
        match self {
            EnvChangeType::Database => 1,
            EnvChangeType::Language => 2,
            EnvChangeType::CharacterSet => 3,
            EnvChangeType::PacketSize => 4,
            EnvChangeType::UnicodeDataSortLID => 5,
            EnvChangeType::UnicodeDataSortLCF => 6,
            EnvChangeType::SqlCollation => 7,
            EnvChangeType::BeginTransaction => 8,
            EnvChangeType::CommitTransaction => 9,
            EnvChangeType::RollbackTransaction => 10,
            EnvChangeType::EnlistDTCTransaction => 11,
            EnvChangeType::DefectTransaction => 12,
            EnvChangeType::Rtls => 13,
            EnvChangeType::PromoteTransaction => 15,
            EnvChangeType::TransactionManagerAddr => 16,
            EnvChangeType::TransactionEnded => 17,
            EnvChangeType::ResetConnectionAck => 18,
            EnvChangeType::SessStartUserInst => 19,
            EnvChangeType::RoutingInformation => 20,
        }
    }

    /// The subtype a wire code names, if any.
    pub open spec fn spec_from_code(code: u8) -> Option<EnvChangeType> {
        match code {
            1u8 => Some(EnvChangeType::Database),
            2u8 => Some(EnvChangeType::Language),
            3u8 => Some(EnvChangeType::CharacterSet),
            4u8 => Some(EnvChangeType::PacketSize),
            5u8 => Some(EnvChangeType::UnicodeDataSortLID),
            6u8 => Some(EnvChangeType::UnicodeDataSortLCF),
            7u8 => Some(EnvChangeType::SqlCollation),
            8u8 => Some(EnvChangeType::BeginTransaction),
            9u8 => Some(EnvChangeType::CommitTransaction),
            10u8 => Some(EnvChangeType::RollbackTransaction),
            11u8 => Some(EnvChangeType::EnlistDTCTransaction),
            12u8 => Some(EnvChangeType::DefectTransaction),
            13u8 => Some(EnvChangeType::Rtls),
            15u8 => Some(EnvChangeType::PromoteTransaction),
            16u8 => Some(EnvChangeType::TransactionManagerAddr),
            17u8 => Some(EnvChangeType::TransactionEnded),
            18u8 => Some(EnvChangeType::ResetConnectionAck),
            19u8 => Some(EnvChangeType::SessStartUserInst),
            20u8 => Some(EnvChangeType::RoutingInformation),
            _ => None,
        }
    }

    /// Recognize a wire code.
    pub fn from_code(code: u8) -> (r: Option<EnvChangeType>)
        ensures
            r == EnvChangeType::spec_from_code(code),
    {
        match code {
            1 => Some(EnvChangeType::Database),
            2 => Some(EnvChangeType::Language),
            3 => Some(EnvChangeType::CharacterSet),
            4 => Some(EnvChangeType::PacketSize),
            5 => Some(EnvChangeType::UnicodeDataSortLID),
            6 => Some(EnvChangeType::UnicodeDataSortLCF),
            7 => Some(EnvChangeType::SqlCollation),
            8 => Some(EnvChangeType::BeginTransaction),
            9 => Some(EnvChangeType::CommitTransaction),
            10 => Some(EnvChangeType::RollbackTransaction),
            11 => Some(EnvChangeType::EnlistDTCTransaction),
            12 => Some(EnvChangeType::DefectTransaction),
            13 => Some(EnvChangeType::Rtls),
            15 => Some(EnvChangeType::PromoteTransaction),
            16 => Some(EnvChangeType::TransactionManagerAddr),
            17 => Some(EnvChangeType::TransactionEnded),
            18 => Some(EnvChangeType::ResetConnectionAck),
            19 => Some(EnvChangeType::SessStartUserInst),
            20 => Some(EnvChangeType::RoutingInformation),
            _ => None,
        }
    }
}

/// An environment change announced by the server.
#[derive(Debug, Clone, PartialEq, Eq)]
pub enum TokenStreamEnvChange {
    /// A database change: the new value and, if sent, the old.
    Database(String, Option<String>),
    /// A packet size change: the new value and, if sent, the old.
    PacketSize(String, Option<String>),
}

/// The model of an environment change.
pub enum EnvChangeModel {
    Database(Seq<char>, Option<Seq<char>>),
    PacketSize(Seq<char>, Option<Seq<char>>),
}

impl TokenStreamEnvChange {
    /// The model of this change.
    pub open spec fn model(self) -> EnvChangeModel {
        match self {
            TokenStreamEnvChange::Database(n, o) => EnvChangeModel::Database(
                n@,
                match o {
                    Some(s) => Some(s@),
                    None => None,
                },
            ),
            TokenStreamEnvChange::PacketSize(n, o) => EnvChangeModel::PacketSize(
                n@,
                match o {
                    Some(s) => Some(s@),
                    None => None,
                },
            ),
        }
    }
}

/// Parse an ENVCHANGE token body: a length, a subtype, then the subtype's
/// new/old value pair. Only the packet-size subtype is supported.
pub open spec fn spec_parse_envchange(b: Seq<u8>, pos: int) -> Option<(EnvChangeModel, int)> {
    if pos + 3 > b.len() {
        None
    } else {
        let end = pos + u16_le_of(b.subrange(pos, pos + 2));
        let subtype = b[pos + 2];
        if subtype != 4 {
            None
        } else {
            match spec_b_varchar(b, pos + 3) {
                None => None,
                Some((new_value, p1)) => {
                    if p1 < end {
                        match spec_b_varchar(b, p1) {
                            None => None,
                            Some((old_value, p2)) => Some(
                                (EnvChangeModel::PacketSize(new_value, Some(old_value)), p2),
                            ),
                        }
                    } else {
                        Some((EnvChangeModel::PacketSize(new_value, None), p1))
                    }
                },
            }
        }
    }
}

impl TokenStreamEnvChange {
    /// Read an ENVCHANGE token body. A subtype other than packet size is
    /// refused.
    pub fn decode(r: &mut Reader) -> (res: Result<TokenStreamEnvChange, TdsError>)
        requires
            old(r).wf(),
        ensures
            final(r).wf(),
            final(r).bytes() == old(r).bytes(),
            res is Ok <==> spec_parse_envchange(old(r).bytes(), old(r).pos as int) is Some,
            res matches Err(e) ==> crate::spec_decode_error(e),
            res matches Ok(e) ==> spec_parse_envchange(old(r).bytes(), old(r).pos as int) == Some(
                (e.model(), final(r).pos as int),
            ),
    {
        if r.remaining() < 3 {
            return Err(TdsError::UnexpectedEOF);
        }
        let start_pos = r.pos;
        let length = r.read_u16_le().unwrap();
        let subtype = r.read_u8().unwrap();
        if subtype != 4 {
            return match EnvChangeType::from_code(subtype) {
                Some(_) => Err(TdsError::Other(String::from_str("unsupported envchange subtype"))),
                None => Err(
                    TdsError::ProtocolError(
                        TdsProtocolError::InvalidValue(
                            String::from_str("unknown envchange token type"),
                            subtype as u64,
                        ),
                    ),
                ),
            };
        }
        let new_value = match read_b_varchar(r) {
            Ok(s) => s,
            Err(e) => {
                return Err(e);
            },
        };
        if (r.pos as u128) < start_pos as u128 + length as u128 {
            let old_value = match read_b_varchar(r) {
                Ok(s) => s,
                Err(e) => {
                    return Err(e);
                },
            };
            Ok(TokenStreamEnvChange::PacketSize(new_value, Some(old_value)))
        } else {
            Ok(TokenStreamEnvChange::PacketSize(new_value, None))
        }
    }
}

/// A column description from a COLMETADATA token.
#[derive(Debug, Clone, PartialEq, Eq)]
pub struct ColumnData {
    /// The server's user type id.
    pub user_type: u32,
    /// Column flags; bit 0 marks the column nullable.
    pub flags: u16,
    /// The column's type description.
    pub type_info: TypeInfo,
    /// The owning table's name parts; present only for text kinds.
    pub table_name: Option<Vec<String>>,
    /// The column's name.
    pub col_name: Option<String>,
}

/// The model of a column description.
pub struct ColumnDataModel {
    pub user_type: u32,
    pub flags: u16,
    pub type_info: TypeInfo,
    pub table_name: Option<Seq<Seq<char>>>,
    pub col_name: Seq<char>,
}

impl ColumnData {
    /// The model of this description.
    pub open spec fn model(self) -> ColumnDataModel {
        ColumnDataModel {
            user_type: self.user_type,
            flags: self.flags,
            type_info: self.type_info,
            table_name: match self.table_name {
                Some(names) => Some(names@.map_values(|n: String| n@)),
                None => None,
            },
            col_name: match self.col_name {
                Some(n) => n@,
                None => Seq::empty(),
            },
        }
    }

    /// Whether the column may carry NULL.
    pub fn is_nullable(&self) -> (r: bool)
        ensures
            r == ((self.flags & 1) == 1),
    {
        (self.flags & 1) == 1
    }
}

/// Whether the column's model marks it nullable.
pub open spec fn spec_nullable(c: ColumnDataModel) -> bool {
    (c.flags & 1) == 1
}

/// Whether a type carries a table name in its metadata.
pub open spec fn spec_has_tablename(ti: TypeInfo) -> bool {
    match ti {
        TypeInfo::VarLenType(v, _, _) => v == VarLenType::Text || v == VarLenType::NText || v
            == VarLenType::Image,
        TypeInfo::VarLenTypeP(v, _, _, _) => v == VarLenType::Text || v == VarLenType::NText || v
            == VarLenType::Image,
        _ => false,
    }
}

/// Parse `n` US_VARCHAR strings in a row.
pub open spec fn spec_parse_us_varchars(b: Seq<u8>, pos: int, n: int) -> Option<
    (Seq<Seq<char>>, int),
>
    decreases n,
{
    if n <= 0 {
        Some((Seq::empty(), pos))
    } else {
        match spec_us_varchar(b, pos) {
            None => None,
            Some((s, p1)) => match spec_parse_us_varchars(b, p1, n - 1) {
                None => None,
                Some((rest, p2)) => Some((seq![s] + rest, p2)),
            },
        }
    }
}

/// Parse one column description: user type, flags, type description, the
/// table name for text kinds, then the column name.
pub open spec fn spec_parse_column_data(b: Seq<u8>, pos: int) -> Option<(ColumnDataModel, int)> {
    if pos + 6 > b.len() {
        None
    } else {
        let user_type = u32_le_of(b.subrange(pos, pos + 4));
        let flags = u16_le_of(b.subrange(pos + 4, pos + 6));
        match spec_parse_type_info(b, pos + 6) {
            None => None,
            Some((ti, p1)) => {
                if spec_has_tablename(ti) {
                    if p1 + 1 > b.len() {
                        None
                    } else {
                        let parts = b[p1] as int;
                        if parts == 0 {
                            match spec_b_varchar(b, p1 + 1) {
                                None => None,
                                Some((col_name, p3)) => Some(
                                    (
                                        ColumnDataModel {
                                            user_type,
                                            flags,
                                            type_info: ti,
                                            table_name: None,
                                            col_name,
                                        },
                                        p3,
                                    ),
                                ),
                            }
                        } else {
                            match spec_parse_us_varchars(b, p1 + 1, parts) {
                                None => None,
                                Some((names, p2)) => match spec_b_varchar(b, p2) {
                                    None => None,
                                    Some((col_name, p3)) => Some(
                                        (
                                            ColumnDataModel {
                                                user_type,
                                                flags,
                                                type_info: ti,
                                                table_name: Some(names),
                                                col_name,
                                            },
                                            p3,
                                        ),
                                    ),
                                },
                            }
                        }
                    }
                } else {
                    match spec_b_varchar(b, p1) {
                        None => None,
                        Some((col_name, p3)) => Some(
                            (
                                ColumnDataModel {
                                    user_type,
                                    flags,
                                    type_info: ti,
                                    table_name: None,
                                    col_name,
                                },
                                p3,
                            ),
                        ),
                    }
                }
            },
        }
    }
}


/// Read `n` US_VARCHAR strings in a row.
fn read_us_varchars(r: &mut Reader, n: u8) -> (res: Result<Vec<String>, TdsError>)
    requires
        old(r).wf(),
    ensures
        final(r).wf(),
        final(r).bytes() == old(r).bytes(),
        res is Ok <==> spec_parse_us_varchars(old(r).bytes(), old(r).pos as int, n as int) is Some,
        res matches Err(e) ==> crate::spec_decode_error(e),
        res matches Ok(names) ==> spec_parse_us_varchars(old(r).bytes(), old(r).pos as int, n as int)
            == Some((names@.map_values(|s: String| s@), final(r).pos as int)),
{
    let mut names: Vec<String> = Vec::new();
    let mut i: u8 = 0;
    proof {
        assert(names@.map_values(|s: String| s@) =~= Seq::<Seq<char>>::empty());
    }
    while i < n
        invariant
            r.wf(),
            r.bytes() == old(r).bytes(),
            i <= n,
            spec_parse_us_varchars(r.bytes(), old(r).pos as int, n as int) matches Some((all, pe))
                ==> (spec_parse_us_varchars(r.bytes(), r.pos as int, n - i) matches Some(
                (rest, pe2),
            ) && all == names@.map_values(|s: String| s@) + rest && pe == pe2),
            spec_parse_us_varchars(r.bytes(), old(r).pos as int, n as int) is Some
                <==> spec_parse_us_varchars(r.bytes(), r.pos as int, n - i) is Some,
        decreases n - i,
    {
        let ghost pre = r.pos as int;
        let name = match read_us_varchar(r) {
            Ok(s) => s,
            Err(e) => {
                proof {
                    assert(spec_us_varchar(r.bytes(), pre) is None);
                    assert(spec_parse_us_varchars(r.bytes(), pre, n - i) is None);
                }
                return Err(e);
            },
        };
        let ghost prev = names@;
        names.push(name);
        i = i + 1;
        proof {
            if let Some((all, pe)) = spec_parse_us_varchars(
                r.bytes(),
                old(r).pos as int,
                n as int,
            ) {
                if let Some((rest2, pe2)) = spec_parse_us_varchars(r.bytes(), r.pos as int, n - i) {
                    assert(names@.map_values(|s: String| s@) =~= prev.map_values(
                        |s: String| s@,
                    ).push(name@));
                    assert(all =~= names@.map_values(|s: String| s@) + rest2);
                }
            }
        }
    }
    proof {
        assert(spec_parse_us_varchars(r.bytes(), r.pos as int, 0) == Some(
            (Seq::<Seq<char>>::empty(), r.pos as int),
        ));
        if let Some((all, pe)) = spec_parse_us_varchars(r.bytes(), old(r).pos as int, n as int) {
            assert(all =~= names@.map_values(|s: String| s@));
        }
    }
    Ok(names)
}

impl ColumnData {
    /// Read one column description.
    pub fn decode(r: &mut Reader) -> (res: Result<ColumnData, TdsError>)
        requires
            old(r).wf(),
        ensures
            final(r).wf(),
            final(r).bytes() == old(r).bytes(),
            res is Ok <==> spec_parse_column_data(old(r).bytes(), old(r).pos as int) is Some,
            res matches Err(e) ==> crate::spec_decode_error(e),
            res matches Ok(c) ==> spec_parse_column_data(old(r).bytes(), old(r).pos as int)
                == Some((c.model(), final(r).pos as int)),
    {
        if r.remaining() < 6 {
            return Err(TdsError::UnexpectedEOF);
        }
        let user_type = r.read_u32_le().unwrap();
        let flags = r.read_u16_le().unwrap();
        let type_info = match TypeInfo::decode(r) {
            Ok(t) => t,
            Err(e) => {
                return Err(e);
            },
        };
        let has_tablename = match &type_info {
            TypeInfo::VarLenType(v, _, _) => matches!(
                v,
                VarLenType::Text
                    | VarLenType::NText
                    | VarLenType::Image
            ),
            TypeInfo::VarLenTypeP(v, _, _, _) => matches!(
                v,
                VarLenType::Text
                    | VarLenType::NText
                    | VarLenType::Image
            ),
            _ => false,
        };
        let table_name: Option<Vec<String>> = if has_tablename {
            let parts = match r.read_u8() {
                Ok(p) => p,
                Err(e) => {
                    return Err(e);
                },
            };
            if parts == 0 {
                None
            } else {
                match read_us_varchars(r, parts) {
                    Ok(names) => Some(names),
                    Err(e) => {
                        return Err(e);
                    },
                }
            }
        } else {
            None
        };
        let col_name = match read_b_varchar(r) {
            Ok(n) => n,
            Err(e) => {
                return Err(e);
            },
        };
        Ok(ColumnData { user_type, flags, type_info, table_name, col_name: Some(col_name) })
    }
}

/// The COLMETADATA marker; the column descriptions themselves go into the
/// statement's cache.
#[derive(Debug, Clone, PartialEq, Eq)]
pub struct TokenStreamColmetadata {}

/// Parse `n` column descriptions in a row.
pub open spec fn spec_parse_column_datas(b: Seq<u8>, pos: int, n: int) -> Option<
    (Seq<ColumnDataModel>, int),
>
    decreases n,
{
    if n <= 0 {
        Some((Seq::empty(), pos))
    } else {
        match spec_parse_column_data(b, pos) {
            None => None,
            Some((c, p1)) => match spec_parse_column_datas(b, p1, n - 1) {
                None => None,
                Some((rest, p2)) => Some((seq![c] + rest, p2)),
            },
        }
    }
}

/// Parse a COLMETADATA token body: a count, then either the no-metadata
/// sentinel (yielding no columns) or that many column descriptions.
#[verifier::opaque]
pub open spec fn spec_parse_colmetadata(b: Seq<u8>, pos: int) -> Option<
    (Option<Seq<ColumnDataModel>>, int),
> {
    if pos + 2 > b.len() {
        None
    } else {
        let count = u16_le_of(b.subrange(pos, pos + 2));
        if count == 0xFFFF {
            Some((None, pos + 2))
        } else {
            match spec_parse_column_datas(b, pos + 2, count as int) {
                None => None,
                Some((cols, p)) => Some((Some(cols), p)),
            }
        }
    }
}


/// Read `n` column descriptions in a row.
fn read_column_datas(r: &mut Reader, n: u16) -> (res: Result<Vec<ColumnData>, TdsError>)
    requires
        old(r).wf(),
    ensures
        final(r).wf(),
        final(r).bytes() == old(r).bytes(),
        res is Ok <==> spec_parse_column_datas(old(r).bytes(), old(r).pos as int, n as int)
            is Some,
        res matches Err(e) ==> crate::spec_decode_error(e),
        res matches Ok(cols) ==> spec_parse_column_datas(
            old(r).bytes(),
            old(r).pos as int,
            n as int,
        ) == Some((cols@.map_values(|c: ColumnData| c.model()), final(r).pos as int)),
{
    let mut cols: Vec<ColumnData> = Vec::new();
    let mut i: u16 = 0;
    proof {
        assert(cols@.map_values(|c: ColumnData| c.model()) =~= Seq::<ColumnDataModel>::empty());
    }
    while i < n
        invariant
            r.wf(),
            r.bytes() == old(r).bytes(),
            i <= n,
            spec_parse_column_datas(r.bytes(), old(r).pos as int, n as int) matches Some((all, pe))
                ==> (spec_parse_column_datas(r.bytes(), r.pos as int, n - i) matches Some(
                (rest, pe2),
            ) && all == cols@.map_values(|c: ColumnData| c.model()) + rest && pe == pe2),
            spec_parse_column_datas(r.bytes(), old(r).pos as int, n as int) is Some
                <==> spec_parse_column_datas(r.bytes(), r.pos as int, n - i) is Some,
        decreases n - i,
    {
        let ghost pre = r.pos as int;
        let col = match ColumnData::decode(r) {
            Ok(c) => c,
            Err(e) => {
                proof {
                    assert(spec_parse_column_data(r.bytes(), pre) is None);
                    assert(spec_parse_column_datas(r.bytes(), pre, n - i) is None);
                }
                return Err(e);
            },
        };
        let ghost prev = cols@;
        cols.push(col);
        i = i + 1;
        proof {
            if let Some((all, pe)) = spec_parse_column_datas(
                r.bytes(),
                old(r).pos as int,
                n as int,
            ) {
                if let Some((rest2, pe2)) = spec_parse_column_datas(
                    r.bytes(),
                    r.pos as int,
                    n - i,
                ) {
                    assert(cols@.map_values(|c: ColumnData| c.model()) =~= prev.map_values(
                        |c: ColumnData| c.model(),
                    ).push(col.model()));
                    assert(all =~= cols@.map_values(|c: ColumnData| c.model()) + rest2);
                }
            }
        }
    }
    proof {
        assert(spec_parse_column_datas(r.bytes(), r.pos as int, 0) == Some(
            (Seq::<ColumnDataModel>::empty(), r.pos as int),
        ));
        if let Some((all, pe)) = spec_parse_column_datas(
            r.bytes(),
            old(r).pos as int,
            n as int,
        ) {
            assert(all =~= cols@.map_values(|c: ColumnData| c.model()));
        }
    }
    Ok(cols)
}

impl TokenStreamColmetadata {
    /// Read a COLMETADATA token body, replacing the statement's column cache
    /// unless the token carries no metadata.
    pub fn decode_stmt(r: &mut Reader, stmt: &mut crate::stmt::StatementInfo) -> (res: Result<
        TokenStreamColmetadata,
        TdsError,
    >)
        requires
            old(r).wf(),
        ensures
            final(r).wf(),
            final(r).bytes() == old(r).bytes(),
            final(stmt).handle == old(stmt).handle,
            res is Err ==> final(stmt).cols() == old(stmt).cols(),
            res is Ok <==> spec_parse_colmetadata(old(r).bytes(), old(r).pos as int) is Some,
            res matches Err(e) ==> crate::spec_decode_error(e),
            res is Ok ==> match spec_parse_colmetadata(old(r).bytes(), old(r).pos as int) {
                Some((None, p)) => final(stmt).cols() == old(stmt).cols() && final(r).pos == p,
                Some((Some(cols), p)) => final(stmt).cols() == cols && final(r).pos == p,
                None => false,
            },
    {
        proof {
            reveal(spec_parse_colmetadata);
        }
        let count = match r.read_u16_le() {
            Ok(c) => c,
            Err(e) => {
                return Err(e);
            },
        };
        if count == 0xFFFF {
            return Ok(TokenStreamColmetadata {  });
        }
        let cols = match read_column_datas(r, count) {
            Ok(c) => c,
            Err(e) => {
                return Err(e);
            },
        };
        stmt.column_infos = cols;
        Ok(TokenStreamColmetadata {  })
    }
}

/// One result row: a value for each column of the current metadata.
#[derive(Debug, Clone, PartialEq, Eq)]
pub struct TokenStreamRow {
    /// The row's values, one per column.
    pub data: Vec<ColumnValue>,
}

/// Parse a ROW token body: one value per column, each read under its
/// column's type and nullability.
#[verifier::opaque]
pub open spec fn spec_parse_row(b: Seq<u8>, pos: int, cols: Seq<ColumnDataModel>) -> Option<
    (Seq<ColumnValueModel>, int),
>
    decreases cols.len(),
{
    if cols.len() == 0 {
        Some((Seq::empty(), pos))
    } else {
        match spec_parse_value(b, pos, cols[0].type_info, spec_nullable(cols[0])) {
            None => None,
            Some((v, p1)) => match spec_parse_row(b, p1, cols.drop_first()) {
                None => None,
                Some((rest, p2)) => Some((seq![v] + rest, p2)),
            },
        }
    }
}

impl TokenStreamRow {
    /// Read a ROW token body against the statement's current columns.
    #[verifier::rlimit(60)]
    pub fn decode_stmt(r: &mut Reader, stmt: &crate::stmt::StatementInfo) -> (res: Result<
        TokenStreamRow,
        TdsError,
    >)
        requires
            old(r).wf(),
        ensures
            final(r).wf(),
            final(r).bytes() == old(r).bytes(),
            res is Ok <==> spec_parse_row(old(r).bytes(), old(r).pos as int, stmt.cols()) is Some,
            res matches Err(e) ==> crate::spec_decode_error(e),
            res matches Ok(row) ==> spec_parse_row(old(r).bytes(), old(r).pos as int, stmt.cols())
                == Some(
                (row.data@.map_values(|v: ColumnValue| v.model()), final(r).pos as int),
            ) && row.data@.len() == stmt.column_infos@.len(),
    {
        let n = stmt.column_infos.len();
        let mut values: Vec<ColumnValue> = Vec::new();
        let mut i: usize = 0;
        proof {
            reveal(spec_parse_row);
            assert(stmt.cols().skip(0) =~= stmt.cols());
            assert(values@.map_values(|v: ColumnValue| v.model())
                =~= Seq::<ColumnValueModel>::empty());
        }
        while i < n
            invariant
                r.wf(),
                r.bytes() == old(r).bytes(),
                i <= n,
                n == stmt.column_infos@.len(),
                values@.len() == i,
                spec_parse_row(r.bytes(), old(r).pos as int, stmt.cols()) matches Some((all, pe))
                    ==> (spec_parse_row(r.bytes(), r.pos as int, stmt.cols().skip(i as int))
                    matches Some((rest, pe2)) && all == values@.map_values(
                    |v: ColumnValue| v.model(),
                ) + rest && pe == pe2),
                spec_parse_row(r.bytes(), old(r).pos as int, stmt.cols()) is Some
                    <==> spec_parse_row(r.bytes(), r.pos as int, stmt.cols().skip(i as int))
                    is Some,
            decreases n - i,
        {
            proof {
                reveal(spec_parse_row);
                assert(stmt.cols().skip(i as int)[0] == stmt.cols()[i as int]);
                assert(stmt.cols().skip(i as int).drop_first() =~= stmt.cols().skip(i + 1));
            }
            let col = &stmt.column_infos[i];
            let nullable = col.is_nullable();
            let value = match ColumnValue::decode(r, &col.type_info, nullable) {
                Ok(v) => v,
                Err(e) => {
                    return Err(e);
                },
            };
            let ghost prev = values@;
            values.push(value);
            i = i + 1;
            proof {
                if let Some((all, pe)) = spec_parse_row(
                    r.bytes(),
                    old(r).pos as int,
                    stmt.cols(),
                ) {
                    if let Some((rest2, pe2)) = spec_parse_row(
                        r.bytes(),
                        r.pos as int,
                        stmt.cols().skip(i as int),
                    ) {
                        assert(values@.map_values(|v: ColumnValue| v.model()) =~= prev.map_values(
                            |v: ColumnValue| v.model(),
                        ).push(value.model()));
                        assert(all =~= values@.map_values(|v: ColumnValue| v.model()) + rest2);
                    }
                }
            }
        }
        proof {
            reveal(spec_parse_row);
            assert(stmt.cols().skip(n as int) =~= Seq::<ColumnDataModel>::empty());
            if let Some((all, pe)) = spec_parse_row(r.bytes(), old(r).pos as int, stmt.cols()) {
                assert(all =~= values@.map_values(|v: ColumnValue| v.model()));
            }
        }
        Ok(TokenStreamRow { data: values })
    }
}

/// A RETURNVALUE token: one returned parameter with its type and value.
#[derive(Debug, Clone, PartialEq, Eq)]
pub struct TokenStreamRetVal {
    /// The parameter's ordinal within the request.
    pub pos: u16,
    /// The parameter's name.
    pub name: String,
    /// Status bits.
    pub status: u8,
    /// The server's user type id.
    pub user_type: u32,
    /// Flags.
    pub flags: u16,
    /// The value's type description.
    pub tyinfo: TypeInfo,
    /// The value itself.
    pub data: ColumnValue,
}

/// The model of a returned parameter.
pub struct RetValModel {
    pub pos: u16,
    pub name: Seq<char>,
    pub status: u8,
    pub user_type: u32,
    pub flags: u16,
    pub tyinfo: TypeInfo,
    pub data: ColumnValueModel,
}

impl TokenStreamRetVal {
    /// The model of this returned parameter.
    pub open spec fn model(self) -> RetValModel {
        RetValModel {
            pos: self.pos,
            name: self.name@,
            status: self.status,
            user_type: self.user_type,
            flags: self.flags,
            tyinfo: self.tyinfo,
            data: self.data.model(),
        }
    }
}

/// Parse a RETURNVALUE token body: ordinal, name, status, user type, flags,
/// type description, then the value, which may always be NULL.
pub open spec fn spec_parse_retval(b: Seq<u8>, pos: int) -> Option<(RetValModel, int)> {
    if pos + 2 > b.len() {
        None
    } else {
        let ordinal = u16_le_of(b.subrange(pos, pos + 2));
        match spec_b_varchar(b, pos + 2) {
            None => None,
            Some((name, p1)) => {
                if p1 + 7 > b.len() {
                    None
                } else {
                    let status = b[p1];
                    let user_type = u32_le_of(b.subrange(p1 + 1, p1 + 5));
                    let flags = u16_le_of(b.subrange(p1 + 5, p1 + 7));
                    match spec_parse_type_info(b, p1 + 7) {
                        None => None,
                        Some((ti, p2)) => match spec_parse_value(b, p2, ti, true) {
                            None => None,
                            Some((v, p3)) => Some(
                                (
                                    RetValModel {
                                        pos: ordinal,
                                        name,
                                        status,
                                        user_type,
                                        flags,
                                        tyinfo: ti,
                                        data: v,
                                    },
                                    p3,
                                ),
                            ),
                        },
                    }
                }
            },
        }
    }
}

impl TokenStreamRetVal {
    /// Read a RETURNVALUE token body.
    pub fn decode(r: &mut Reader) -> (res: Result<TokenStreamRetVal, TdsError>)
        requires
            old(r).wf(),
        ensures
            final(r).wf(),
            final(r).bytes() == old(r).bytes(),
            res is Ok <==> spec_parse_retval(old(r).bytes(), old(r).pos as int) is Some,
            res matches Err(e) ==> crate::spec_decode_error(e),
            res matches Ok(v) ==> spec_parse_retval(old(r).bytes(), old(r).pos as int) == Some(
                (v.model(), final(r).pos as int),
            ),
    {
        let ordinal = match r.read_u16_le() {
            Ok(v) => v,
            Err(e) => {
                return Err(e);
            },
        };
        let name = match read_b_varchar(r) {
            Ok(n) => n,
            Err(e) => {
                return Err(e);
            },
        };
        if r.remaining() < 7 {
            return Err(TdsError::UnexpectedEOF);
        }
        let status = r.read_u8().unwrap();
        let user_type = r.read_u32_le().unwrap();
        let flags = r.read_u16_le().unwrap();
        let tyinfo = match TypeInfo::decode(r) {
            Ok(t) => t,
            Err(e) => {
                return Err(e);
            },
        };
        let data = match ColumnValue::decode(r, &tyinfo, true) {
            Ok(v) => v,
            Err(e) => {
                return Err(e);
            },
        };
        Ok(TokenStreamRetVal { pos: ordinal, name, status, user_type, flags, tyinfo, data })
    }
}

/// One decoded response token.
#[derive(Debug, Clone, PartialEq, Eq)]
pub enum TokenStream {
    Error(TokenStreamError),
    LoginAck(TokenStreamLoginAck),
    EnvChange(TokenStreamEnvChange),
    Done(TokenStreamDone),
    DoneProc(TokenStreamDone),
    DoneInProc(TokenStreamDone),
    Colmetadata(TokenStreamColmetadata),
    Row(TokenStreamRow),
    ReturnStatus(i32),
    ReturnValue(TokenStreamRetVal),
    Order(Vec<u16>),
}

/// The model of a decoded token.
pub enum TokenModel {
    Error(ErrorModel),
    LoginAck(LoginAckModel),
    EnvChange(EnvChangeModel),
    Done(TokenStreamDone),
    DoneProc(TokenStreamDone),
    DoneInProc(TokenStreamDone),
    Colmetadata,
    Row(Seq<ColumnValueModel>),
    ReturnStatus(i32),
    ReturnValue(RetValModel),
    Order(Seq<u16>),
}

impl TokenStream {
    /// The model of this token.
    pub open spec fn model(self) -> TokenModel {
        match self {
            TokenStream::Error(e) => TokenModel::Error(e.model()),
            TokenStream::LoginAck(a) => TokenModel::LoginAck(a.model()),
            TokenStream::EnvChange(e) => TokenModel::EnvChange(e.model()),
            TokenStream::Done(d) => TokenModel::Done(d),
            TokenStream::DoneProc(d) => TokenModel::DoneProc(d),
            TokenStream::DoneInProc(d) => TokenModel::DoneInProc(d),
            TokenStream::Colmetadata(_) => TokenModel::Colmetadata,
            TokenStream::Row(row) => TokenModel::Row(
                row.data@.map_values(|v: ColumnValue| v.model()),
            ),
            TokenStream::ReturnStatus(v) => TokenModel::ReturnStatus(v),
            TokenStream::ReturnValue(v) => TokenModel::ReturnValue(v.model()),
            TokenStream::Order(o) => TokenModel::Order(o@),
        }
    }
}

/// Parse the body of a token that does not touch the column cache, after
/// its discriminator byte.
#[verifier::opaque]
pub open spec fn spec_parse_general_body(b: Seq<u8>, pos: int, t: MessageTypeToken) -> Option<
    (TokenModel, int),
> {
    match t {
        MessageTypeToken::Done => spec_parse_done_body(b, pos, t),
        MessageTypeToken::DoneProc => spec_parse_done_body(b, pos, t),
        MessageTypeToken::DoneInProc => spec_parse_done_body(b, pos, t),
        MessageTypeToken::EnvChange => match spec_parse_envchange(b, pos) {
            None => None,
            Some((m, p)) => Some((TokenModel::EnvChange(m), p)),
        },
        MessageTypeToken::Error => match spec_parse_error(b, pos) {
            None => None,
            Some((m, p)) => Some((TokenModel::Error(m), p)),
        },
        MessageTypeToken::LoginAck => match spec_parse_loginack(b, pos) {
            None => None,
            Some((m, p)) => Some((TokenModel::LoginAck(m), p)),
        },
        MessageTypeToken::ReturnStatus => {
            if pos + 4 <= b.len() {
                Some(
                    (
                        TokenModel::ReturnStatus(i32_of_u32(u32_le_of(b.subrange(pos, pos + 4)))),
                        pos + 4,
                    ),
                )
            } else {
                None
            }
        },
        MessageTypeToken::ReturnValue => match spec_parse_retval(b, pos) {
            None => None,
            Some((m, p)) => Some((TokenModel::ReturnValue(m), p)),
        },
        _ => None,
    }
}

/// Parse one token at `pos` against the current column cache: the token's
/// model, the columns in force afterwards, and the position after it. Rows
/// and column metadata are admitted only in statement mode.
pub open spec fn spec_parse_token(
    b: Seq<u8>,
    pos: int,
    cols: Seq<ColumnDataModel>,
    stmt_mode: bool,
) -> Option<(TokenModel, Seq<ColumnDataModel>, int)> {
    if pos < 0 || pos >= b.len() {
        None
    } else {
        match MessageTypeToken::spec_from_code(b[pos]) {
            None => None,
            Some(t) => match t {
                MessageTypeToken::Colmetadata => {
                    if !stmt_mode {
                        None
                    } else {
                        match spec_parse_colmetadata(b, pos + 1) {
                            None => None,
                            Some((None, p)) => Some((TokenModel::Colmetadata, cols, p)),
                            Some((Some(cs), p)) => Some((TokenModel::Colmetadata, cs, p)),
                        }
                    }
                },
                MessageTypeToken::Row => {
                    if !stmt_mode {
                        None
                    } else {
                        match spec_parse_row(b, pos + 1, cols) {
                            None => None,
                            Some((vals, p)) => Some((TokenModel::Row(vals), cols, p)),
                        }
                    }
                },
                _ => match spec_parse_general_body(b, pos + 1, t) {
                    None => None,
                    Some((m, p)) => Some((m, cols, p)),
                },
            },
        }
    }
}

/// The DONE-family tail of a token parse.
pub open spec fn spec_parse_done_body(b: Seq<u8>, pos: int, t: MessageTypeToken) -> Option<
    (TokenModel, int),
> {
    if pos + 12 <= b.len() {
        let d = TokenStreamDone {
            status: u16_le_of(b.subrange(pos, pos + 2)),
            cur_cmd: u16_le_of(b.subrange(pos + 2, pos + 4)),
            done_row_count: u64_le_of(b.subrange(pos + 4, pos + 12)),
        };
        let m = if t == MessageTypeToken::Done {
            TokenModel::Done(d)
        } else if t == MessageTypeToken::DoneProc {
            TokenModel::DoneProc(d)
        } else {
            TokenModel::DoneInProc(d)
        };
        Some((m, pos + 12))
    } else {
        None
    }
}

/// Parse the whole token stream from `pos` to the payload's end, threading
/// the column cache: the models of the tokens in order, and the columns left
/// in force.
pub open spec fn spec_parse_tokens(
    b: Seq<u8>,
    pos: int,
    cols: Seq<ColumnDataModel>,
    stmt_mode: bool,
) -> Option<(Seq<TokenModel>, Seq<ColumnDataModel>)>
    decreases b.len() - pos,
{
    if pos == b.len() {
        Some((Seq::empty(), cols))
    } else {
        match spec_parse_token(b, pos, cols, stmt_mode) {
            None => None,
            Some((tm, cols2, p2)) => {
                if p2 <= pos || p2 > b.len() {
                    None
                } else {
                    match spec_parse_tokens(b, p2, cols2, stmt_mode) {
                        None => None,
                        Some((rest, cols3)) => Some((seq![tm] + rest, cols3)),
                    }
                }
            },
        }
    }
}

/// Read the body of a token that does not consult the column cache.
#[verifier::rlimit(60)]
fn handle_token_stream(token_type: MessageTypeToken, r: &mut Reader) -> (res: Result<
    TokenStream,
    TdsError,
>)
    requires
        old(r).wf(),
        !(token_type == MessageTypeToken::Colmetadata),
        !(token_type == MessageTypeToken::Row),
    ensures
        final(r).wf(),
        final(r).bytes() == old(r).bytes(),
        res is Ok <==> spec_parse_general_body(old(r).bytes(), old(r).pos as int, token_type)
            is Some,
        res matches Err(e) ==> crate::spec_decode_error(e),
        res matches Ok(tok) ==> spec_parse_general_body(
            old(r).bytes(),
            old(r).pos as int,
            token_type,
        ) == Some((tok.model(), final(r).pos as int)),
{
    proof {
        reveal(spec_parse_general_body);
    }
    match token_type {
        MessageTypeToken::Done => {
            match TokenStreamDone::decode(r) {
                Ok(d) => Ok(TokenStream::Done(d)),
                Err(e) => Err(e),
            }
        },
        MessageTypeToken::DoneProc => {
            match TokenStreamDone::decode(r) {
                Ok(d) => Ok(TokenStream::DoneProc(d)),
                Err(e) => Err(e),
            }
        },
        MessageTypeToken::DoneInProc => {
            match TokenStreamDone::decode(r) {
                Ok(d) => Ok(TokenStream::DoneInProc(d)),
                Err(e) => Err(e),
            }
        },
        MessageTypeToken::EnvChange => {
            match TokenStreamEnvChange::decode(r) {
                Ok(v) => Ok(TokenStream::EnvChange(v)),
                Err(e) => Err(e),
            }
        },
        MessageTypeToken::Error => {
            match TokenStreamError::decode(r) {
                Ok(v) => Ok(TokenStream::Error(v)),
                Err(e) => Err(e),
            }
        },
        MessageTypeToken::LoginAck => {
            match TokenStreamLoginAck::decode(r) {
                Ok(v) => Ok(TokenStream::LoginAck(v)),
                Err(e) => Err(e),
            }
        },
        MessageTypeToken::ReturnStatus => {
            match r.read_i32_le() {
                Ok(v) => Ok(TokenStream::ReturnStatus(v)),
                Err(e) => Err(e),
            }
        },
        MessageTypeToken::ReturnValue => {
            match TokenStreamRetVal::decode(r) {
                Ok(v) => Ok(TokenStream::ReturnValue(v)),
                Err(e) => Err(e),
            }
        },
        _ => Err(TdsError::Other(String::from_str("token not supported yet"))),
    }
}

/// Read one token, updating the statement's column cache where it is a
/// COLMETADATA token.
#[verifier::rlimit(100)]
fn read_token(r: &mut Reader, stmt: &mut crate::stmt::StatementInfo, stmt_mode: bool) -> (res:
    Result<TokenStream, TdsError>)
    requires
        old(r).wf(),
    ensures
        final(r).wf(),
        final(r).bytes() == old(r).bytes(),
        final(stmt).handle == old(stmt).handle,
        res is Ok <==> spec_parse_token(old(r).bytes(), old(r).pos as int, old(stmt).cols(), stmt_mode)
            is Some,
        res matches Err(e) ==> crate::spec_decode_error(e),
        res matches Ok(tok) ==> spec_parse_token(
            old(r).bytes(),
            old(r).pos as int,
            old(stmt).cols(),
            stmt_mode,
        ) == Some((tok.model(), final(stmt).cols(), final(r).pos as int)),
        res is Err ==> final(stmt).cols() == old(stmt).cols(),
    {
        let tag = match r.read_u8() {
            Ok(t) => t,
            Err(e) => {
                return Err(e);
            },
        };
        let token_type = match MessageTypeToken::from_code(tag) {
            Some(t) => t,
            None => {
                return Err(
                    TdsError::ProtocolError(
                        TdsProtocolError::InvalidValue(
                            String::from_str("unknown message token"),
                            tag as u64,
                        ),
                    ),
                );
            },
        };
        match token_type {
            MessageTypeToken::Colmetadata => {
                if !stmt_mode {
                    return Err(
                        TdsError::Other(
                            String::from_str("token not supported outside a statement"),
                        ),
                    );
                }
                match TokenStreamColmetadata::decode_stmt(r, stmt) {
                    Ok(v) => Ok(TokenStream::Colmetadata(v)),
                    Err(e) => Err(e),
                }
            },
            MessageTypeToken::Row => {
                if !stmt_mode {
                    return Err(
                        TdsError::Other(
                            String::from_str("token not supported outside a statement"),
                        ),
                    );
                }
                match TokenStreamRow::decode_stmt(r, stmt) {
                    Ok(v) => Ok(TokenStream::Row(v)),
                    Err(e) => Err(e),
                }
            },
            _ => {
                match handle_token_stream(token_type, r) {
                    Ok(v) => Ok(v),
                    Err(e) => Err(e),
                }
            },
        }
    }

/// Parse a whole response payload into its tokens, updating the statement's
/// column cache as COLMETADATA tokens pass.
pub fn parse_token_stream(
    payload: &[u8],
    stmt: &mut crate::stmt::StatementInfo,
    stmt_mode: bool,
) -> (res: Result<Vec<TokenStream>, TdsError>)
    ensures
        final(stmt).handle == old(stmt).handle,
        res is Ok <==> spec_parse_tokens(payload@, 0, old(stmt).cols(), stmt_mode) is Some,
        res matches Err(e) ==> crate::spec_decode_error(e),
        res matches Ok(toks) ==> spec_parse_tokens(payload@, 0, old(stmt).cols(), stmt_mode)
            == Some((toks@.map_values(|t: TokenStream| t.model()), final(stmt).cols())),
{
    let mut out: Vec<TokenStream> = Vec::new();
    let mut r = Reader::new(payload);
    proof {
        assert(out@.map_values(|t: TokenStream| t.model()) =~= Seq::<TokenModel>::empty());
    }
    loop
        invariant
            r.wf(),
            r.bytes() == payload@,
            stmt.handle == old(stmt).handle,
            spec_parse_tokens(payload@, 0, old(stmt).cols(), stmt_mode) matches Some((all, fc))
                ==> (spec_parse_tokens(payload@, r.pos as int, stmt.cols(), stmt_mode)
                matches Some((rest, fc2)) && all == out@.map_values(|t: TokenStream| t.model())
                + rest && fc == fc2),
            spec_parse_tokens(payload@, 0, old(stmt).cols(), stmt_mode) is Some
                <==> spec_parse_tokens(payload@, r.pos as int, stmt.cols(), stmt_mode) is Some,
        decreases payload@.len() - r.pos,
    {
        if !r.has_remaining() {
            proof {
                if let Some((all, fc)) = spec_parse_tokens(
                    payload@,
                    0,
                    old(stmt).cols(),
                    stmt_mode,
                ) {
                    assert(all =~= out@.map_values(|t: TokenStream| t.model()));
                }
            }
            return Ok(out);
        }
        let pre_pos = r.pos;
        let tok = match read_token(&mut r, stmt, stmt_mode) {
            Ok(t) => t,
            Err(e) => {
                return Err(e);
            },
        };
        if r.pos <= pre_pos {
            return Err(TdsError::Other(String::from_str("token stream did not advance")));
        }
        let ghost prev = out@;
        out.push(tok);
        proof {
            if let Some((all, fc)) = spec_parse_tokens(payload@, 0, old(stmt).cols(), stmt_mode) {
                if let Some((rest2, fc2)) = spec_parse_tokens(
                    payload@,
                    r.pos as int,
                    stmt.cols(),
                    stmt_mode,
                ) {
                    assert(out@.map_values(|t: TokenStream| t.model()) =~= prev.map_values(
                        |t: TokenStream| t.model(),
                    ).push(tok.model()));
                    assert(all =~= out@.map_values(|t: TokenStream| t.model()) + rest2);
                }
            }
        }
    }
}

/// The first ERROR token in a stream, if any.
pub open spec fn spec_first_error(tokens: Seq<TokenStream>) -> Option<TokenStreamError>
    decreases tokens.len(),
{
    if tokens.len() == 0 {
        None
    } else {
        match tokens[0] {
            TokenStream::Error(e) => Some(e),
            _ => spec_first_error(tokens.drop_first()),
        }
    }
}

/// Surface the first ERROR token of a response as a server error.
pub fn catch_error(tokens: &Vec<TokenStream>) -> (res: Result<(), TdsError>)
    ensures
        res is Ok <==> spec_first_error(tokens@) is None,
        res matches Err(e) ==> Some(e) == match spec_first_error(tokens@) {
            Some(se) => Some(TdsError::ServerError(se)),
            None => None,
        },
{
    let mut i: usize = 0;
    proof {
        assert(tokens@.skip(0) =~= tokens@);
    }
    while i < tokens.len()
        invariant
            i <= tokens@.len(),
            spec_first_error(tokens@) == spec_first_error(tokens@.skip(i as int)),
        decreases tokens@.len() - i,
    {
        proof {
            assert(tokens@.skip(i as int)[0] == tokens@[i as int]);
            assert(tokens@.skip(i as int).drop_first() =~= tokens@.skip(i + 1));
        }
        match &tokens[i] {
            TokenStream::Error(e) => {
                let copy = TokenStreamError {
                    code: e.code,
                    state: e.state,
                    class: e.class,
                    message: e.message.clone(),
                    server_name: e.server_name.clone(),
                    proc_name: e.proc_name.clone(),
                    line_number: e.line_number,
                };
                return Err(TdsError::ServerError(copy));
            },
            _ => {},
        }
        i = i + 1;
    }
    proof {
        assert(tokens@.skip(tokens@.len() as int) =~= Seq::<TokenStream>::empty());
    }
    Ok(())
}

/// A parsed value is NULL only on a column marked nullable: no NULL sentinel
/// is accepted elsewhere.
pub proof fn lemma_value_null_only_nullable(b: Seq<u8>, pos: int, ti: TypeInfo, nullable: bool)
    requires
        spec_parse_value(b, pos, ti, nullable) matches Some((m, p)) && m is Null,
    ensures
        nullable,
{
    if !nullable {
        match ti {
            TypeInfo::FixedLenType(f) => {
                assert(!(spec_parse_value(b, pos, ti, nullable) matches Some((m, p)) && m
                    is Null));
            },
            TypeInfo::VarLenType(v, _len, _col) => {
                assert(!(spec_parse_value(b, pos, ti, nullable) matches Some((m, p)) && m
                    is Null));
            },
            TypeInfo::VarLenTypeP(v, _len, _precision, scale) => {
                assert(!(spec_parse_value(b, pos, ti, nullable) matches Some((m, p)) && m
                    is Null));
            },
            TypeInfo::VarLenTypeS(v, scale) => {
                assert(!(spec_parse_value(b, pos, ti, nullable) matches Some((m, p)) && m
                    is Null));
            },
        }
    }
}

/// Every parsed row has one value per column, and a NULL stands only in a
/// column whose flags mark it nullable.
pub proof fn lemma_row_nulls_only_nullable(b: Seq<u8>, pos: int, cols: Seq<ColumnDataModel>)
    requires
        spec_parse_row(b, pos, cols) is Some,
    ensures
        spec_parse_row(b, pos, cols) matches Some((vals, p)) ==> vals.len() == cols.len() && (
        forall|i: int|
            0 <= i < vals.len() ==> ((#[trigger] vals[i]) is Null ==> spec_nullable(cols[i]))),
    decreases cols.len(),
{
    reveal(spec_parse_row);
    if cols.len() > 0 {
        let (v0, p1) = spec_parse_value(b, pos, cols[0].type_info, spec_nullable(cols[0])).unwrap();
        if v0 is Null {
            lemma_value_null_only_nullable(b, pos, cols[0].type_info, spec_nullable(cols[0]));
        }
        lemma_row_nulls_only_nullable(b, p1, cols.drop_first());
        let (vals, p) = spec_parse_row(b, pos, cols).unwrap();
        let (rest, p2) = spec_parse_row(b, p1, cols.drop_first()).unwrap();
        assert(vals == seq![v0] + rest);
        assert forall|i: int| 0 <= i < vals.len() implies ((#[trigger] vals[i]) is Null
            ==> spec_nullable(cols[i])) by {
            if i == 0 {
                assert(vals[0] == v0);
            } else {
                assert(vals[i] == rest[i - 1]);
                assert(cols[i] == cols.drop_first()[i - 1]);
            }
        }
    }
}

} // verus!
