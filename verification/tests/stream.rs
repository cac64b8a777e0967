//! Token-stream, statement-surface and connection-string tests.
use tds::codec::Reader;
use tds::jdbc::JdbcConnectionString;
use tds::rpc::{write_param_value, write_rpc_request, RpcProcId, RpcProcIdValue};
use tds::stmt::{handle_execute_packet, handle_query_packet, PreparedStatement, StatementInfo};
use tds::tokens::{parse_token_stream, TokenStream};
use tds::typeinfo::TypeInfo;
use tds::types::{ColumnType, ColumnValue};
use tds::TdsError;

/// A COLMETADATA token for two columns: a nullable `int` and a non-nullable
/// `nvarchar`.
fn colmetadata_two_columns() -> Vec<u8> {
    let mut b: Vec<u8> = Vec::new();
    b.push(0x81); // COLMETADATA
    b.extend_from_slice(&2u16.to_le_bytes());
    // column 1: user type, flags (nullable), Intn(4), name "id".
    b.extend_from_slice(&0u32.to_le_bytes());
    b.extend_from_slice(&1u16.to_le_bytes());
    b.extend_from_slice(&[0x26, 4]);
    b.push(2);
    b.extend_from_slice(&[b'i', 0, b'd', 0]);
    // column 2: user type, flags (not nullable), NVarchar(100), name "col_varchar_50".
    b.extend_from_slice(&0u32.to_le_bytes());
    b.extend_from_slice(&0u16.to_le_bytes());
    b.extend_from_slice(&[0xE7, 100, 0, 0, 0, 0, 0, 0]);
    let name = "col_varchar_50";
    b.push(name.len() as u8);
    for u in name.encode_utf16() {
        b.extend_from_slice(&u.to_le_bytes());
    }
    b
}

fn row_token(id: i32, text: &str) -> Vec<u8> {
    let mut b: Vec<u8> = Vec::new();
    b.push(0xD1); // ROW
    b.push(4);
    b.extend_from_slice(&id.to_le_bytes());
    let units: Vec<u16> = text.encode_utf16().collect();
    b.extend_from_slice(&((units.len() * 2) as u16).to_le_bytes());
    for u in units {
        b.extend_from_slice(&u.to_le_bytes());
    }
    b
}

fn done_token(status: u16, rows: u64) -> Vec<u8> {
    let mut b = vec![0xFDu8];
    b.extend_from_slice(&status.to_le_bytes());
    b.extend_from_slice(&0u16.to_le_bytes());
    b.extend_from_slice(&rows.to_le_bytes());
    b
}

#[test]
fn simple_select_rows() {
    let mut payload = colmetadata_two_columns();
    payload.extend_from_slice(&row_token(1, "HelloWorld"));
    payload.extend_from_slice(&row_token(2, "chinese:\u{838A}\u{5B50}"));
    payload.extend_from_slice(&done_token(0x10, 2));
    let mut stmt = StatementInfo::new();
    let toks = parse_token_stream(payload.as_slice(), &mut stmt, true).unwrap();
    assert_eq!(stmt.column_infos.len(), 2);
    assert!(stmt.column_infos[0].is_nullable());
    assert!(!stmt.column_infos[1].is_nullable());
    let qr = handle_query_packet(toks, &stmt).unwrap();
    assert_eq!(qr.len(), 2);
    let idx = qr.get_index("col_varchar_50").unwrap();
    assert_eq!(idx, 1);
    assert_eq!(
        *qr.get(0).get(idx),
        ColumnValue::Value(ColumnType::String("HelloWorld".to_string()))
    );
    assert_eq!(
        *qr.get(1).get(0),
        ColumnValue::Value(ColumnType::I32(2))
    );
    assert!(qr.get_index("missing").is_none());
    // Every row carries one value per column.
    assert_eq!(qr.get(0).len(), 2);
    assert_eq!(qr.get(1).len(), 2);
}

#[test]
fn server_error_surfaces() {
    // An ERROR token: code 547, state 1, class 16, message "boom", empty
    // server and procedure names, line 1.
    let mut payload: Vec<u8> = vec![0xAA];
    payload.extend_from_slice(&0u16.to_le_bytes());
    payload.extend_from_slice(&547u32.to_le_bytes());
    payload.push(1);
    payload.push(16);
    payload.extend_from_slice(&4u16.to_le_bytes());
    for u in "boom".encode_utf16() {
        payload.extend_from_slice(&u.to_le_bytes());
    }
    payload.push(0);
    payload.push(0);
    payload.extend_from_slice(&1u32.to_le_bytes());
    payload.extend_from_slice(&done_token(0, 0));
    let mut stmt = StatementInfo::new();
    let toks = parse_token_stream(payload.as_slice(), &mut stmt, true).unwrap();
    match handle_query_packet(toks, &stmt) {
        Err(TdsError::ServerError(e)) => {
            assert_eq!(e.code, 547);
            assert_eq!(e.class, 16);
            assert_eq!(e.message, "boom");
        }
        other => panic!("expected a server error, got {:?}", other),
    }
}

#[test]
fn exec_row_count() {
    let payload = done_token(0x10, 3);
    let mut stmt = StatementInfo::new();
    let toks = parse_token_stream(payload.as_slice(), &mut stmt, true).unwrap();
    assert_eq!(handle_execute_packet(&toks).unwrap(), 3);
    // Without the count flag there is no verdict.
    let payload = done_token(0, 3);
    let toks = parse_token_stream(payload.as_slice(), &mut stmt, true).unwrap();
    match handle_execute_packet(&toks) {
        Err(TdsError::Other(_)) => {}
        other => panic!("expected a missing-count error, got {:?}", other),
    }
}

#[test]
fn unknown_token_is_protocol_error() {
    let payload = vec![0x42u8, 0, 0];
    let mut stmt = StatementInfo::new();
    match parse_token_stream(payload.as_slice(), &mut stmt, true) {
        Err(TdsError::ProtocolError(_)) => {}
        other => panic!("expected a protocol error, got {:?}", other),
    }
}

#[test]
fn param_encoding_round_trip() {
    // An int parameter: encode, then decode the bytes back.
    let mut buf: Vec<u8> = Vec::new();
    write_param_value(&mut buf, &ColumnType::I32(-7)).unwrap();
    assert_eq!(&buf[0..3], &[0x26, 4, 4]);
    let mut r = Reader::new(buf.as_slice());
    let ti = TypeInfo::decode(&mut r).unwrap();
    assert_eq!(
        ColumnValue::decode(&mut r, &ti, true).unwrap(),
        ColumnValue::Value(ColumnType::I32(-7))
    );
    // A string parameter likewise.
    let mut buf: Vec<u8> = Vec::new();
    write_param_value(&mut buf, &ColumnType::String("W\u{838A}rld".to_string())).unwrap();
    let mut r = Reader::new(buf.as_slice());
    let ti = TypeInfo::decode(&mut r).unwrap();
    assert_eq!(
        ColumnValue::decode(&mut r, &ti, true).unwrap(),
        ColumnValue::Value(ColumnType::String("W\u{838A}rld".to_string()))
    );
    // A kind outside the encoder's set is refused.
    let mut buf: Vec<u8> = Vec::new();
    match write_param_value(&mut buf, &ColumnType::Bool(true)) {
        Err(TdsError::Other(_)) => {}
        other => panic!("expected an unsupported-kind error, got {:?}", other),
    }
}

#[test]
fn prepared_statement_lifecycle() {
    let mut ps = PreparedStatement::new("SELECT * FROM test WHERE id=@P1;".to_string());
    assert!(ps.needs_prepare());
    let params = vec![ColumnType::I32(3)];
    let req = ps.prepare_request(&params).unwrap();
    assert_eq!(req.proc_id, RpcProcIdValue::Id(RpcProcId::SpPrepare));
    assert_eq!(req.params.len(), 3);
    assert_eq!(req.params[0].name, "handle");
    assert_eq!(req.params[0].status_flags, 1);
    assert_eq!(req.params[1].value, ColumnType::String("@P1 int".to_string()));
    assert_eq!(
        req.params[2].value,
        ColumnType::String("SELECT * FROM test WHERE id=@P1;".to_string())
    );
    let body = write_rpc_request(&req).unwrap();
    // ALL_HEADERS, then the sp_prepare id marker.
    assert_eq!(&body[0..4], &[22, 0, 0, 0]);
    assert_eq!(&body[22..26], &[0xFF, 0xFF, 11, 0]);
    // The sp_prepare response returns the handle as parameter "handle".
    let mut payload: Vec<u8> = vec![0xAC];
    payload.extend_from_slice(&1u16.to_le_bytes());
    payload.push(6);
    for u in "handle".encode_utf16() {
        payload.extend_from_slice(&u.to_le_bytes());
    }
    payload.push(1);
    payload.extend_from_slice(&0u32.to_le_bytes());
    payload.extend_from_slice(&0u16.to_le_bytes());
    payload.extend_from_slice(&[0x26, 4, 4]);
    payload.extend_from_slice(&57i32.to_le_bytes());
    let mut stmt = StatementInfo::new();
    let toks = parse_token_stream(payload.as_slice(), &mut stmt, true).unwrap();
    ps.absorb_prepare_response(&toks).unwrap();
    assert!(!ps.needs_prepare());
    assert_eq!(ps.stmt.handle, Some(57));
    // The sp_execute request reuses the handle and carries the parameters.
    let req = ps.execute_request(&params).unwrap();
    assert_eq!(req.proc_id, RpcProcIdValue::Id(RpcProcId::SpExecute));
    assert_eq!(req.params.len(), 2);
    assert_eq!(req.params[0].value, ColumnType::I32(57));
    assert_eq!(req.params[1].value, ColumnType::I32(3));
    // On drop the caller can release the server handle.
    let req = ps.unprepare_request();
    assert_eq!(req.proc_id, RpcProcIdValue::Id(RpcProcId::SpUnprepare));
    assert_eq!(req.params.len(), 1);
    assert_eq!(req.params[0].name, "handle");
    assert_eq!(req.params[0].value, ColumnType::I32(57));
}

#[test]
fn multi_parameter_declaration() {
    let ps = PreparedStatement::new("SELECT 1".to_string());
    let params = vec![
        ColumnType::I32(12),
        ColumnType::String("x".to_string()),
        ColumnType::I64(23),
    ];
    let req = ps.prepare_request(&params).unwrap();
    assert_eq!(
        req.params[1].value,
        ColumnType::String("@P1 int,@P2 nvarchar,@P3 bigint".to_string())
    );
}

#[test]
fn parse_sub_protocol() {
    let conn = JdbcConnectionString::from_str("jdbc:sqlserver://").unwrap();
    assert_eq!(conn.sub_protocol(), "jdbc:sqlserver");
}

#[test]
fn jdbc_rejects_bad_input() {
    match JdbcConnectionString::from_str("odbc:foo") {
        Err(TdsError::Conversion(_)) => {}
        other => panic!("expected a conversion error, got {:?}", other),
    }
    match JdbcConnectionString::from_str("jdbc:sqlserver://{unclosed") {
        Err(TdsError::Conversion(_)) => {}
        other => panic!("expected a conversion error, got {:?}", other),
    }
    // An escaped literal tokenizes.
    let conn = JdbcConnectionString::from_str("jdbc:sqlserver://;key={a;b}").unwrap();
    assert!(conn.properties().is_empty());
}
