//! Byte codec, framing and login-record tests.
use tds::codec::Reader;
use tds::conn::{AuthenticationMethod, ClientState, Connection, ConnectionOptBuilder};
use tds::login::{deobfuscate_password, obfuscate_password, write_login7, Login7};
use tds::packets::{
    decode_header, encode_header, reassemble, segment_message, PacketHeader, PacketStatus,
    PacketType,
};
use tds::{TdsError, TdsProtocolError};

fn default_connection() -> Connection {
    let opts = ConnectionOptBuilder::new()
        .auth(AuthenticationMethod::internal("sa".to_string(), "pw".to_string()))
        .db("tempdb".to_string())
        .build();
    Connection::new(opts)
}

#[test]
fn header_round_trip() {
    let h = PacketHeader {
        ptype: PacketType::SqlBatch,
        status: PacketStatus::EndOfMessage,
        length: 0x1234,
        spid: 0x0506,
        id: 7,
        window: 0,
    };
    let bytes = encode_header(&h);
    assert_eq!(bytes.len(), 8);
    assert_eq!(bytes, vec![1, 1, 0x12, 0x34, 0x05, 0x06, 7, 0]);
    let back = decode_header(bytes.as_slice()).unwrap();
    assert_eq!(back, h);
}

#[test]
fn header_rejects_unknown_type() {
    let bytes = vec![99u8, 0, 0, 8, 0, 0, 0, 0];
    match decode_header(bytes.as_slice()) {
        Err(TdsError::ProtocolError(_)) => {}
        other => panic!("expected a protocol error, got {:?}", other),
    }
}

#[test]
fn header_rejects_impossible_length() {
    // A length field below the header size is an invalid length.
    let bytes = vec![1u8, 0, 0, 7, 0, 0, 0, 0];
    match decode_header(bytes.as_slice()) {
        Err(TdsError::ProtocolError(TdsProtocolError::InvalidLength(_))) => {}
        other => panic!("expected an invalid-length error, got {:?}", other),
    }
}

#[test]
fn header_rejects_short_input() {
    let bytes = vec![1u8, 0, 0];
    match decode_header(bytes.as_slice()) {
        Err(TdsError::UnexpectedEOF) => {}
        other => panic!("expected an EOF error, got {:?}", other),
    }
}

#[test]
fn reader_integers() {
    let data = vec![0x01u8, 0x02, 0x03, 0x04, 0x05, 0x06, 0x07, 0x08, 0xFF, 0xFF, 0xFF, 0xFF];
    let mut r = Reader::new(data.as_slice());
    assert_eq!(r.read_u16_le().unwrap(), 0x0201);
    assert_eq!(r.read_u16_be().unwrap(), 0x0304);
    assert_eq!(r.read_u32_le().unwrap(), 0x08070605);
    assert_eq!(r.read_i32_le().unwrap(), -1);
    assert!(matches!(r.read_u8(), Err(TdsError::UnexpectedEOF)));
}

#[test]
fn segmentation_round_trip() {
    // A 10-byte body with a packet size of 12 leaves 4 data bytes per packet.
    let body: Vec<u8> = (0u8..10).collect();
    let chunks = segment_message(body.as_slice(), 12);
    assert_eq!(chunks.len(), 3);
    assert_eq!(chunks[0], vec![0, 1, 2, 3]);
    assert_eq!(chunks[1], vec![4, 5, 6, 7]);
    assert_eq!(chunks[2], vec![8, 9]);
    let back = reassemble(&chunks);
    assert_eq!(back, body);
}

#[test]
fn segmentation_empty_body_is_one_chunk() {
    let body: Vec<u8> = vec![];
    let chunks = segment_message(body.as_slice(), 512);
    assert_eq!(chunks.len(), 1);
    assert!(chunks[0].is_empty());
}

#[test]
fn exact_fit_is_single_end_of_message_packet() {
    // A body of exactly packet_size - 8 bytes travels as one packet with the
    // end-of-message mark.
    let mut conn = default_connection();
    let body: Vec<u8> = vec![0xAB; 0x1000 - 8];
    let pkts = conn.build_message(PacketType::SqlBatch, body.as_slice());
    assert_eq!(pkts.len(), 1);
    let h = decode_header(pkts[0].as_slice()).unwrap();
    assert_eq!(h.status, PacketStatus::EndOfMessage);
    assert_eq!(h.length, 0x1000);
    assert_eq!(h.id, 0);
    assert_eq!(conn.last_packet_id, 1);
}

#[test]
fn packet_ids_advance_modulo_255() {
    let mut conn = default_connection();
    // A body needing three packets advances the counter by three.
    let body: Vec<u8> = vec![0u8; (0x1000 - 8) * 2 + 5];
    let pkts = conn.build_message(PacketType::SqlBatch, body.as_slice());
    assert_eq!(pkts.len(), 3);
    assert_eq!(conn.last_packet_id, 3);
    for (i, p) in pkts.iter().enumerate() {
        let h = decode_header(p.as_slice()).unwrap();
        assert_eq!(h.id as usize, i);
        let expect_last = i == 2;
        assert_eq!(h.status == PacketStatus::EndOfMessage, expect_last);
    }
    // Drive the counter over the wrap point.
    conn.last_packet_id = 254;
    let pkts = conn.build_message(PacketType::SqlBatch, &[1, 2, 3]);
    assert_eq!(pkts.len(), 1);
    assert_eq!(decode_header(pkts[0].as_slice()).unwrap().id, 254);
    assert_eq!(conn.last_packet_id, 0);
}

#[test]
fn password_obfuscation_and_recovery() {
    let raw: Vec<u8> = vec![0x00, 0x31, 0xA5, 0x7F, 0xFF];
    let obf = obfuscate_password(&raw);
    // Swapping nibbles of 0x31 gives 0x13; XOR 0xA5 gives 0xB6.
    assert_eq!(obf[1], 0xB6);
    assert_eq!(obf[0], 0xA5);
    let back = deobfuscate_password(&obf);
    assert_eq!(back, raw);
    // Applying the forward transformation twice does not restore the input:
    // the inverse applies the steps in the opposite order.
    let twice = obfuscate_password(&obf);
    assert_ne!(twice, raw);
}

#[test]
fn login7_layout() {
    let mut l = Login7::new(0x02000972);
    l.timezone = 0;
    l.username = "user".to_string();
    l.password = "pw".to_string();
    l.default_db = "tempdb".to_string();
    let bytes = write_login7(&l).unwrap();
    // Total length first, little-endian; data starts at offset 94.
    let total = bytes.len() as u32;
    assert_eq!(&bytes[0..4], &total.to_le_bytes());
    // The TDS version is big-endian.
    assert_eq!(&bytes[4..8], &[0x02, 0x00, 0x09, 0x72]);
    // The requested packet size is little-endian 0x1000.
    assert_eq!(&bytes[8..12], &[0x00, 0x10, 0x00, 0x00]);
    // The hostname slot points at offset 94 with zero length.
    assert_eq!(&bytes[36..40], &[94, 0, 0, 0]);
    // The username slot points at 94 and counts 4 UTF-16 units.
    assert_eq!(&bytes[40..44], &[94, 0, 4, 0]);
    // The password bytes are obfuscated in the payload region.
    let pw_utf16: Vec<u8> = vec![b'p', 0, b'w', 0];
    let obf = obfuscate_password(&pw_utf16);
    assert_eq!(&bytes[94 + 8..94 + 12], obf.as_slice());
    // app name and library name both say "tds".
    assert_eq!(l.app_name, "tds");
    assert_eq!(l.library_name, "tds");
}

#[test]
fn connection_state_lifecycle() {
    let mut conn = default_connection();
    assert_eq!(conn.state, ClientState::Initial);
    let opts = Connection::prelogin_options();
    let pkts = conn.prelogin_request(&opts);
    assert_eq!(pkts.len(), 1);
    assert_eq!(conn.state, ClientState::Initial);
    // A prelogin response: a version record and the terminator.
    // Record: token 0, offset 6, length 6; payload 6 bytes.
    let payload = vec![0u8, 0, 6, 0, 6, 0xFF, 9, 0, 0, 0, 0, 0];
    let parsed = conn.handle_prelogin_response(payload.as_slice()).unwrap();
    assert_eq!(parsed.len(), 1);
    assert_eq!(conn.state, ClientState::PreloginPerformed);
    let record = conn.login_record(0x02000972);
    let login_pkts = conn.login_request(&record).unwrap();
    assert_eq!(login_pkts.len(), 1);
    // A login response: LOGINACK + ENVCHANGE(packet size 4096 -> 8192) + DONE.
    let mut resp: Vec<u8> = Vec::new();
    resp.push(0xAD); // LOGINACK
    resp.extend_from_slice(&[0u8, 0]); // length (unused)
    resp.push(1); // interface
    resp.extend_from_slice(&[0x72, 0x09, 0x00, 0x02]); // tds version
    resp.push(1); // prog name: one character
    resp.extend_from_slice(&[b'S', 0]);
    resp.extend_from_slice(&[12, 0, 2, 0]); // version bytes
    resp.push(0xE3); // ENVCHANGE
    resp.extend_from_slice(&[8, 0]); // length
    resp.push(4); // packet size subtype
    resp.push(4); // new value: 4 characters
    resp.extend_from_slice(&[b'8', 0, b'1', 0, b'9', 0, b'2', 0]);
    resp.push(0xFD); // DONE
    resp.extend_from_slice(&[0, 0, 0, 0, 0, 0, 0, 0, 0, 0, 0, 0]);
    conn.handle_login_response(resp.as_slice()).unwrap();
    assert_eq!(conn.state, ClientState::Ready);
    assert_eq!(conn.packet_size, 8192);
}

#[test]
fn large_sql_batch_is_fragmented() {
    let mut conn = default_connection();
    conn.state = ClientState::Ready;
    // A SQL text whose UTF-16 encoding exceeds the packet size must travel
    // in several packets that reassemble to the original body.
    let sql = "SELECT col_varchar_50 FROM test WHERE pad = '".to_string()
        + &"x".repeat(4000)
        + "'";
    let pkts = conn.internal_exec(&sql);
    assert!(pkts.len() > 1);
    let mut payloads: Vec<Vec<u8>> = Vec::new();
    for p in &pkts {
        let h = decode_header(p.as_slice()).unwrap();
        assert_eq!(h.length as usize, p.len());
        payloads.push(p[8..].to_vec());
    }
    let body = reassemble(&payloads);
    // The reassembled body is the ALL_HEADERS preamble plus the UTF-16 text.
    assert_eq!(&body[0..4], &[22, 0, 0, 0]);
    let text: Vec<u8> = sql.encode_utf16().flat_map(|u| u.to_le_bytes()).collect();
    assert_eq!(&body[22..], text.as_slice());
}

#[test]
fn prelogin_bytes_parse_back() {
    let mut conn = default_connection();
    let opts = Connection::prelogin_options();
    let pkts = conn.prelogin_request(&opts);
    assert_eq!(pkts.len(), 1);
    let h = decode_header(pkts[0].as_slice()).unwrap();
    assert_eq!(h.ptype, PacketType::PreLogin);
    assert_eq!(h.status, PacketStatus::EndOfMessage);
    // Parsing the message body we built yields the options we put in.
    let body = &pkts[0][8..];
    let parsed = tds::prelogin::parse_prelogin(body).unwrap();
    assert_eq!(parsed, opts);
}
