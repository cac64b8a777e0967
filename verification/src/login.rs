//! The LOGIN7 record: the fixed preamble, the offset table locating the
//! variable-length fields, and the UTF-16LE field payloads, with the
//! password obfuscated as the protocol demands.
use vstd::prelude::*;

use crate::codec::{u16_le_bytes, u32_be_bytes, u32_le_bytes, u32_of_i32};
use crate::conn::AuthenticationMethod;
use crate::utf16::utf16le_bytes;
use crate::TdsError;

verus! {

/// One byte of password obfuscation: swap the nibbles, then XOR with 0xA5.
pub open spec fn obf_byte(b: u8) -> u8 {
    ((b >> 4) | ((b & 0x0f) << 4)) ^ 0xA5
}

/// One byte of password recovery: XOR with 0xA5, then swap the nibbles.
pub open spec fn deobf_byte(b: u8) -> u8 {
    ((b ^ 0xA5) >> 4) | (((b ^ 0xA5) & 0x0f) << 4)
}

/// The obfuscation of a whole buffer.
pub open spec fn obf_bytes(s: Seq<u8>) -> Seq<u8> {
    s.map_values(|b: u8| obf_byte(b))
}

/// The recovery of a whole buffer.
pub open spec fn deobf_bytes(s: Seq<u8>) -> Seq<u8> {
    s.map_values(|b: u8| deobf_byte(b))
}

/// Undoing the nibble swap and XOR recovers every obfuscated buffer: the two
/// transformations are mutually inverse, byte for byte.
pub proof fn lemma_password_obfuscation_round_trip(s: Seq<u8>)
    ensures
        deobf_bytes(obf_bytes(s)) == s,
        obf_bytes(deobf_bytes(s)) == s,
{
    assert forall|b: u8| #[trigger] deobf_byte(obf_byte(b)) == b by {
        let c = obf_byte(b);
        assert(((c ^ 0xA5) >> 4) | (((c ^ 0xA5) & 0x0f) << 4) == b) by (bit_vector)
            requires
                c == ((b >> 4) | ((b & 0x0f) << 4)) ^ 0xA5,
        ;
    }
    assert forall|b: u8| #[trigger] obf_byte(deobf_byte(b)) == b by {
        let c = deobf_byte(b);
        assert(((c >> 4) | ((c & 0x0f) << 4)) ^ 0xA5 == b) by (bit_vector)
            requires
                c == ((b ^ 0xA5) >> 4) | (((b ^ 0xA5) & 0x0f) << 4),
        ;
    }
    assert(deobf_bytes(obf_bytes(s)) =~= s);
    assert(obf_bytes(deobf_bytes(s)) =~= s);
}

/// Obfuscate a password's encoded bytes.
pub fn obfuscate_password(v: &Vec<u8>) -> (r: Vec<u8>)
    ensures
        r@ == obf_bytes(v@),
{
    let mut out: Vec<u8> = Vec::new();
    let mut i: usize = 0;
    while i < v.len()
        invariant
            i <= v@.len(),
            out@ == obf_bytes(v@.take(i as int)),
        decreases v@.len() - i,
    {
        let b = v[i];
        out.push(((b >> 4) | ((b & 0x0f) << 4)) ^ 0xA5);
        i = i + 1;
        proof {
            assert(out@ =~= obf_bytes(v@.take(i as int)));
        }
    }
    proof {
        assert(v@.take(v@.len() as int) =~= v@);
    }
    out
}

/// Recover a password's encoded bytes from their obfuscation.
pub fn deobfuscate_password(v: &Vec<u8>) -> (r: Vec<u8>)
    ensures
        r@ == deobf_bytes(v@),
{
    let mut out: Vec<u8> = Vec::new();
    let mut i: usize = 0;
    while i < v.len()
        invariant
            i <= v@.len(),
            out@ == deobf_bytes(v@.take(i as int)),
        decreases v@.len() - i,
    {
        let b = v[i] ^ 0xA5;
        out.push((b >> 4) | ((b & 0x0f) << 4));
        i = i + 1;
        proof {
            assert(out@ =~= deobf_bytes(v@.take(i as int)));
        }
    }
    proof {
        assert(v@.take(v@.len() as int) =~= v@);
    }
    out
}

/// Relies on `chrono::Local::now` and `FixedOffset::local_minus_utc`: the
/// machine's offset from UTC is strictly within one day, whatever the
/// environment says.
#[verifier::external_body]
fn local_timezone_offset_seconds() -> (r: i32)
    ensures
        -86400 < r < 86400,
{
    chrono::Local::now().offset().local_minus_utc()
}

/// The machine's offset from UTC in whole minutes, strictly within one day.
fn local_timezone_offset_minutes() -> (r: i32)
    ensures
        -1440 < r < 1440,
{
    local_timezone_offset_seconds() / 60
}

/// The LOGIN7 record's fields.
#[derive(Debug, Clone, PartialEq, Eq)]
pub struct Login7 {
    /// The negotiated protocol version constant; sent big-endian.
    pub tds_version: u32,
    /// The requested packet size.
    pub packet_size: u32,
    pub client_prog_ver: u32,
    pub client_pid: u32,
    pub conn_id: u32,
    /// Byte order, charset, float type, dump-load, use-db and warning bits.
    pub flags1: u8,
    /// Language, ODBC, transaction-boundary and security bits.
    pub flags2: u8,
    /// SQL type and read-only-intent bits.
    pub type_flags: u8,
    /// Change-password and collation-handling bits.
    pub flags3: u8,
    /// Offset from UTC, in minutes.
    pub timezone: i32,
    /// The language code identifier.
    pub lcid: u32,
    pub hostname: String,
    pub username: String,
    pub password: String,
    pub app_name: String,
    pub server_name: String,
    pub library_name: String,
    /// The initial language.
    pub language: String,
    /// The initial database.
    pub default_db: String,
    /// Six bytes identifying the client machine.
    pub client_id: [u8; 6],
}

/// Where the variable-length payloads start: the 36-byte preamble, thirteen
/// offset-length slots, and the six client id bytes.
pub open spec fn login7_data_start() -> int {
    94
}

/// The payload bytes of the record's eight strings, in writing order; the
/// password's bytes are obfuscated.
pub open spec fn login7_payloads(l: Login7) -> Seq<u8> {
    utf16le_bytes(l.hostname@) + utf16le_bytes(l.username@) + obf_bytes(utf16le_bytes(l.password@))
        + utf16le_bytes(l.app_name@) + utf16le_bytes(l.server_name@) + utf16le_bytes(
        l.library_name@,
    ) + utf16le_bytes(l.language@) + utf16le_bytes(l.default_db@)
}

/// One offset-table slot: the field's offset and its length in UTF-16 code
/// units.
pub open spec fn login7_slot(off: int, units: int) -> Seq<u8> {
    u16_le_bytes(off as u16) + u16_le_bytes(units as u16)
}

/// The first 36 bytes of the record: the total length and the fixed
/// preamble.
pub open spec fn login7_preamble(l: Login7) -> Seq<u8> {
    u32_le_bytes((login7_data_start() + login7_payloads(l).len()) as u32) + u32_be_bytes(
        l.tds_version,
    ) + u32_le_bytes(l.packet_size) + u32_le_bytes(l.client_prog_ver) + u32_le_bytes(l.client_pid)
        + u32_le_bytes(l.conn_id) + seq![l.flags1, l.flags2, l.type_flags, l.flags3]
        + u32_le_bytes(u32_of_i32(l.timezone)) + u32_le_bytes(l.lcid)
}

/// The nine offset-table slots locating the string fields.
pub open spec fn login7_table_slots(l: Login7) -> Seq<u8> {
    let p1 = utf16le_bytes(l.hostname@);
    let p2 = utf16le_bytes(l.username@);
    let p3 = obf_bytes(utf16le_bytes(l.password@));
    let p4 = utf16le_bytes(l.app_name@);
    let p5 = utf16le_bytes(l.server_name@);
    let p6 = utf16le_bytes(l.library_name@);
    let p7 = utf16le_bytes(l.language@);
    let p8 = utf16le_bytes(l.default_db@);
    let o1 = login7_data_start();
    let o2 = o1 + p1.len();
    let o3 = o2 + p2.len();
    let o4 = o3 + p3.len();
    let o5 = o4 + p4.len();
    let o6 = o5 + p5.len();
    let o7 = o6 + p6.len();
    let o8 = o7 + p7.len();
    login7_slot(o1, p1.len() as int / 2) + login7_slot(o2, p2.len() as int / 2) + login7_slot(
        o3,
        p3.len() as int / 2,
    ) + login7_slot(o4, p4.len() as int / 2) + login7_slot(o5, p5.len() as int / 2) + login7_slot(
        o6,
        0,
    ) + login7_slot(o6, p6.len() as int / 2) + login7_slot(o7, p7.len() as int / 2) + login7_slot(
        o8,
        p8.len() as int / 2,
    )
}

/// The client id bytes and the trailing empty slots.
pub open spec fn login7_table_tail(l: Login7) -> Seq<u8> {
    let o9 = login7_data_start() + login7_payloads(l).len();
    l.client_id@ + login7_slot(o9, 0) + login7_slot(o9, 0) + login7_slot(o9, 0) + u32_le_bytes(0)
}

/// The offset table, the client id bytes and the trailing empty slots.
pub open spec fn login7_table(l: Login7) -> Seq<u8> {
    login7_table_slots(l) + login7_table_tail(l)
}

/// The whole LOGIN7 record: total length, preamble, offset table, client id,
/// trailing empty slots, then the string payloads.
pub open spec fn login7_bytes(l: Login7) -> Seq<u8> {
    login7_preamble(l) + login7_table(l) + login7_payloads(l)
}

impl Login7 {
    /// A LOGIN7 record for the given protocol version, with this library's
    /// identity, an empty host and server, and the machine's own timezone.
    pub fn new(tds_version: u32) -> (r: Login7)
        ensures
            r.tds_version == tds_version,
            r.packet_size == 0x1000,
            r.client_prog_ver == 0 && r.client_pid == 0 && r.conn_id == 0,
            r.flags1 == 0 && r.flags2 == 0 && r.type_flags == 0 && r.flags3 == 0,
            -1440 < r.timezone < 1440,
            r.lcid == 0x00000409,
            r.hostname@ == Seq::<char>::empty(),
            r.username@ == Seq::<char>::empty(),
            r.password@ == Seq::<char>::empty(),
            r.app_name@ == "tds"@,
            r.server_name@ == Seq::<char>::empty(),
            r.library_name@ == "tds"@,
            r.language@ == Seq::<char>::empty(),
            r.default_db@ == Seq::<char>::empty(),
            r.client_id@ == seq![1u8, 2u8, 3u8, 4u8, 5u8, 6u8],
    {
        let l = Login7 {
            tds_version,
            packet_size: 0x1000,
            client_prog_ver: 0,
            client_pid: 0,
            conn_id: 0,
            flags1: 0,
            flags2: 0,
            type_flags: 0,
            flags3: 0,
            timezone: local_timezone_offset_minutes(),
            lcid: 0x00000409,
            hostname: String::new(),
            username: String::new(),
            password: String::new(),
            app_name: String::from_str("tds"),
            server_name: String::new(),
            library_name: String::from_str("tds"),
            language: String::new(),
            default_db: String::new(),
            client_id: [1, 2, 3, 4, 5, 6],
        };
        proof {
            assert(l.client_id@ =~= seq![1u8, 2u8, 3u8, 4u8, 5u8, 6u8]);
        }
        l
    }

    /// Take the credentials from an authentication method.
    pub fn set_auth(&mut self, auth_method: &AuthenticationMethod)
        ensures
            *final(self) == (Login7 {
                username: final(self).username,
                password: final(self).password,
                ..*old(self)
            }),
            auth_method matches AuthenticationMethod::InternalSqlServerAuth(u, p)
                ==> final(self).username@ == u@ && final(self).password@ == p@,
    {
        match auth_method {
            AuthenticationMethod::InternalSqlServerAuth(user, password) => {
                self.username = user.clone();
                self.password = password.clone();
            },
        }
    }

    /// Set the initial database.
    pub fn set_db(&mut self, db: String)
        ensures
            *final(self) == (Login7 { default_db: db, ..*old(self) }),
    {
        self.default_db = db;
    }
}

/// Append one offset-table slot.
fn write_slot(buf: &mut Vec<u8>, off: usize, units: usize)
    requires
        off <= 0xFFFF,
        units <= 0xFFFF,
    ensures
        final(buf)@ == old(buf)@ + login7_slot(off as int, units as int),
{
    crate::codec::write_u16_le(buf, off as u16);
    crate::codec::write_u16_le(buf, units as u16);
    proof {
        assert(final(buf)@ =~= old(buf)@ + login7_slot(off as int, units as int));
    }
}

/// Append the record's fixed 36-byte preamble.
fn write_login7_preamble(buf: &mut Vec<u8>, l: &Login7, total: u32)
    requires
        total == login7_data_start() + login7_payloads(*l).len(),
    ensures
        final(buf)@ == old(buf)@ + login7_preamble(*l),
{
    crate::codec::write_u32_le(buf, total);
    crate::codec::write_u32_be(buf, l.tds_version);
    crate::codec::write_u32_le(buf, l.packet_size);
    crate::codec::write_u32_le(buf, l.client_prog_ver);
    crate::codec::write_u32_le(buf, l.client_pid);
    crate::codec::write_u32_le(buf, l.conn_id);
    crate::codec::write_u8(buf, l.flags1);
    crate::codec::write_u8(buf, l.flags2);
    crate::codec::write_u8(buf, l.type_flags);
    crate::codec::write_u8(buf, l.flags3);
    let tz: u32 = if l.timezone >= 0 {
        l.timezone as u32
    } else {
        0xFFFFFFFFu32 - ((-(l.timezone + 1)) as u32)
    };
    crate::codec::write_u32_le(buf, tz);
    crate::codec::write_u32_le(buf, l.lcid);
    proof {
        assert(tz == u32_of_i32(l.timezone));
        assert(final(buf)@ =~= old(buf)@ + login7_preamble(*l));
    }
}

/// Append the nine offset-table slots.
#[verifier::rlimit(100)]
fn write_login7_slots(buf: &mut Vec<u8>, l: &Login7, lens: &[usize; 8])
    requires
        lens[0] == utf16le_bytes(l.hostname@).len(),
        lens[1] == utf16le_bytes(l.username@).len(),
        lens[2] == obf_bytes(utf16le_bytes(l.password@)).len(),
        lens[3] == utf16le_bytes(l.app_name@).len(),
        lens[4] == utf16le_bytes(l.server_name@).len(),
        lens[5] == utf16le_bytes(l.library_name@).len(),
        lens[6] == utf16le_bytes(l.language@).len(),
        lens[7] == utf16le_bytes(l.default_db@).len(),
        login7_data_start() + login7_payloads(*l).len() <= 0xFFFF,
    ensures
        final(buf)@ == old(buf)@ + login7_table_slots(*l),
{
    let o1: usize = 94;
    let o2: usize = o1 + lens[0];
    let o3: usize = o2 + lens[1];
    let o4: usize = o3 + lens[2];
    let o5: usize = o4 + lens[3];
    let o6: usize = o5 + lens[4];
    let o7: usize = o6 + lens[5];
    let o8: usize = o7 + lens[6];
    proof {
        assert(login7_payloads(*l).len() == lens[0] + lens[1] + lens[2] + lens[3] + lens[4]
            + lens[5] + lens[6] + lens[7]);
        assert(o8 <= 0xFFFF && o7 <= 0xFFFF && o6 <= 0xFFFF && o5 <= 0xFFFF && o4 <= 0xFFFF && o3
            <= 0xFFFF && o2 <= 0xFFFF && o1 <= 0xFFFF);
    }
    let ghost g0 = buf@;
    write_slot(buf, o1, lens[0] / 2);
    write_slot(buf, o2, lens[1] / 2);
    write_slot(buf, o3, lens[2] / 2);
    write_slot(buf, o4, lens[3] / 2);
    write_slot(buf, o5, lens[4] / 2);
    proof {
        assert(buf@ =~= g0 + (login7_slot(94, lens[0] as int / 2) + login7_slot(
            o2 as int,
            lens[1] as int / 2,
        ) + login7_slot(o3 as int, lens[2] as int / 2) + login7_slot(
            o4 as int,
            lens[3] as int / 2,
        ) + login7_slot(o5 as int, lens[4] as int / 2)));
    }
    write_slot(buf, o6, 0);
    write_slot(buf, o6, lens[5] / 2);
    write_slot(buf, o7, lens[6] / 2);
    write_slot(buf, o8, lens[7] / 2);
    proof {
        assert(buf@ =~= g0 + login7_table_slots(*l));
    }
}

/// Append the client id bytes and the trailing empty slots.
#[verifier::rlimit(100)]
fn write_login7_tail(buf: &mut Vec<u8>, l: &Login7, total: usize)
    requires
        total == login7_data_start() + login7_payloads(*l).len(),
        total <= 0xFFFF,
    ensures
        final(buf)@ == old(buf)@ + login7_table_tail(*l),
{
    let ghost g0 = buf@;
    crate::codec::write_u8(buf, l.client_id[0]);
    crate::codec::write_u8(buf, l.client_id[1]);
    crate::codec::write_u8(buf, l.client_id[2]);
    crate::codec::write_u8(buf, l.client_id[3]);
    crate::codec::write_u8(buf, l.client_id[4]);
    crate::codec::write_u8(buf, l.client_id[5]);
    write_slot(buf, total, 0);
    write_slot(buf, total, 0);
    write_slot(buf, total, 0);
    crate::codec::write_u32_le(buf, 0);
    proof {
        assert(l.client_id@ =~= seq![
            l.client_id@[0],
            l.client_id@[1],
            l.client_id@[2],
            l.client_id@[3],
            l.client_id@[4],
            l.client_id@[5],
        ]);
        assert(buf@ =~= g0 + login7_table_tail(*l));
    }
}

/// Append the offset table, the client id and the trailing slots.
fn write_login7_table(buf: &mut Vec<u8>, l: &Login7, lens: &[usize; 8], total: usize)
    requires
        lens[0] == utf16le_bytes(l.hostname@).len(),
        lens[1] == utf16le_bytes(l.username@).len(),
        lens[2] == obf_bytes(utf16le_bytes(l.password@)).len(),
        lens[3] == utf16le_bytes(l.app_name@).len(),
        lens[4] == utf16le_bytes(l.server_name@).len(),
        lens[5] == utf16le_bytes(l.library_name@).len(),
        lens[6] == utf16le_bytes(l.language@).len(),
        lens[7] == utf16le_bytes(l.default_db@).len(),
        total == login7_data_start() + login7_payloads(*l).len(),
        total <= 0xFFFF,
    ensures
        final(buf)@ == old(buf)@ + login7_table(*l),
{
    write_login7_slots(buf, l, lens);
    write_login7_tail(buf, l, total);
    proof {
        assert(final(buf)@ =~= old(buf)@ + login7_table(*l));
    }
}

/// Serialize a LOGIN7 record. Fails only where the combined payloads would
/// overflow the 16-bit offset table.
#[verifier::rlimit(100)]
pub fn write_login7(l: &Login7) -> (res: Result<Vec<u8>, TdsError>)
    ensures
        res is Ok <==> login7_data_start() + login7_payloads(*l).len() <= 0xFFFF,
        res matches Ok(v) ==> v@ == login7_bytes(*l),
        res is Err ==> res matches Err(TdsError::Other(_)),
{
    let p1 = crate::utf16::encode_utf16le(l.hostname.as_str());
    let p2 = crate::utf16::encode_utf16le(l.username.as_str());
    let p3_raw = crate::utf16::encode_utf16le(l.password.as_str());
    let p3 = obfuscate_password(&p3_raw);
    let p4 = crate::utf16::encode_utf16le(l.app_name.as_str());
    let p5 = crate::utf16::encode_utf16le(l.server_name.as_str());
    let p6 = crate::utf16::encode_utf16le(l.library_name.as_str());
    let p7 = crate::utf16::encode_utf16le(l.language.as_str());
    let p8 = crate::utf16::encode_utf16le(l.default_db.as_str());
    if p1.len() > 0xFFFF || p2.len() > 0xFFFF || p3.len() > 0xFFFF || p4.len() > 0xFFFF || p5.len()
        > 0xFFFF || p6.len() > 0xFFFF || p7.len() > 0xFFFF || p8.len() > 0xFFFF {
        proof {
            assert(login7_payloads(*l).len() > 0xFFFF);
        }
        return Err(TdsError::Other(String::from_str("login record too long")));
    }
    let total: usize = 94 + p1.len() + p2.len() + p3.len() + p4.len() + p5.len() + p6.len()
        + p7.len() + p8.len();
    if total > 0xFFFF {
        proof {
            assert(94 + login7_payloads(*l).len() > 0xFFFF);
        }
        return Err(TdsError::Other(String::from_str("login record too long")));
    }
    let lens: [usize; 8] = [
        p1.len(),
        p2.len(),
        p3.len(),
        p4.len(),
        p5.len(),
        p6.len(),
        p7.len(),
        p8.len(),
    ];
    let mut buf: Vec<u8> = Vec::new();
    write_login7_preamble(&mut buf, l, total as u32);
    let ghost after_preamble = buf@;
    write_login7_table(&mut buf, l, &lens, total);
    let ghost after_table = buf@;
    crate::codec::write_bytes(&mut buf, p1.as_slice());
    crate::codec::write_bytes(&mut buf, p2.as_slice());
    crate::codec::write_bytes(&mut buf, p3.as_slice());
    crate::codec::write_bytes(&mut buf, p4.as_slice());
    crate::codec::write_bytes(&mut buf, p5.as_slice());
    crate::codec::write_bytes(&mut buf, p6.as_slice());
    crate::codec::write_bytes(&mut buf, p7.as_slice());
    crate::codec::write_bytes(&mut buf, p8.as_slice());
    proof {
        assert(buf@ =~= after_table + login7_payloads(*l));
        assert(buf@ =~= login7_bytes(*l));
    }
    Ok(buf)
}

} // verus!
