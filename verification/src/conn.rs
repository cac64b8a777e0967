//! The session core: connection options and the verified state machine that
//! drives the handshake and statement traffic. The session owns no socket;
//! it produces the exact bytes to send and interprets the bytes received, so
//! any byte-stream transport around it can carry a connection.
use vstd::prelude::*;

use crate::codec::u16_le_bytes;
use crate::login::Login7;
use crate::packets::{chunks_of, header_bytes, PacketHeader, PacketStatus, PacketType};
use crate::prelogin::{EncryptionSetting, OptionTokenModel, OptionTokenPair};
use crate::tokens::{
    EnvChangeModel, ErrorModel, TokenModel, TokenStream, TokenStreamEnvChange,
};
use crate::TdsError;

verus! {

/// Where the session stands in its lifecycle.
#[derive(Copy, Clone, Debug, PartialEq, Eq, Structural)]
pub enum ClientState {
    /// Nothing sent yet; the prelogin exchange comes first.
    Initial,
    /// The prelogin response has been consumed; login comes next.
    PreloginPerformed,
    /// Logged in; statements may be issued.
    Ready,
}

/// How the session authenticates.
#[derive(Debug, Clone, PartialEq, Eq)]
pub enum AuthenticationMethod {
    /// SQL-server authentication: a username and a password.
    InternalSqlServerAuth(String, String),
}

impl AuthenticationMethod {
    /// SQL-server authentication from a username and a password.
    pub fn internal(username: String, password: String) -> (r: AuthenticationMethod)
        ensures
            r == AuthenticationMethod::InternalSqlServerAuth(username, password),
    {
        AuthenticationMethod::InternalSqlServerAuth(username, password)
    }
}

/// A builder for connection options.
pub struct ConnectionOptBuilder {
    /// The authentication method, once given.
    pub auth: Option<AuthenticationMethod>,
    /// The initial database, once given.
    pub database: Option<String>,
}

impl ConnectionOptBuilder {
    /// An empty builder.
    pub fn new() -> (r: ConnectionOptBuilder)
        ensures
            r.auth is None,
            r.database is None,
    {
        ConnectionOptBuilder { auth: None, database: None }
    }

    /// Choose the authentication method.
    pub fn auth(self, method: AuthenticationMethod) -> (r: ConnectionOptBuilder)
        ensures
            r.auth == Some(method),
            r.database == self.database,
    {
        ConnectionOptBuilder { auth: Some(method), ..self }
    }

    /// Choose the initial database.
    pub fn db(self, db: String) -> (r: ConnectionOptBuilder)
        ensures
            r.database == Some(db),
            r.auth == self.auth,
    {
        ConnectionOptBuilder { database: Some(db), ..self }
    }

    /// Finish the options; both fields must have been given.
    pub fn build(self) -> (r: ConnectionOptions)
        requires
            self.auth is Some,
            self.database is Some,
        ensures
            Some(r.auth) == self.auth,
            Some(r.database) == self.database,
    {
        ConnectionOptions { auth: self.auth.unwrap(), database: self.database.unwrap() }
    }
}

/// The options a session is opened with.
#[derive(Debug, Clone, PartialEq, Eq)]
pub struct ConnectionOptions {
    /// How to authenticate.
    pub auth: AuthenticationMethod,
    /// The initial database.
    pub database: String,
}

/// The header of the `i`-th packet of a message: end-of-message exactly on
/// the last packet, the length covering header and chunk, and the rolling id.
pub open spec fn spec_packet_header(ptype: PacketType, chunk_len: int, is_last: bool, id: u8)
    -> PacketHeader {
    PacketHeader {
        ptype,
        status: if is_last {
            PacketStatus::EndOfMessage
        } else {
            PacketStatus::NormalMessage
        },
        length: (chunk_len + 8) as u16,
        spid: 0,
        id,
        window: 0,
    }
}

/// Whether `pkts` frames `body` as a logical message: the body's chunks in
/// order, each behind its header, ids rolling from `first_id`, and only the
/// last marked end-of-message.
pub open spec fn frames_message(
    pkts: Seq<Seq<u8>>,
    body: Seq<u8>,
    ptype: PacketType,
    first_id: u8,
    packet_size: u16,
) -> bool {
    let chunks = chunks_of(body, packet_size - 8);
    &&& pkts.len() == chunks.len()
    &&& forall|i: int|
        0 <= i < pkts.len() ==> #[trigger] pkts[i] == header_bytes(
            spec_packet_header(
                ptype,
                chunks[i].len() as int,
                i == pkts.len() - 1,
                ((first_id + i) % 255) as u8,
            ),
        ) + chunks[i]
}

/// The verified session core. It owns no socket: every request comes out as
/// the exact packets to put on the wire, and every response goes in as the
/// payload read off it.
#[derive(Debug)]
pub struct Connection {
    /// Where the session stands.
    pub state: ClientState,
    /// The rolling packet counter, always below 255.
    pub last_packet_id: u8,
    /// The negotiated packet size.
    pub packet_size: u16,
    /// The options the session was opened with.
    pub opts: ConnectionOptions,
}

impl Connection {
    /// The session's invariant: the id rolls below 255 and the packet size
    /// stays in the protocol's range.
    pub open spec fn wf(&self) -> bool {
        &&& self.last_packet_id < 255
        &&& self.packet_size >= 512
    }

    /// A fresh session in its initial state, with the default packet size.
    pub fn new(opts: ConnectionOptions) -> (r: Connection)
        ensures
            r.wf(),
            r.state == ClientState::Initial,
            r.last_packet_id == 0,
            r.packet_size == 0x1000,
            r.opts == opts,
    {
        Connection { state: ClientState::Initial, last_packet_id: 0, packet_size: 0x1000, opts }
    }

    /// Hand out the next packet id and advance the rolling counter.
    pub fn alloc_id(&mut self) -> (id: u8)
        requires
            old(self).wf(),
        ensures
            final(self).wf(),
            id == old(self).last_packet_id,
            final(self).last_packet_id == (old(self).last_packet_id + 1) % 255,
            *final(self) == (Connection { last_packet_id: final(self).last_packet_id, ..*old(self) }),
    {
        let id = self.last_packet_id;
        self.last_packet_id = (id + 1) % 255;
        id
    }

    /// Cut a message body into packets: allocate an id for each chunk, put
    /// the end-of-message mark on the last alone, and prefix each chunk's
    /// header. After `n` packets the counter has advanced by `n`, modulo 255.
    pub fn build_message(&mut self, ptype: PacketType, body: &[u8]) -> (pkts: Vec<Vec<u8>>)
        requires
            old(self).wf(),
        ensures
            final(self).wf(),
            frames_message(
                pkts@.map_values(|p: Vec<u8>| p@),
                body@,
                ptype,
                old(self).last_packet_id,
                old(self).packet_size,
            ),
            final(self).last_packet_id == (old(self).last_packet_id + pkts@.len()) % 255,
            *final(self) == (Connection { last_packet_id: final(self).last_packet_id, ..*old(self) }),
            pkts@.len() >= 1,
            body@.len() <= old(self).packet_size - 8 ==> pkts@.len() == 1,
            forall|i: int|
                0 <= i < pkts@.len() ==> 8 <= (#[trigger] pkts@[i])@.len() <= old(
                    self,
                ).packet_size,
    {
        let ghost first = self.last_packet_id;
        let chunks = crate::packets::segment_message(body, self.packet_size);
        proof {
            crate::packets::lemma_chunk_sizes(body@, self.packet_size - 8);
        }
        let mut pkts: Vec<Vec<u8>> = Vec::new();
        let mut i: usize = 0;
        while i < chunks.len()
            invariant
                self.wf(),
                i <= chunks@.len(),
                chunks@.map_values(|c: Vec<u8>| c@) == chunks_of(body@, old(self).packet_size - 8),
                self.state == old(self).state,
                self.packet_size == old(self).packet_size,
                self.opts == old(self).opts,
                self.last_packet_id == (first + i) % 255,
                first == old(self).last_packet_id,
                pkts@.len() == i,
                forall|j: int|
                    0 <= j < i ==> (#[trigger] pkts@[j])@ == header_bytes(
                        spec_packet_header(
                            ptype,
                            chunks@[j]@.len() as int,
                            j == chunks@.len() - 1,
                            ((first + j) % 255) as u8,
                        ),
                    ) + chunks@[j]@,
            decreases chunks@.len() - i,
        {
            let chunk = &chunks[i];
            proof {
                crate::packets::lemma_chunk_sizes(body@, old(self).packet_size - 8);
                assert(chunks@.map_values(|c: Vec<u8>| c@)[i as int] == chunk@);
                assert(chunks_of(body@, old(self).packet_size - 8)[i as int] == chunk@);
                assert(chunk@.len() <= old(self).packet_size - 8);
            }
            let id = self.alloc_id();
            let is_last = i == chunks.len() - 1;
            let header = PacketHeader {
                ptype,
                status: if is_last {
                    PacketStatus::EndOfMessage
                } else {
                    PacketStatus::NormalMessage
                },
                length: chunk.len() as u16 + 8,
                spid: 0,
                id,
                window: 0,
            };
            let mut pkt = crate::packets::encode_header(&header);
            crate::codec::write_bytes(&mut pkt, chunk.as_slice());
            let ghost prev = pkts@;
            pkts.push(pkt);
            i = i + 1;
            proof {
                assert(((first + (i - 1)) % 255 + 1) % 255 == (first + i) % 255) by (nonlinear_arith)
                    requires
                        i >= 1,
                        first >= 0,
                ;
                assert forall|j: int|
                    0 <= j < i implies (#[trigger] pkts@[j])@ == header_bytes(
                        spec_packet_header(
                            ptype,
                            chunks@[j]@.len() as int,
                            j == chunks@.len() - 1,
                            ((first + j) % 255) as u8,
                        ),
                    ) + chunks@[j]@ by {
                    if j == i - 1 {
                        assert(pkts@[j] == pkt);
                        assert(chunks@.map_values(|c: Vec<u8>| c@)[j] == chunks@[j]@);
                    } else {
                        assert(pkts@[j] == prev[j]);
                    }
                }
            }
        }
        proof {
            let m = pkts@.map_values(|p: Vec<u8>| p@);
            let ch = chunks_of(body@, old(self).packet_size - 8);
            assert(m.len() == ch.len());
            assert forall|j: int|
                0 <= j < m.len() implies #[trigger] m[j] == header_bytes(
                    spec_packet_header(
                        ptype,
                        ch[j].len() as int,
                        j == m.len() - 1,
                        ((old(self).last_packet_id + j) % 255) as u8,
                    ),
                ) + ch[j] by {
                assert(m[j] == pkts@[j]@);
                assert(ch[j] == chunks@.map_values(|c: Vec<u8>| c@)[j]);
                assert(ch[j] == chunks@[j]@);
            }
            assert(frames_message(
                m,
                body@,
                ptype,
                old(self).last_packet_id,
                old(self).packet_size,
            ));
            crate::packets::lemma_chunk_sizes(body@, old(self).packet_size - 8);
            assert forall|j: int|
                0 <= j < pkts@.len() implies 8 <= (#[trigger] pkts@[j])@.len() <= old(
                self,
            ).packet_size by {
                assert(m[j] == pkts@[j]@);
                assert(ch[j].len() <= old(self).packet_size - 8);
            }
        }
        pkts
    }

    /// The prelogin option list this library announces: version 9.0.0000, no
    /// encryption, an empty instance, thread id zero and no MARS.
    pub fn prelogin_options() -> (r: Vec<OptionTokenPair>)
        ensures
            r@.map_values(|o: OptionTokenPair| o.model()) == seq![
                OptionTokenModel::Version(0x09000000, 0),
                OptionTokenModel::Encryption(EncryptionSetting::EncryptNotSupported),
                OptionTokenModel::Instance(Seq::<char>::empty()),
                OptionTokenModel::ThreadId(0),
                OptionTokenModel::Mars(0),
            ],
            crate::prelogin::prelogin_encodable(r@),
    {
        let mut opts: Vec<OptionTokenPair> = Vec::new();
        opts.push(OptionTokenPair::Version(0x09000000, 0));
        opts.push(OptionTokenPair::Encryption(EncryptionSetting::EncryptNotSupported));
        opts.push(OptionTokenPair::Instance(String::new()));
        opts.push(OptionTokenPair::ThreadId(0));
        opts.push(OptionTokenPair::Mars(0));
        proof {
            assert(opts@.map_values(|o: OptionTokenPair| o.model()) =~= seq![
                OptionTokenModel::Version(0x09000000, 0),
                OptionTokenModel::Encryption(EncryptionSetting::EncryptNotSupported),
                OptionTokenModel::Instance(Seq::<char>::empty()),
                OptionTokenModel::ThreadId(0),
                OptionTokenModel::Mars(0),
            ]);
            lemma_default_prelogin_fits(opts@);
        }
        opts
    }

    /// Build the prelogin request packets; the state stays initial until the
    /// server's reply is consumed.
    pub fn prelogin_request(&mut self, opts: &Vec<OptionTokenPair>) -> (pkts: Vec<Vec<u8>>)
        requires
            old(self).wf(),
            old(self).state == ClientState::Initial,
            crate::prelogin::prelogin_encodable(opts@),
        ensures
            final(self).wf(),
            final(self).state == ClientState::Initial,
            frames_message(
                pkts@.map_values(|p: Vec<u8>| p@),
                crate::prelogin::prelogin_bytes(opts@),
                PacketType::PreLogin,
                old(self).last_packet_id,
                old(self).packet_size,
            ),
            final(self).last_packet_id == (old(self).last_packet_id + pkts@.len()) % 255,
            final(self).packet_size == old(self).packet_size,
            final(self).opts == old(self).opts,
    {
        let body = crate::prelogin::write_prelogin(opts);
        self.build_message(PacketType::PreLogin, body.as_slice())
    }

    /// Consume the prelogin response and move to the post-prelogin state.
    pub fn handle_prelogin_response(&mut self, payload: &[u8]) -> (res: Result<
        Vec<OptionTokenPair>,
        TdsError,
    >)
        requires
            old(self).wf(),
            old(self).state == ClientState::Initial,
        ensures
            final(self).wf(),
            res is Ok <==> crate::prelogin::spec_parse_prelogin(payload@) is Some,
            res matches Ok(opts) ==> Some(opts@.map_values(|o: OptionTokenPair| o.model()))
                == crate::prelogin::spec_parse_prelogin(payload@) && final(self).state
                == ClientState::PreloginPerformed,
            res is Err ==> *final(self) == *old(self),
            final(self).last_packet_id == old(self).last_packet_id,
            final(self).packet_size == old(self).packet_size,
            final(self).opts == old(self).opts,
    {
        match crate::prelogin::parse_prelogin(payload) {
            Ok(opts) => {
                self.state = ClientState::PreloginPerformed;
                Ok(opts)
            },
            Err(e) => Err(e),
        }
    }

    /// The LOGIN7 record this session sends: the requested protocol version,
    /// the session's credentials and database, and this library's identity.
    pub fn login_record(&self, tds_version: u32) -> (l: Login7)
        ensures
            l.tds_version == tds_version,
            l.packet_size == 0x1000,
            self.opts.auth matches AuthenticationMethod::InternalSqlServerAuth(u, p)
                ==> l.username@ == u@ && l.password@ == p@,
            l.default_db@ == self.opts.database@,
            l.app_name@ == "tds"@ && l.library_name@ == "tds"@,
            l.hostname@ == Seq::<char>::empty() && l.server_name@ == Seq::<char>::empty(),
    {
        let mut l = Login7::new(tds_version);
        l.set_auth(&self.opts.auth);
        l.set_db(self.opts.database.clone());
        l
    }

    /// Build the login request packets from a LOGIN7 record; the state stays
    /// post-prelogin until the server's reply is consumed.
    pub fn login_request(&mut self, l: &Login7) -> (res: Result<Vec<Vec<u8>>, TdsError>)
        requires
            old(self).wf(),
            old(self).state == ClientState::PreloginPerformed,
        ensures
            final(self).wf(),
            final(self).state == ClientState::PreloginPerformed,
            res is Ok <==> crate::login::login7_data_start() + crate::login::login7_payloads(
                *l,
            ).len() <= 0xFFFF,
            res matches Ok(pkts) ==> frames_message(
                pkts@.map_values(|p: Vec<u8>| p@),
                crate::login::login7_bytes(*l),
                PacketType::Login,
                old(self).last_packet_id,
                old(self).packet_size,
            ) && final(self).last_packet_id == (old(self).last_packet_id + pkts@.len()) % 255,
            res is Err ==> *final(self) == *old(self) && res matches Err(TdsError::Other(_)),
            final(self).packet_size == old(self).packet_size,
            final(self).opts == old(self).opts,
    {
        let body = match crate::login::write_login7(l) {
            Ok(b) => b,
            Err(e) => {
                return Err(e);
            },
        };
        Ok(self.build_message(PacketType::Login, body.as_slice()))
    }

    /// Consume the login response: surface any server error, then apply a
    /// packet-size change if the server announced one, and become ready.
    pub fn handle_login_response(&mut self, payload: &[u8]) -> (res: Result<
        Vec<TokenStream>,
        TdsError,
    >)
        requires
            old(self).wf(),
            old(self).state == ClientState::PreloginPerformed,
        ensures
            final(self).wf(),
            final(self).last_packet_id == old(self).last_packet_id,
            final(self).opts == old(self).opts,
            res is Err ==> final(self).state == old(self).state && final(self).packet_size == old(
                self,
            ).packet_size,
            res is Ok <==> (spec_token_models(payload@) is Some && spec_first_error_model(payload@)
                is None && spec_negotiated_packet_size(payload@, old(self).packet_size as int)
                is Some),
            res matches Ok(toks) ==> {
                &&& final(self).state == ClientState::Ready
                &&& Some(toks@.map_values(|t: TokenStream| t.model())) == spec_token_models(
                    payload@,
                )
                &&& spec_first_error_model(payload@) is None
                &&& Some(final(self).packet_size as int) == spec_negotiated_packet_size(
                    payload@,
                    old(self).packet_size as int,
                )
            },
    {
        let mut scratch = crate::stmt::StatementInfo::new();
        proof {
            assert(scratch.cols() =~= Seq::<crate::tokens::ColumnDataModel>::empty());
        }
        let toks = match crate::tokens::parse_token_stream(payload, &mut scratch, false) {
            Ok(t) => t,
            Err(e) => {
                return Err(e);
            },
        };
        proof {
            lemma_first_error_models(toks@);
        }
        match crate::tokens::catch_error(&toks) {
            Ok(x) => x,
            Err(e) => {
                return Err(e);
            },
        };
        let mut new_size: u16 = self.packet_size;
        let mut i: usize = 0;
        proof {
            assert(toks@.skip(0) =~= toks@);
        }
        while i < toks.len()
            invariant
                *self == *old(self),
                old(self).wf(),
                i <= toks@.len(),
                512 <= new_size,
                Some(toks@.map_values(|t: TokenStream| t.model())) == spec_token_models(payload@),
                spec_fold_packet_size(
                    toks@.map_values(|t: TokenStream| t.model()),
                    old(self).packet_size as int,
                ) == spec_fold_packet_size(
                    toks@.skip(i as int).map_values(|t: TokenStream| t.model()),
                    new_size as int,
                ),
            decreases toks@.len() - i,
        {
            proof {
                assert(toks@.skip(i as int)[0] == toks@[i as int]);
                assert(toks@.skip(i as int).drop_first() =~= toks@.skip(i + 1));
                assert(toks@.skip(i as int).map_values(|t: TokenStream| t.model()).drop_first()
                    =~= toks@.skip(i + 1).map_values(|t: TokenStream| t.model()));
                assert(toks@.skip(i as int).map_values(|t: TokenStream| t.model())[0]
                    == toks@[i as int].model());
            }
            match &toks[i] {
                TokenStream::EnvChange(TokenStreamEnvChange::PacketSize(new_value, _)) => {
                    match parse_packet_size(new_value.as_str()) {
                        Some(v) => {
                            new_size = v;
                        },
                        None => {
                            proof {
                                assert(spec_fold_packet_size(
                                    toks@.skip(i as int).map_values(|t: TokenStream| t.model()),
                                    new_size as int,
                                ) is None);
                                assert(spec_negotiated_packet_size(
                                    payload@,
                                    old(self).packet_size as int,
                                ) is None);
                            }
                            return Err(
                                TdsError::Other(String::from_str("cannot convert packet size")),
                            );
                        },
                    }
                },
                _ => {},
            }
            i = i + 1;
        }
        proof {
            assert(toks@.skip(toks@.len() as int) =~= Seq::<TokenStream>::empty());
            assert(toks@.skip(toks@.len() as int).map_values(|t: TokenStream| t.model())
                =~= Seq::<TokenModel>::empty());
        }
        self.packet_size = new_size;
        self.state = ClientState::Ready;
        Ok(toks)
    }

    /// Build the packets of a SQLBATCH request carrying the given SQL text.
    /// The session must be ready, and stays so.
    pub fn internal_exec(&mut self, sql: &str) -> (pkts: Vec<Vec<u8>>)
        requires
            old(self).wf(),
            old(self).state == ClientState::Ready,
        ensures
            final(self).wf(),
            final(self).state == ClientState::Ready,
            frames_message(
                pkts@.map_values(|p: Vec<u8>| p@),
                crate::rpc::sql_batch_bytes(sql@),
                PacketType::SqlBatch,
                old(self).last_packet_id,
                old(self).packet_size,
            ),
            final(self).last_packet_id == (old(self).last_packet_id + pkts@.len()) % 255,
            final(self).packet_size == old(self).packet_size,
            final(self).opts == old(self).opts,
    {
        let body = crate::rpc::write_sql_batch(sql);
        self.build_message(PacketType::SqlBatch, body.as_slice())
    }

    /// Build the packets of an RPC request. The session must be ready, and
    /// stays so.
    pub fn rpc_request(&mut self, req: &crate::rpc::RpcRequestData) -> (res: Result<
        Vec<Vec<u8>>,
        TdsError,
    >)
        requires
            old(self).wf(),
            old(self).state == ClientState::Ready,
        ensures
            final(self).wf(),
            final(self).state == ClientState::Ready,
            res is Ok <==> (match req.proc_id {
                crate::rpc::RpcProcIdValue::Name(n) => crate::utf16::utf16le_bytes(n@).len()
                    <= 131070,
                crate::rpc::RpcProcIdValue::Id(_) => true,
            } && crate::rpc::encodable_params(req.params@)),
            res matches Ok(pkts) ==> frames_message(
                pkts@.map_values(|p: Vec<u8>| p@),
                crate::rpc::rpc_request_bytes(*req),
                PacketType::Rpc,
                old(self).last_packet_id,
                old(self).packet_size,
            ) && final(self).last_packet_id == (old(self).last_packet_id + pkts@.len()) % 255,
            res is Err ==> *final(self) == *old(self) && res matches Err(TdsError::Other(_)),
            final(self).packet_size == old(self).packet_size,
            final(self).opts == old(self).opts,
    {
        let body = match crate::rpc::write_rpc_request(req) {
            Ok(b) => b,
            Err(e) => {
                return Err(e);
            },
        };
        Ok(self.build_message(PacketType::Rpc, body.as_slice()))
    }
}

/// The library's own prelogin option list is small enough to serialize: its
/// five payloads total a handful of bytes.
proof fn lemma_default_prelogin_fits(opts: Seq<OptionTokenPair>)
    requires
        opts.len() == 5,
        opts[0] is Version,
        opts[1] is Encryption,
        opts[2] matches OptionTokenPair::Instance(s) && s@.len() == 0,
        opts[3] is ThreadId,
        opts[4] is Mars,
    ensures
        crate::prelogin::prelogin_encodable(opts),
{
    assert(vstd::utf8::encode_utf8(Seq::<char>::empty()).len() == 0);
    assert(opts[0].payload_bytes().len() == 6);
    assert(opts[1].payload_bytes().len() == 1);
    assert(opts[2].payload_bytes().len() == 1);
    assert(opts[3].payload_bytes().len() == 4);
    assert(opts[4].payload_bytes().len() == 1);
    let s1 = opts.drop_first();
    let s2 = s1.drop_first();
    let s3 = s2.drop_first();
    let s4 = s3.drop_first();
    let s5 = s4.drop_first();
    assert(s5 =~= Seq::<OptionTokenPair>::empty());
    assert(s1[0] == opts[1] && s2[0] == opts[2] && s3[0] == opts[3] && s4[0] == opts[4]);
    assert(crate::prelogin::prelogin_payloads(s5).len() == 0);
    assert(crate::prelogin::prelogin_payloads(s4).len() == 1);
    assert(crate::prelogin::prelogin_payloads(s3).len() == 5);
    assert(crate::prelogin::prelogin_payloads(s2).len() == 6);
    assert(crate::prelogin::prelogin_payloads(s1).len() == 7);
    assert(crate::prelogin::prelogin_payloads(opts).len() == 13);
    assert forall|i: int| 0 <= i < opts.len() implies (#[trigger] opts[i]).wf() by {
        if i == 2 {
            assert(opts[2].wf());
        }
    }
}

/// The value of a decimal digit string, or `None` where a character is not a
/// digit or the string is empty.
pub open spec fn spec_parse_decimal_chars(s: Seq<char>) -> Option<int>
    decreases s.len(),
{
    if s.len() == 0 {
        None
    } else if !('0' <= s.last() && s.last() <= '9') {
        None
    } else if s.len() == 1 {
        Some(s.last() as int - '0' as int)
    } else {
        match spec_parse_decimal_chars(s.drop_last()) {
            None => None,
            Some(v) => Some(v * 10 + (s.last() as int - '0' as int)),
        }
    }
}

/// Parse a packet-size announcement: a decimal string naming a size in the
/// protocol's range (512 to 65535).
pub fn parse_packet_size(s: &str) -> (r: Option<u16>)
    ensures
        r matches Some(v) ==> Some(v as int) == spec_parse_decimal_chars(s@) && v >= 512,
        r is None ==> match spec_parse_decimal_chars(s@) {
            None => true,
            Some(v) => v < 512 || v > 0xFFFF,
        },
{
    let n = s.unicode_len();
    if n == 0 {
        return None;
    }
    let mut value: u32 = 0;
    let mut i: usize = 0;
    while i < n
        invariant
            n == s@.len(),
            0 < n,
            i <= n,
            i == 0 ==> value == 0,
            i > 0 ==> Some(value as int) == spec_parse_decimal_chars(s@.take(i as int)),
            value <= 0xFFFF,
        decreases n - i,
    {
        let c = s.get_char(i);
        if !('0' <= c && c <= '9') {
            proof {
                lemma_decimal_chars_prefix_bad(s@, i as int);
            }
            return None;
        }
        let d: u32 = (c as u32) - 0x30;
        let next: u64 = value as u64 * 10 + d as u64;
        if next > 0xFFFF {
            proof {
                assert(s@.take(i + 1).last() == s@[i as int]);
                assert(s@.take(i + 1).drop_last() =~= s@.take(i as int));
                lemma_decimal_chars_grow(s@, i + 1);
            }
            return None;
        }
        value = next as u32;
        i = i + 1;
        proof {
            assert(s@.take(i as int).last() == s@[i - 1]);
            assert(s@.take(i as int).drop_last() =~= s@.take(i as int - 1));
        }
    }
    proof {
        assert(s@.take(n as int) =~= s@);
    }
    if value < 512 {
        return None;
    }
    Some(value as u16)
}

/// A digit string with a bad character at `i` has no value.
proof fn lemma_decimal_chars_prefix_bad(s: Seq<char>, i: int)
    requires
        0 <= i < s.len(),
        !('0' <= s[i] && s[i] <= '9'),
    ensures
        spec_parse_decimal_chars(s) is None,
    decreases s.len(),
{
    if s.len() > 0 {
        if i == s.len() - 1 {
        } else {
            lemma_decimal_chars_prefix_bad(s.drop_last(), i);
        }
    }
}

/// Once a prefix's value leaves the 16-bit range, every extension's value
/// does too.
proof fn lemma_decimal_chars_grow(s: Seq<char>, i: int)
    requires
        1 <= i <= s.len(),
        match spec_parse_decimal_chars(s.take(i)) {
            Some(v) => v > 0xFFFF,
            None => true,
        },
    ensures
        match spec_parse_decimal_chars(s) {
            Some(v) => v > 0xFFFF,
            None => true,
        },
    decreases s.len() - i,
{
    if i == s.len() {
        assert(s.take(i) =~= s);
    } else {
        assert(s.take(i + 1).drop_last() =~= s.take(i));
        assert(s.take(i + 1).last() == s[i]);
        lemma_decimal_chars_grow(s, i + 1);
    }
}

/// What the token models of a payload are, where it parses outside a
/// statement.
pub open spec fn spec_token_models(payload: Seq<u8>) -> Option<Seq<TokenModel>> {
    match crate::tokens::spec_parse_tokens(payload, 0, Seq::empty(), false) {
        None => None,
        Some((toks, _)) => Some(toks),
    }
}

/// The first error model in a payload's tokens, where it parses.
pub open spec fn spec_first_error_model(payload: Seq<u8>) -> Option<ErrorModel> {
    match spec_token_models(payload) {
        None => None,
        Some(toks) => spec_first_error_of_models(toks),
    }
}

/// The first error among token models.
pub open spec fn spec_first_error_of_models(toks: Seq<TokenModel>) -> Option<ErrorModel>
    decreases toks.len(),
{
    if toks.len() == 0 {
        None
    } else {
        match toks[0] {
            TokenModel::Error(e) => Some(e),
            _ => spec_first_error_of_models(toks.drop_first()),
        }
    }
}

/// The packet size left after folding a token sequence's announcements over
/// an initial size: the last parsable announcement wins, and an announcement
/// that does not parse to an in-range size poisons the fold.
pub open spec fn spec_fold_packet_size(toks: Seq<TokenModel>, size: int) -> Option<int>
    decreases toks.len(),
{
    if toks.len() == 0 {
        Some(size)
    } else {
        match toks[0] {
            TokenModel::EnvChange(EnvChangeModel::PacketSize(new_value, _)) => {
                match spec_parse_decimal_chars(new_value) {
                    Some(v) => {
                        if 512 <= v <= 0xFFFF {
                            spec_fold_packet_size(toks.drop_first(), v)
                        } else {
                            None
                        }
                    },
                    None => None,
                }
            },
            _ => spec_fold_packet_size(toks.drop_first(), size),
        }
    }
}

/// The packet size a login response leaves in force.
pub open spec fn spec_negotiated_packet_size(payload: Seq<u8>, initial: int) -> Option<int> {
    match spec_token_models(payload) {
        None => None,
        Some(toks) => spec_fold_packet_size(toks, initial),
    }
}

/// A stream holds no error token exactly when its models hold none.
proof fn lemma_first_error_models(toks: Seq<TokenStream>)
    ensures
        (crate::tokens::spec_first_error(toks) is None) == (spec_first_error_of_models(
            toks.map_values(|t: TokenStream| t.model()),
        ) is None),
    decreases toks.len(),
{
    if toks.len() > 0 {
        lemma_first_error_models(toks.drop_first());
        assert(toks.map_values(|t: TokenStream| t.model()).drop_first() =~= toks.drop_first()
            .map_values(|t: TokenStream| t.model()));
        assert(toks.map_values(|t: TokenStream| t.model())[0] == toks[0].model());
    } else {
        assert(toks.map_values(|t: TokenStream| t.model()) =~= Seq::<TokenModel>::empty());
    }
}

} // verus!
