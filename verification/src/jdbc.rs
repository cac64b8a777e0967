//! A parser for JDBC-style SQL-server connection strings
//! (`jdbc:sqlserver://host\instance:port;key=value`). The string is first
//! tokenized — brace pairs escape arbitrary ASCII — and the sub-protocol
//! prefix is validated.
use vstd::prelude::*;

use crate::TdsError;

verus! {

/// One lexical token of a connection string.
#[derive(Debug, Clone, PartialEq, Eq)]
pub enum TokenKind {
    Colon,
    Eq,
    BSlash,
    FSlash,
    Semi,
    /// The text inside a `{}` pair.
    Escaped(String),
    /// One plain alphanumeric character.
    Atom(char),
}

/// The model of a lexical token.
pub enum JdbcTokenModel {
    Colon,
    Eq,
    BSlash,
    FSlash,
    Semi,
    Escaped(Seq<char>),
    Atom(char),
}

impl TokenKind {
    /// The model of this token.
    pub open spec fn model(self) -> JdbcTokenModel {
        match self {
            TokenKind::Colon => JdbcTokenModel::Colon,
            TokenKind::Eq => JdbcTokenModel::Eq,
            TokenKind::BSlash => JdbcTokenModel::BSlash,
            TokenKind::FSlash => JdbcTokenModel::FSlash,
            TokenKind::Semi => JdbcTokenModel::Semi,
            TokenKind::Escaped(s) => JdbcTokenModel::Escaped(s@),
            TokenKind::Atom(c) => JdbcTokenModel::Atom(c),
        }
    }
}

/// ASCII whitespace, as the tokenizer skips it.
pub open spec fn is_ws(c: char) -> bool {
    c == ' ' || c == '\t' || c == '\n' || (c as u32) == 0x0C || c == '\r'
}

/// An ASCII letter or digit.
pub open spec fn is_alnum(c: char) -> bool {
    ('0' <= c && c <= '9') || ('a' <= c && c <= 'z') || ('A' <= c && c <= 'Z')
}

/// An ASCII character.
pub open spec fn is_ascii_c(c: char) -> bool {
    (c as u32) < 0x80
}

/// Scan an escape body from `j` to its closing brace: the escaped characters
/// and the position after the brace, or `None` on a non-ASCII character or a
/// missing brace.
pub open spec fn spec_escape(s: Seq<char>, j: int) -> Option<(Seq<char>, int)>
    decreases s.len() - j,
{
    if j < 0 || j >= s.len() {
        None
    } else if s[j] == '}' {
        Some((Seq::empty(), j + 1))
    } else if is_ascii_c(s[j]) {
        match spec_escape(s, j + 1) {
            None => None,
            Some((cs, k)) => Some((seq![s[j]] + cs, k)),
        }
    } else {
        None
    }
}

/// Tokenize from position `i`: the tokens, or `None` on a character outside
/// the grammar.
pub open spec fn spec_jdbc_tokenize(s: Seq<char>, i: int) -> Option<Seq<JdbcTokenModel>>
    decreases s.len() - i,
{
    if i < 0 || i >= s.len() {
        Some(Seq::empty())
    } else {
        let c = s[i];
        if is_ws(c) {
            spec_jdbc_tokenize(s, i + 1)
        } else if c == ':' || c == '=' || c == '\\' || c == '/' || c == ';' {
            let t = if c == ':' {
                JdbcTokenModel::Colon
            } else if c == '=' {
                JdbcTokenModel::Eq
            } else if c == '\\' {
                JdbcTokenModel::BSlash
            } else if c == '/' {
                JdbcTokenModel::FSlash
            } else {
                JdbcTokenModel::Semi
            };
            match spec_jdbc_tokenize(s, i + 1) {
                None => None,
                Some(rest) => Some(seq![t] + rest),
            }
        } else if c == '{' {
            match spec_escape(s, i + 1) {
                None => None,
                Some((cs, k)) => {
                    if k <= i || k > s.len() {
                        None
                    } else {
                        match spec_jdbc_tokenize(s, k) {
                            None => None,
                            Some(rest) => Some(seq![JdbcTokenModel::Escaped(cs)] + rest),
                        }
                    }
                },
            }
        } else if is_alnum(c) {
            match spec_jdbc_tokenize(s, i + 1) {
                None => None,
                Some(rest) => Some(seq![JdbcTokenModel::Atom(c)] + rest),
            }
        } else {
            None
        }
    }
}

/// The tokenizer over a connection string.
#[derive(Debug, Clone, PartialEq, Eq)]
pub struct Lexer {
    /// The recognized tokens, in order.
    pub tokens: Vec<TokenKind>,
}

impl Lexer {
    /// Tokenize a connection string; an out-of-grammar character or an
    /// unclosed escape is a conversion error.
    pub fn tokenize(input: &str) -> (res: Result<Lexer, TdsError>)
        ensures
            res is Ok <==> spec_jdbc_tokenize(input@, 0) is Some,
            res matches Ok(lx) ==> Some(lx.tokens@.map_values(|t: TokenKind| t.model()))
                == spec_jdbc_tokenize(input@, 0),
            res is Err ==> res matches Err(TdsError::Conversion(_)),
    {
        let n = input.unicode_len();
        let mut out: Vec<TokenKind> = Vec::new();
        let mut i: usize = 0;
        proof {
            assert(out@.map_values(|t: TokenKind| t.model()) =~= Seq::<JdbcTokenModel>::empty());
        }
        loop
            invariant
                i <= n,
                n == input@.len(),
                spec_jdbc_tokenize(input@, 0) matches Some(all) ==> (spec_jdbc_tokenize(
                    input@,
                    i as int,
                ) matches Some(rest) && all == out@.map_values(|t: TokenKind| t.model()) + rest),
                spec_jdbc_tokenize(input@, 0) is Some <==> spec_jdbc_tokenize(input@, i as int)
                    is Some,
            decreases n - i,
        {
            if i >= n {
                proof {
                    if let Some(all) = spec_jdbc_tokenize(input@, 0) {
                        assert(all =~= out@.map_values(|t: TokenKind| t.model()));
                    }
                }
                return Ok(Lexer { tokens: out });
            }
            let c = input.get_char(i);
            let ghost prev = out@;
            if c == ' ' || c == '\t' || c == '\n' || c == (0x0Cu8 as char) || c == '\r' {
                i = i + 1;
            } else if c == ':' {
                out.push(TokenKind::Colon);
                i = i + 1;
                proof {
                    lemma_tok_step(prev, out@, TokenKind::Colon);
                }
            } else if c == '=' {
                out.push(TokenKind::Eq);
                i = i + 1;
                proof {
                    lemma_tok_step(prev, out@, TokenKind::Eq);
                }
            } else if c == '\\' {
                out.push(TokenKind::BSlash);
                i = i + 1;
                proof {
                    lemma_tok_step(prev, out@, TokenKind::BSlash);
                }
            } else if c == '/' {
                out.push(TokenKind::FSlash);
                i = i + 1;
                proof {
                    lemma_tok_step(prev, out@, TokenKind::FSlash);
                }
            } else if c == ';' {
                out.push(TokenKind::Semi);
                i = i + 1;
                proof {
                    lemma_tok_step(prev, out@, TokenKind::Semi);
                }
            } else if c == '{' {
                let mut buf = String::new();
                let mut j: usize = i + 1;
                proof {
                    if let Some((all, k)) = spec_escape(input@, i + 1) {
                        assert(all =~= buf@ + all);
                    }
                }
                while j < n && input.get_char(j) != '}'
                    invariant
                        i < j <= n,
                        i < n,
                        n == input@.len(),
                        input@[i as int] == '{',
                        out@ == prev,
                        spec_jdbc_tokenize(input@, 0) matches Some(all0) ==> (spec_jdbc_tokenize(
                            input@,
                            i as int,
                        ) matches Some(rest0) && all0 == out@.map_values(|t: TokenKind| t.model())
                            + rest0),
                        spec_jdbc_tokenize(input@, 0) is Some <==> spec_jdbc_tokenize(
                            input@,
                            i as int,
                        ) is Some,
                        spec_escape(input@, i + 1) matches Some((all, k)) ==> (spec_escape(
                            input@,
                            j as int,
                        ) matches Some((rest, k2)) && all == buf@ + rest && k == k2),
                        spec_escape(input@, i + 1) is Some <==> spec_escape(input@, j as int)
                            is Some,
                    decreases n - j,
                {
                    let e = input.get_char(j);
                    if (e as u32) >= 0x80 {
                        proof {
                            assert(spec_escape(input@, j as int) is None);
                            assert(spec_jdbc_tokenize(input@, i as int) is None);
                        }
                        return Err(TdsError::Conversion(String::from_str("invalid JDBC token")));
                    }
                    let ghost bufp = buf@;
                    crate::utf16::push_char(&mut buf, e);
                    j = j + 1;
                    proof {
                        if let Some((all, k)) = spec_escape(input@, i + 1) {
                            if let Some((rest2, k2)) = spec_escape(input@, j as int) {
                                assert(all =~= buf@ + rest2);
                            }
                        }
                    }
                }
                if j >= n {
                    proof {
                        assert(spec_escape(input@, j as int) is None);
                        assert(spec_jdbc_tokenize(input@, i as int) is None);
                    }
                    return Err(TdsError::Conversion(String::from_str("unclosed escape literal")));
                }
                proof {
                    assert(input@[j as int] == '}');
                    assert(spec_escape(input@, j as int) == Some((Seq::<char>::empty(), j + 1)));
                    if let Some((all, k)) = spec_escape(input@, i + 1) {
                        assert(all =~= buf@);
                    }
                }
                out.push(TokenKind::Escaped(buf));
                let ghost i0 = i as int;
                i = j + 1;
                proof {
                    lemma_tok_step(prev, out@, out@.last());
                    if let Some(all0) = spec_jdbc_tokenize(input@, 0) {
                        if let Some(rest2) = spec_jdbc_tokenize(input@, i as int) {
                            assert(all0 =~= out@.map_values(|t: TokenKind| t.model()) + rest2);
                        }
                    }
                }
            } else if ('0' <= c && c <= '9') || ('a' <= c && c <= 'z') || ('A' <= c && c <= 'Z') {
                out.push(TokenKind::Atom(c));
                i = i + 1;
                proof {
                    lemma_tok_step(prev, out@, TokenKind::Atom(c));
                }
            } else {
                return Err(TdsError::Conversion(String::from_str("invalid JDBC token")));
            }
            proof {
                if let Some(all0) = spec_jdbc_tokenize(input@, 0) {
                    if let Some(rest2) = spec_jdbc_tokenize(input@, i as int) {
                        assert(all0 =~= out@.map_values(|t: TokenKind| t.model()) + rest2);
                    }
                }
            }
        }
    }
}

/// One plain-token step of the tokenizer's accumulation.
proof fn lemma_tok_step(prev: Seq<TokenKind>, cur: Seq<TokenKind>, t: TokenKind)
    requires
        cur == prev.push(t),
    ensures
        cur.map_values(|x: TokenKind| x.model()) == prev.map_values(|x: TokenKind| x.model()).push(
            t.model(),
        ),
{
    assert(cur.map_values(|x: TokenKind| x.model()) =~= prev.map_values(
        |x: TokenKind| x.model(),
    ).push(t.model()));
}

/// Whether a string opens with the JDBC SQL-server sub-protocol prefix.
pub open spec fn spec_has_jdbc_prefix(s: Seq<char>) -> bool {
    s.len() >= 17 && s.subrange(0, 17) == "jdbc:sqlserver://"@
}

/// A parsed JDBC connection string.
#[derive(Debug, Clone, PartialEq, Eq)]
pub struct JdbcConnectionString {
    /// The server host, where given.
    pub server_name: Option<String>,
    /// The named instance, where given.
    pub instance_name: Option<String>,
    /// The port, where given.
    pub port: Option<u16>,
    /// The trailing `key=value` properties.
    pub properties: Vec<(String, String)>,
}

impl JdbcConnectionString {
    /// The connection sub-protocol this parser accepts.
    pub fn sub_protocol(&self) -> (r: &'static str)
        ensures
            r@ == "jdbc:sqlserver"@,
    {
        "jdbc:sqlserver"
    }

    /// The server name, where the string gave one.
    pub fn server_name(&self) -> (r: &Option<String>)
        ensures
            r == &self.server_name,
    {
        &self.server_name
    }

    /// The instance name, where the string gave one.
    pub fn instance_name(&self) -> (r: &Option<String>)
        ensures
            r == &self.instance_name,
    {
        &self.instance_name
    }

    /// The port, where the string gave one.
    pub fn port(&self) -> (r: Option<u16>)
        ensures
            r == self.port,
    {
        self.port
    }

    /// The key-value properties.
    pub fn properties(&self) -> (r: &Vec<(String, String)>)
        ensures
            r == &self.properties,
    {
        &self.properties
    }

    /// Parse a connection string: it must tokenize, and it must open with
    /// the `jdbc:sqlserver://` prefix.
    pub fn from_str(input: &str) -> (res: Result<JdbcConnectionString, TdsError>)
        ensures
            res is Ok <==> spec_jdbc_tokenize(input@, 0) is Some && spec_has_jdbc_prefix(input@),
            res matches Ok(c) ==> c.server_name is None && c.instance_name is None && c.port
                is None && c.properties@.len() == 0,
            res is Err ==> res matches Err(TdsError::Conversion(_)),
    {
        let _lexer = match Lexer::tokenize(input) {
            Ok(lx) => lx,
            Err(e) => {
                return Err(e);
            },
        };
        if input.unicode_len() < 17 {
            return Err(TdsError::Conversion(String::from_str("Invalid JDBC sub-protocol")));
        }
        let prefix = input.substring_char(0, 17);
        if !crate::stmt::str_eq(prefix, "jdbc:sqlserver://") {
            return Err(TdsError::Conversion(String::from_str("Invalid JDBC sub-protocol")));
        }
        Ok(
            JdbcConnectionString {
                server_name: None,
                instance_name: None,
                port: None,
                properties: Vec::new(),
            },
        )
    }
}

} // verus!
