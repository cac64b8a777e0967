//! The statement surface: the per-statement column cache, result rows with
//! name-based lookup, and the prepared-statement request builders.
use vstd::prelude::*;

use crate::tokens::{ColumnData, ColumnDataModel, TokenStream};
use crate::types::{ColumnValue, ColumnValueModel};
use crate::{TdsError, TokenStreamError};

verus! {

/// Per-statement scratchpad: the columns of the most recent metadata token
/// and, for prepared statements, the server-assigned handle.
#[derive(Debug)]
pub struct StatementInfo {
    /// The current result set's columns.
    pub column_infos: Vec<ColumnData>,
    /// The handle from `sp_prepare`, once known.
    pub handle: Option<u32>,
}

impl StatementInfo {
    /// The models of the cached columns.
    pub open spec fn cols(&self) -> Seq<ColumnDataModel> {
        self.column_infos@.map_values(|c: ColumnData| c.model())
    }

    /// An empty scratchpad.
    pub fn new() -> (r: StatementInfo)
        ensures
            r.column_infos@.len() == 0,
            r.handle is None,
    {
        StatementInfo { column_infos: Vec::new(), handle: None }
    }
}


/// Whether two string slices hold the same characters.
pub fn str_eq(a: &str, b: &str) -> (r: bool)
    ensures
        r == (a@ == b@),
{
    let n = a.unicode_len();
    let m = b.unicode_len();
    if n != m {
        return false;
    }
    let mut i: usize = 0;
    while i < n
        invariant
            n == a@.len(),
            n == b@.len(),
            i <= n,
            forall|j: int| 0 <= j < i ==> a@[j] == b@[j],
        decreases n - i,
    {
        if a.get_char(i) != b.get_char(i) {
            return false;
        }
        i = i + 1;
    }
    proof {
        assert(a@ =~= b@);
    }
    true
}

/// One result row: the decoded value of each column.
#[derive(Debug, Clone, PartialEq, Eq)]
pub struct Row {
    /// The row's values, one per column of the result set.
    pub values: Vec<ColumnValue>,
}

impl Row {
    /// The value at a column position.
    pub fn get(&self, idx: usize) -> (r: &ColumnValue)
        requires
            idx < self.values@.len(),
        ensures
            *r == self.values@[idx as int],
    {
        &self.values[idx]
    }

    /// The number of values in the row.
    pub fn len(&self) -> (r: usize)
        ensures
            r == self.values@.len(),
    {
        self.values.len()
    }
}

/// The first position whose name matches, if any.
pub open spec fn spec_name_index(names: Seq<Seq<char>>, name: Seq<char>) -> Option<int>
    decreases names.len(),
{
    if names.len() == 0 {
        None
    } else if names[0] == name {
        Some(0)
    } else {
        match spec_name_index(names.drop_first(), name) {
            Some(i) => Some(i + 1),
            None => None,
        }
    }
}

/// Shift a found position by an offset.
pub open spec fn spec_shift_index(o: Option<int>, k: int) -> Option<int> {
    match o {
        Some(v) => Some(v + k),
        None => None,
    }
}

/// A query's result set: its rows, and the column names for lookup by name.
#[derive(Debug, Clone, PartialEq, Eq)]
pub struct QueryResult {
    /// The result rows, in arrival order.
    pub rows: Vec<Row>,
    /// The column names of the result set.
    pub col_names: Vec<String>,
}

impl QueryResult {
    /// The number of rows.
    pub fn len(&self) -> (r: usize)
        ensures
            r == self.rows@.len(),
    {
        self.rows.len()
    }

    /// The row at an index.
    pub fn get(&self, idx: usize) -> (r: &Row)
        requires
            idx < self.rows@.len(),
        ensures
            *r == self.rows@[idx as int],
    {
        &self.rows[idx]
    }

    /// The position of a column name, if the result set has it.
    pub fn get_index(&self, name: &str) -> (r: Option<usize>)
        ensures
            match r {
                Some(i) => Some(i as int) == spec_name_index(
                    self.col_names@.map_values(|n: String| n@),
                    name@,
                ),
                None => spec_name_index(self.col_names@.map_values(|n: String| n@), name@)
                    is None,
            },
    {
        let ghost names = self.col_names@.map_values(|n: String| n@);
        let mut i: usize = 0;
        proof {
            assert(names.skip(0) =~~= names);
            assert(spec_name_index(names.skip(0), name@) == spec_name_index(names, name@));
        }
        while i < self.col_names.len()
            invariant
                names == self.col_names@.map_values(|n: String| n@),
                i <= names.len(),
                spec_name_index(names, name@) == spec_shift_index(
                    spec_name_index(names.skip(i as int), name@),
                    i as int,
                ),
            decreases names.len() - i,
        {
            proof {
                assert(names.skip(i as int)[0] == names[i as int]);
                assert(names.skip(i as int).drop_first() =~~= names.skip(i + 1));
                assert(spec_name_index(names.skip(i as int).drop_first(), name@)
                    == spec_name_index(names.skip(i + 1), name@));
                assert(self.col_names@[i as int]@ == names[i as int]);
            }
            if str_eq(self.col_names[i].as_str(), name) {
                proof {
                    assert(spec_name_index(names.skip(i as int), name@) == Some(0int));
                }
                return Some(i);
            }
            i = i + 1;
        }
        proof {
            assert(names.skip(names.len() as int) =~~= Seq::<Seq<char>>::empty());
        }
        None
    }
}

/// The value rows among a token stream's models, in order.
pub open spec fn spec_rows_of(toks: Seq<crate::tokens::TokenModel>) -> Seq<Seq<ColumnValueModel>>
    decreases toks.len(),
{
    if toks.len() == 0 {
        Seq::empty()
    } else {
        match toks[0] {
            crate::tokens::TokenModel::Row(vals) => seq![vals] + spec_rows_of(toks.drop_first()),
            _ => spec_rows_of(toks.drop_first()),
        }
    }
}

/// Collect a response's rows into a result set, or surface its first server
/// error. The result's column names are those of the statement's cache.
pub fn handle_query_packet(tokens: Vec<TokenStream>, stmt: &StatementInfo) -> (res: Result<
    QueryResult,
    TdsError,
>)
    ensures
        res is Ok <==> crate::tokens::spec_first_error(tokens@) is None,
        res matches Ok(qr) ==> {
            &&& qr.rows@.map_values(|r: Row| r.values@.map_values(|v: ColumnValue| v.model()))
                == spec_rows_of(tokens@.map_values(|t: TokenStream| t.model()))
            &&& qr.col_names@.map_values(|n: String| n@) == stmt.cols().map_values(
                |c: crate::tokens::ColumnDataModel| c.col_name,
            )
        },
        res matches Err(e) ==> Some(e) == match crate::tokens::spec_first_error(tokens@) {
            Some(se) => Some(TdsError::ServerError(se)),
            None => None,
        },
{
    match crate::tokens::catch_error(&tokens) {
        Ok(x) => x,
        Err(e) => {
            return Err(e);
        },
    };
    let mut rows: Vec<Row> = Vec::new();
    let ghost models = tokens@.map_values(|t: TokenStream| t.model());
    proof {
        assert(models.skip(0) =~= models);
        assert(rows@.map_values(|r: Row| r.values@.map_values(|v: ColumnValue| v.model()))
            =~~= Seq::<Seq<ColumnValueModel>>::empty());
    }
    let consumed = tokens;
    let mut j: usize = 0;
    while j < consumed.len()
        invariant
            consumed@.map_values(|t: TokenStream| t.model()) == models,
            j <= consumed@.len(),
            rows@.map_values(|r: Row| r.values@.map_values(|v: ColumnValue| v.model()))
                + spec_rows_of(models.skip(j as int)) =~~= spec_rows_of(models),
        decreases consumed@.len() - j,
    {
        proof {
            assert(models.skip(j as int)[0] == models[j as int]);
            assert(models[j as int] == consumed@[j as int].model());
            assert(models.skip(j as int).drop_first() =~= models.skip(j + 1));
        }
        let ghost prev_rows = rows@;
        match &consumed[j] {
            TokenStream::Row(r) => {
                let row = Row { values: clone_values(&r.data) };
                rows.push(row);
                proof {
                    assert(rows@.map_values(
                        |r2: Row| r2.values@.map_values(|v: ColumnValue| v.model()),
                    ) =~~= prev_rows.map_values(
                        |r2: Row| r2.values@.map_values(|v: ColumnValue| v.model()),
                    ).push(row.values@.map_values(|v: ColumnValue| v.model())));
                }
            },
            _ => {},
        }
        j = j + 1;
        proof {
            assert(rows@.map_values(|r2: Row| r2.values@.map_values(|v: ColumnValue| v.model()))
                + spec_rows_of(models.skip(j as int)) =~~= spec_rows_of(models));
        }
    }
    proof {
        assert(models.skip(models.len() as int) =~= Seq::<crate::tokens::TokenModel>::empty());
        assert(rows@.map_values(|r2: Row| r2.values@.map_values(|v: ColumnValue| v.model()))
            =~~= spec_rows_of(models));
    }
    let mut col_names: Vec<String> = Vec::new();
    let mut k: usize = 0;
    proof {
        assert(col_names@.map_values(|nm: String| nm@) =~= stmt.cols().map_values(
            |c: crate::tokens::ColumnDataModel| c.col_name,
        ).take(0));
    }
    while k < stmt.column_infos.len()
        invariant
            k <= stmt.column_infos@.len(),
            col_names@.map_values(|nm: String| nm@) == stmt.cols().map_values(
                |c: crate::tokens::ColumnDataModel| c.col_name,
            ).take(k as int),
        decreases stmt.column_infos@.len() - k,
    {
        let ghost prev = col_names@;
        let name = match &stmt.column_infos[k].col_name {
            Some(nm) => nm.clone(),
            None => String::new(),
        };
        proof {
            assert(stmt.cols()[k as int] == stmt.column_infos@[k as int].model());
            assert(name@ == stmt.cols()[k as int].col_name);
        }
        col_names.push(name);
        k = k + 1;
        proof {
            assert(col_names@ == prev.push(name));
            let m1 = col_names@.map_values(|nm: String| nm@);
            let m2 = stmt.cols().map_values(|c: crate::tokens::ColumnDataModel| c.col_name).take(
                k as int,
            );
            assert(prev.map_values(|nm: String| nm@).len() == prev.len());
            assert(stmt.cols().map_values(|c: crate::tokens::ColumnDataModel| c.col_name).take(
                k - 1,
            ).len() == k - 1);
            assert(col_names@.len() == k);
            assert(m1.len() == k);
            assert(stmt.cols().len() == stmt.column_infos@.len());
            assert(m2.len() == k);
            assert forall|j: int| 0 <= j < k implies m1[j] == m2[j] by {
                assert(m1[j] == col_names@[j]@);
                assert(m2[j] == stmt.cols()[j].col_name);
                if j < k - 1 {
                    assert(col_names@[j] == prev[j]);
                    assert(prev.map_values(|nm: String| nm@)[j] == prev[j]@);
                } else {
                    assert(col_names@[j] == name);
                }
            }
            assert(m1 =~= m2);
        }
    }
    proof {
        assert(stmt.cols().map_values(|c: crate::tokens::ColumnDataModel| c.col_name).take(
            stmt.cols().len() as int,
        ) =~~= stmt.cols().map_values(|c: crate::tokens::ColumnDataModel| c.col_name));
    }
    Ok(QueryResult { rows, col_names })
}

/// Copy a byte buffer, byte for byte.
fn clone_bytes(v: &Vec<u8>) -> (r: Vec<u8>)
    ensures
        r@ == v@,
{
    vstd::slice::slice_to_vec(v.as_slice())
}

/// Copy one column value, preserving its model.
fn clone_column_value(v: &ColumnValue) -> (r: ColumnValue)
    ensures
        r.model() == v.model(),
{
    match v {
        ColumnValue::Null => ColumnValue::Null,
        ColumnValue::Value(ct) => ColumnValue::Value(
            match ct {
                crate::types::ColumnType::Bool(x) => crate::types::ColumnType::Bool(*x),
                crate::types::ColumnType::I8(x) => crate::types::ColumnType::I8(*x),
                crate::types::ColumnType::I16(x) => crate::types::ColumnType::I16(*x),
                crate::types::ColumnType::I32(x) => crate::types::ColumnType::I32(*x),
                crate::types::ColumnType::I64(x) => crate::types::ColumnType::I64(*x),
                crate::types::ColumnType::F32(x) => crate::types::ColumnType::F32(*x),
                crate::types::ColumnType::F64(x) => crate::types::ColumnType::F64(*x),
                crate::types::ColumnType::Money4(x) => crate::types::ColumnType::Money4(*x),
                crate::types::ColumnType::Money8(x) => crate::types::ColumnType::Money8(*x),
                crate::types::ColumnType::Decimal(d) => crate::types::ColumnType::Decimal(*d),
                crate::types::ColumnType::String(st) => crate::types::ColumnType::String(
                    st.clone(),
                ),
                crate::types::ColumnType::Guid(g) => crate::types::ColumnType::Guid(
                    crate::types::Guid { bytes: clone_bytes(&g.bytes) },
                ),
                crate::types::ColumnType::Datetime(dt) => crate::types::ColumnType::Datetime(*dt),
                crate::types::ColumnType::Binary(bts) => crate::types::ColumnType::Binary(
                    clone_bytes(bts),
                ),
            },
        ),
    }
}

/// Copy a row's values, preserving each value's model.
fn clone_values(v: &Vec<ColumnValue>) -> (r: Vec<ColumnValue>)
    ensures
        r@.map_values(|x: ColumnValue| x.model()) == v@.map_values(|x: ColumnValue| x.model()),
        r@.len() == v@.len(),
{
    let mut out: Vec<ColumnValue> = Vec::new();
    let mut i: usize = 0;
    proof {
        assert(out@.map_values(|x: ColumnValue| x.model()) =~= v@.map_values(
            |x: ColumnValue| x.model(),
        ).take(0));
    }
    while i < v.len()
        invariant
            i <= v@.len(),
            out@.len() == i,
            out@.map_values(|x: ColumnValue| x.model()) == v@.map_values(
                |x: ColumnValue| x.model(),
            ).take(i as int),
        decreases v@.len() - i,
    {
        let c = clone_column_value(&v[i]);
        let ghost prev = out@;
        out.push(c);
        i = i + 1;
        proof {
            assert(out@.map_values(|x: ColumnValue| x.model()) =~= v@.map_values(
                |x: ColumnValue| x.model(),
            ).take(i as int));
        }
    }
    proof {
        assert(v@.map_values(|x: ColumnValue| x.model()).take(v@.len() as int) =~= v@.map_values(
            |x: ColumnValue| x.model(),
        ));
    }
    out
}

/// What an exec response decides: the first server error, or the row count
/// of the first completion marker carrying one, or nothing.
pub open spec fn spec_exec_outcome(toks: Seq<TokenStream>) -> Option<Result<u64, TokenStreamError>>
    decreases toks.len(),
{
    if toks.len() == 0 {
        None
    } else {
        match toks[0] {
            TokenStream::Error(e) => Some(Err(e)),
            TokenStream::Done(d) => {
                if d.status & 0x10 != 0 {
                    Some(Ok(d.done_row_count))
                } else {
                    spec_exec_outcome(toks.drop_first())
                }
            },
            TokenStream::DoneProc(d) => {
                if d.status & 0x10 != 0 {
                    Some(Ok(d.done_row_count))
                } else {
                    spec_exec_outcome(toks.drop_first())
                }
            },
            TokenStream::DoneInProc(d) => {
                if d.status & 0x10 != 0 {
                    Some(Ok(d.done_row_count))
                } else {
                    spec_exec_outcome(toks.drop_first())
                }
            },
            _ => spec_exec_outcome(toks.drop_first()),
        }
    }
}

/// The affected-row count of an exec response: the first completion marker
/// with the count flag, unless a server error comes first.
pub fn handle_execute_packet(tokens: &Vec<TokenStream>) -> (res: Result<u64, TdsError>)
    ensures
        match spec_exec_outcome(tokens@) {
            Some(Ok(n)) => res == Ok::<u64, TdsError>(n),
            Some(Err(e)) => res == Err::<u64, TdsError>(TdsError::ServerError(e)),
            None => res matches Err(TdsError::Other(_)),
        },
{
    let mut i: usize = 0;
    proof {
        assert(tokens@.skip(0) =~= tokens@);
    }
    while i < tokens.len()
        invariant
            i <= tokens@.len(),
            spec_exec_outcome(tokens@) == spec_exec_outcome(tokens@.skip(i as int)),
        decreases tokens@.len() - i,
    {
        proof {
            assert(tokens@.skip(i as int)[0] == tokens@[i as int]);
            assert(tokens@.skip(i as int).drop_first() =~= tokens@.skip(i + 1));
        }
        match &tokens[i] {
            TokenStream::Error(e) => {
                let copy = TokenStreamError {
                    code: e.code,
                    state: e.state,
                    class: e.class,
                    message: e.message.clone(),
                    server_name: e.server_name.clone(),
                    proc_name: e.proc_name.clone(),
                    line_number: e.line_number,
                };
                return Err(TdsError::ServerError(copy));
            },
            TokenStream::Done(d) => {
                if d.status & 0x10 != 0 {
                    return Ok(d.done_row_count);
                }
            },
            TokenStream::DoneProc(d) => {
                if d.status & 0x10 != 0 {
                    return Ok(d.done_row_count);
                }
            },
            TokenStream::DoneInProc(d) => {
                if d.status & 0x10 != 0 {
                    return Ok(d.done_row_count);
                }
            },
            _ => {},
        }
        i = i + 1;
    }
    proof {
        assert(tokens@.skip(tokens@.len() as int)
            =~= Seq::<TokenStream>::empty());
    }
    Err(TdsError::Other(String::from_str("exec: no completion count in response")))
}


/// The decimal digits of a nonnegative number.
pub open spec fn spec_dec_chars(v: int) -> Seq<char>
    decreases v,
{
    if v < 10 {
        seq![((0x30 + v) as u8) as char]
    } else {
        spec_dec_chars(v / 10).push(((0x30 + v % 10) as u8) as char)
    }
}

/// Format a number in decimal.
pub fn u32_to_string(v: u32) -> (r: String)
    ensures
        r@ == spec_dec_chars(v as int),
    decreases v,
{
    if v < 10 {
        let mut s = String::new();
        crate::utf16::push_char(&mut s, (0x30 + v as u8) as char);
        proof {
            assert(s@ =~= spec_dec_chars(v as int));
        }
        s
    } else {
        let mut s = u32_to_string(v / 10);
        crate::utf16::push_char(&mut s, (0x30 + (v % 10) as u8) as char);
        s
    }
}

/// The server type name a value declares itself as, where the library knows
/// one.
pub open spec fn spec_sql_type_name(v: crate::types::ColumnType) -> Seq<char> {
    match v {
        crate::types::ColumnType::I8(_) => "tinyint"@,
        crate::types::ColumnType::I16(_) => "smallint"@,
        crate::types::ColumnType::I32(_) => "int"@,
        crate::types::ColumnType::I64(_) => "bigint"@,
        crate::types::ColumnType::F32(_) => "float(24)"@,
        crate::types::ColumnType::F64(_) => "float(53)"@,
        crate::types::ColumnType::String(_) => "nvarchar"@,
        _ => Seq::empty(),
    }
}

/// Whether a value has a server type name.
pub open spec fn spec_has_type_name(v: crate::types::ColumnType) -> bool {
    match v {
        crate::types::ColumnType::I8(_) => true,
        crate::types::ColumnType::I16(_) => true,
        crate::types::ColumnType::I32(_) => true,
        crate::types::ColumnType::I64(_) => true,
        crate::types::ColumnType::F32(_) => true,
        crate::types::ColumnType::F64(_) => true,
        crate::types::ColumnType::String(_) => true,
        _ => false,
    }
}

/// The server type name of a value, where the library knows one.
pub fn sql_type_name(v: &crate::types::ColumnType) -> (r: Option<&'static str>)
    ensures
        r is Some <==> spec_has_type_name(*v),
        r matches Some(s) ==> s@ == spec_sql_type_name(*v),
{
    match v {
        crate::types::ColumnType::I8(_) => Some("tinyint"),
        crate::types::ColumnType::I16(_) => Some("smallint"),
        crate::types::ColumnType::I32(_) => Some("int"),
        crate::types::ColumnType::I64(_) => Some("bigint"),
        crate::types::ColumnType::F32(_) => Some("float(24)"),
        crate::types::ColumnType::F64(_) => Some("float(53)"),
        crate::types::ColumnType::String(_) => Some("nvarchar"),
        _ => None,
    }
}

/// The parameter declaration text for a parameter list, numbering from `i`:
/// each parameter as `@P<n> <type>`, comma-separated.
pub open spec fn spec_param_decl(ps: Seq<crate::types::ColumnType>, i: int) -> Seq<char>
    decreases ps.len(),
{
    if ps.len() == 0 {
        Seq::empty()
    } else if ps.len() == 1 {
        "@P"@ + spec_dec_chars(i) + " "@ + spec_sql_type_name(ps[0])
    } else {
        "@P"@ + spec_dec_chars(i) + " "@ + spec_sql_type_name(ps[0]) + ","@ + spec_param_decl(
            ps.drop_first(),
            i + 1,
        )
    }
}

/// Build the parameter declaration text (`@P1 int,@P2 nvarchar`). Fails on a
/// value kind without a server type name.
pub fn param_decl(params: &Vec<crate::types::ColumnType>) -> (res: Result<String, TdsError>)
    requires
        params@.len() <= 2100,
    ensures
        res is Ok <==> (forall|j: int|
            0 <= j < params@.len() ==> spec_has_type_name(#[trigger] params@[j])),
        res matches Ok(s) ==> s@ == spec_param_decl(params@, 1),
        res is Err ==> res matches Err(TdsError::Other(_)),
{
    let mut out = String::new();
    let mut i: usize = 0;
    proof {
        assert(params@.skip(0) =~= params@);
        assert(out@ + spec_param_decl(params@.skip(0), 1) =~= spec_param_decl(params@, 1));
    }
    while i < params.len()
        invariant
            i <= params@.len(),
            params@.len() <= 2100,
            out@ + spec_param_decl(params@.skip(i as int), i + 1) =~= spec_param_decl(params@, 1),
            forall|j: int| 0 <= j < i ==> spec_has_type_name(#[trigger] params@[j]),
        decreases params@.len() - i,
    {
        proof {
            assert(params@.skip(i as int)[0] == params@[i as int]);
            assert(params@.skip(i as int).drop_first() =~= params@.skip(i + 1));
        }
        let name = match sql_type_name(&params[i]) {
            Some(n) => n,
            None => {
                return Err(
                    TdsError::Other(String::from_str("prepare: parameter kind has no type name")),
                );
            },
        };
        out.append("@P");
        let num = u32_to_string((i + 1) as u32);
        out.append(num.as_str());
        out.append(" ");
        out.append(name);
        if i + 1 < params.len() {
            out.append(",");
        }
        i = i + 1;
        proof {
            assert(out@ + spec_param_decl(params@.skip(i as int), i + 1) =~= spec_param_decl(
                params@,
                1,
            ));
        }
    }
    proof {
        assert(params@.skip(params@.len() as int) =~= Seq::<crate::types::ColumnType>::empty());
        assert(out@ =~= spec_param_decl(params@, 1));
    }
    Ok(out)
}

/// A prepared statement: its SQL text and its per-statement cache, with the
/// server handle once the lazy `sp_prepare` call has happened.
#[derive(Debug)]
pub struct PreparedStatement {
    /// The statement's SQL text.
    pub sql: String,
    /// The statement's column cache and handle.
    pub stmt: StatementInfo,
}

/// The first returned parameter named `handle`, and whether it carries an
/// `int`: `None` where no such parameter exists, `Some(None)` where it holds
/// another kind, `Some(Some(h))` for the handle value.
pub open spec fn spec_find_handle(toks: Seq<TokenStream>) -> Option<Option<i32>>
    decreases toks.len(),
{
    if toks.len() == 0 {
        None
    } else {
        match toks[0] {
            TokenStream::ReturnValue(rv) => {
                if rv.name@ == "handle"@ {
                    match rv.data {
                        ColumnValue::Value(crate::types::ColumnType::I32(h)) => Some(Some(h)),
                        _ => Some(None),
                    }
                } else {
                    spec_find_handle(toks.drop_first())
                }
            },
            _ => spec_find_handle(toks.drop_first()),
        }
    }
}

impl PreparedStatement {
    /// A statement over the given SQL, not yet prepared on the server.
    pub fn new(sql: String) -> (r: PreparedStatement)
        ensures
            r.sql == sql,
            r.stmt.handle is None,
            r.stmt.column_infos@.len() == 0,
    {
        PreparedStatement { sql, stmt: StatementInfo::new() }
    }

    /// Whether the lazy `sp_prepare` call still has to happen.
    pub fn needs_prepare(&self) -> (r: bool)
        ensures
            r == (self.stmt.handle is None),
    {
        self.stmt.handle.is_none()
    }

    /// The `sp_prepare` request for this statement: an OUTPUT `handle`, the
    /// parameter declaration text derived from the values, and the SQL.
    pub fn prepare_request(&self, params: &Vec<crate::types::ColumnType>) -> (res: Result<
        crate::rpc::RpcRequestData,
        TdsError,
    >)
        requires
            params@.len() <= 2100,
        ensures
            res is Ok <==> (forall|j: int|
                0 <= j < params@.len() ==> spec_has_type_name(#[trigger] params@[j])),
            res matches Ok(req) ==> {
                &&& req.proc_id == crate::rpc::RpcProcIdValue::Id(crate::rpc::RpcProcId::SpPrepare)
                &&& req.flags == 0
                &&& req.params@.len() == 3
                &&& req.params@[0].name@ == "handle"@ && req.params@[0].status_flags == 1
                    && req.params@[0].value == crate::types::ColumnType::I32(0)
                &&& req.params@[1].name@ == "params"@ && req.params@[1].status_flags == 0
                &&& (req.params@[1].value matches crate::types::ColumnType::String(d) && d@
                    == spec_param_decl(params@, 1))
                &&& req.params@[2].name@ == "stmt"@ && req.params@[2].status_flags == 0
                &&& (req.params@[2].value matches crate::types::ColumnType::String(q) && q@
                    == self.sql@)
            },
            res is Err ==> res matches Err(TdsError::Other(_)),
    {
        let decl = match param_decl(params) {
            Ok(d) => d,
            Err(e) => {
                return Err(e);
            },
        };
        let mut meta: Vec<crate::rpc::RpcParamData> = Vec::new();
        meta.push(
            crate::rpc::RpcParamData {
                name: String::from_str("handle"),
                status_flags: crate::rpc::RPC_BY_REF_VALUE,
                value: crate::types::ColumnType::I32(0),
            },
        );
        meta.push(
            crate::rpc::RpcParamData {
                name: String::from_str("params"),
                status_flags: 0,
                value: crate::types::ColumnType::String(decl),
            },
        );
        meta.push(
            crate::rpc::RpcParamData {
                name: String::from_str("stmt"),
                status_flags: 0,
                value: crate::types::ColumnType::String(self.sql.clone()),
            },
        );
        Ok(
            crate::rpc::RpcRequestData {
                proc_id: crate::rpc::RpcProcIdValue::Id(crate::rpc::RpcProcId::SpPrepare),
                flags: 0,
                params: meta,
            },
        )
    }

    /// Take the handle out of the `sp_prepare` response: the first returned
    /// parameter named `handle` must carry an `int`; a server error, a
    /// missing parameter, or another kind is surfaced.
    pub fn absorb_prepare_response(&mut self, tokens: &Vec<TokenStream>) -> (res: Result<
        (),
        TdsError,
    >)
        ensures
            final(self).sql == old(self).sql,
            res is Ok <==> (crate::tokens::spec_first_error(tokens@) is None && spec_find_handle(
                tokens@,
            ) matches Some(Some(_))),
            res is Ok ==> match spec_find_handle(tokens@) {
                Some(Some(h)) => final(self).stmt.handle == Some(crate::codec::u32_of_i32(h)),
                _ => false,
            },
            res is Err ==> *final(self) == *old(self),
    {
        match crate::tokens::catch_error(tokens) {
            Ok(x) => x,
            Err(e) => {
                return Err(e);
            },
        };
        let mut i: usize = 0;
        proof {
            assert(tokens@.skip(0) =~= tokens@);
        }
        while i < tokens.len()
            invariant
                i <= tokens@.len(),
                *self == *old(self),
                crate::tokens::spec_first_error(tokens@) is None,
                spec_find_handle(tokens@) == spec_find_handle(tokens@.skip(i as int)),
            decreases tokens@.len() - i,
        {
            proof {
                assert(tokens@.skip(i as int)[0] == tokens@[i as int]);
                assert(tokens@.skip(i as int).drop_first() =~= tokens@.skip(i + 1));
            }
            match &tokens[i] {
                TokenStream::ReturnValue(rv) => {
                    if str_eq(rv.name.as_str(), "handle") {
                        match &rv.data {
                            ColumnValue::Value(crate::types::ColumnType::I32(h)) => {
                                let hv: i32 = *h;
                                let hu: u32 = if hv >= 0 {
                                    hv as u32
                                } else {
                                    0xFFFFFFFFu32 - ((-(hv + 1)) as u32)
                                };
                                proof {
                                    assert(hu == crate::codec::u32_of_i32(hv));
                                }
                                self.stmt.handle = Some(hu);
                                return Ok(());
                            },
                            _ => {
                                return Err(
                                    TdsError::Other(
                                        String::from_str("prepare: invalid handle id"),
                                    ),
                                );
                            },
                        }
                    }
                },
                _ => {},
            }
            i = i + 1;
        }
        proof {
            assert(tokens@.skip(tokens@.len() as int) =~= Seq::<TokenStream>::empty());
        }
        Err(TdsError::Other(String::from_str("prepare: did not receive a handle id")))
    }

    /// The `sp_execute` request for this statement: the server handle, then
    /// the actual parameter values under empty names.
    pub fn execute_request(&self, params: &Vec<crate::types::ColumnType>) -> (res: Result<
        crate::rpc::RpcRequestData,
        TdsError,
    >)
        requires
            self.stmt.handle is Some,
        ensures
            res is Ok,
            res matches Ok(req) ==> {
                &&& req.proc_id == crate::rpc::RpcProcIdValue::Id(crate::rpc::RpcProcId::SpExecute)
                &&& req.flags == 0
                &&& req.params@.len() == params@.len() + 1
                &&& req.params@[0].name@ == "handle"@ && req.params@[0].status_flags == 0
                    && req.params@[0].value == crate::types::ColumnType::I32(
                    crate::codec::i32_of_u32(self.stmt.handle.unwrap()),
                )
                &&& forall|j: int|
                    0 <= j < params@.len() ==> (#[trigger] req.params@[j + 1]).name@
                        == Seq::<char>::empty() && req.params@[j + 1].status_flags == 0
                        && req.params@[j + 1].value.model() == params@[j].model()
            },
    {
        let handle = match &self.stmt.handle {
            Some(h) => *h,
            None => {
                proof {
                    assert(false);
                }
                0
            },
        };
        let hv: i32 = if handle < 0x80000000 {
            handle as i32
        } else {
            -((0xFFFFFFFFu32 - handle) as i32) - 1
        };
        proof {
            assert(hv == crate::codec::i32_of_u32(handle));
        }
        let mut meta: Vec<crate::rpc::RpcParamData> = Vec::new();
        meta.push(
            crate::rpc::RpcParamData {
                name: String::from_str("handle"),
                status_flags: 0,
                value: crate::types::ColumnType::I32(hv),
            },
        );
        let mut i: usize = 0;
        while i < params.len()
            invariant
                i <= params@.len(),
                meta@.len() == i + 1,
                meta@[0].name@ == "handle"@ && meta@[0].status_flags == 0 && meta@[0].value
                    == crate::types::ColumnType::I32(crate::codec::i32_of_u32(self.stmt.handle.unwrap())),
                self.stmt.handle is Some,
                forall|j: int|
                    0 <= j < i ==> (#[trigger] meta@[j + 1]).name@ == Seq::<char>::empty()
                        && meta@[j + 1].status_flags == 0 && meta@[j + 1].value.model()
                        == params@[j].model(),
            decreases params@.len() - i,
        {
            let v = clone_column_type(&params[i]);
            meta.push(crate::rpc::RpcParamData { name: String::new(), status_flags: 0, value: v });
            i = i + 1;
        }
        Ok(
            crate::rpc::RpcRequestData {
                proc_id: crate::rpc::RpcProcIdValue::Id(crate::rpc::RpcProcId::SpExecute),
                flags: 0,
                params: meta,
            },
        )
    }
}

impl PreparedStatement {
    /// The `sp_unprepare` request releasing this statement's server handle,
    /// to send when the statement is dropped so the server does not leak
    /// handles.
    pub fn unprepare_request(&self) -> (req: crate::rpc::RpcRequestData)
        requires
            self.stmt.handle is Some,
        ensures
            req.proc_id == crate::rpc::RpcProcIdValue::Id(crate::rpc::RpcProcId::SpUnprepare),
            req.flags == 0,
            req.params@.len() == 1,
            req.params@[0].name@ == "handle"@,
            req.params@[0].status_flags == 0,
            req.params@[0].value == crate::types::ColumnType::I32(
                crate::codec::i32_of_u32(self.stmt.handle.unwrap()),
            ),
    {
        let handle = match &self.stmt.handle {
            Some(h) => *h,
            None => {
                proof {
                    assert(false);
                }
                0
            },
        };
        let hv: i32 = if handle < 0x80000000 {
            handle as i32
        } else {
            -((0xFFFFFFFFu32 - handle) as i32) - 1
        };
        proof {
            assert(hv == crate::codec::i32_of_u32(handle));
        }
        let mut meta: Vec<crate::rpc::RpcParamData> = Vec::new();
        meta.push(
            crate::rpc::RpcParamData {
                name: String::from_str("handle"),
                status_flags: 0,
                value: crate::types::ColumnType::I32(hv),
            },
        );
        crate::rpc::RpcRequestData {
            proc_id: crate::rpc::RpcProcIdValue::Id(crate::rpc::RpcProcId::SpUnprepare),
            flags: 0,
            params: meta,
        }
    }
}

/// Copy one value, preserving its model.
fn clone_column_type(v: &crate::types::ColumnType) -> (r: crate::types::ColumnType)
    ensures
        r.model() == v.model(),
{
    match clone_column_value(&ColumnValue::Value(clone_column_type_inner(v))) {
        ColumnValue::Value(ct) => ct,
        ColumnValue::Null => {
            proof {
                assert(false);
            }
            crate::types::ColumnType::Bool(false)
        },
    }
}

/// Copy one value, preserving its model.
fn clone_column_type_inner(v: &crate::types::ColumnType) -> (r: crate::types::ColumnType)
    ensures
        r.model() == v.model(),
{
    match v {
        crate::types::ColumnType::Bool(x) => crate::types::ColumnType::Bool(*x),
        crate::types::ColumnType::I8(x) => crate::types::ColumnType::I8(*x),
        crate::types::ColumnType::I16(x) => crate::types::ColumnType::I16(*x),
        crate::types::ColumnType::I32(x) => crate::types::ColumnType::I32(*x),
        crate::types::ColumnType::I64(x) => crate::types::ColumnType::I64(*x),
        crate::types::ColumnType::F32(x) => crate::types::ColumnType::F32(*x),
        crate::types::ColumnType::F64(x) => crate::types::ColumnType::F64(*x),
        crate::types::ColumnType::Money4(x) => crate::types::ColumnType::Money4(*x),
        crate::types::ColumnType::Money8(x) => crate::types::ColumnType::Money8(*x),
        crate::types::ColumnType::Decimal(d) => crate::types::ColumnType::Decimal(*d),
        crate::types::ColumnType::String(st) => crate::types::ColumnType::String(st.clone()),
        crate::types::ColumnType::Guid(g) => crate::types::ColumnType::Guid(
            crate::types::Guid { bytes: clone_bytes(&g.bytes) },
        ),
        crate::types::ColumnType::Datetime(dt) => crate::types::ColumnType::Datetime(*dt),
        crate::types::ColumnType::Binary(bts) => crate::types::ColumnType::Binary(
            clone_bytes(bts),
        ),
    }
}

} // verus!
