//! The store: schema derivation from configuration, the embedded
//! relational and full-text storage behind it, and batched transactional
//! inserts.
//!
//! The schema is fixed at construction: the reserved identity column
//! `id`, the verbatim text column `raw`, then one text column per
//! configured field in lexicographic order. A configured name that
//! equals `id` or `raw` ASCII-case-insensitively is rejected before any
//! storage object exists.

use vstd::prelude::*;

use vstd::multiset::Multiset;

use crate::config::{config_keys, Config};
use crate::text::{i64_to_dec, int_dec_str};

verus! {

/// Lexicographic order on character sequences, by code point.
pub open spec fn lex_le(a: Seq<char>, b: Seq<char>) -> bool
    decreases a.len(),
{
    if a.len() == 0 {
        true
    } else if b.len() == 0 {
        false
    } else if (a[0] as u32) < (b[0] as u32) {
        true
    } else if (b[0] as u32) < (a[0] as u32) {
        false
    } else {
        lex_le(a.skip(1), b.skip(1))
    }
}

proof fn lemma_lex_total(a: Seq<char>, b: Seq<char>)
    ensures
        lex_le(a, b) || lex_le(b, a),
    decreases a.len(),
{
    if a.len() > 0 && b.len() > 0 {
        if !((a[0] as u32) < (b[0] as u32)) && !((b[0] as u32) < (a[0] as u32)) {
            lemma_lex_total(a.skip(1), b.skip(1));
        }
    }
}

proof fn lemma_lex_trans(a: Seq<char>, b: Seq<char>, c: Seq<char>)
    requires
        lex_le(a, b),
        lex_le(b, c),
    ensures
        lex_le(a, c),
    decreases a.len(),
{
    if a.len() > 0 && b.len() > 0 && c.len() > 0 {
        if a[0] as u32 == b[0] as u32 && b[0] as u32 == c[0] as u32 {
            lemma_lex_trans(a.skip(1), b.skip(1), c.skip(1));
        }
    }
}

/// Whether the column names are in lexicographic order.
pub open spec fn cols_sorted(cols: Seq<String>) -> bool {
    forall|i: int, j: int| 0 <= i < j < cols.len() ==> lex_le(cols[i]@, cols[j]@)
}

/// Lexicographic comparison of two strings.
fn str_le(a: &str, b: &str) -> (r: bool)
    ensures
        r == lex_le(a@, b@),
{
    let na = a.unicode_len();
    let nb = b.unicode_len();
    let mut i: usize = 0;
    proof {
        assert(a@.skip(0) =~= a@);
        assert(b@.skip(0) =~= b@);
    }
    while i < na && i < nb
        invariant
            0 <= i <= na == a@.len(),
            i <= nb == b@.len(),
            lex_le(a@, b@) == lex_le(a@.skip(i as int), b@.skip(i as int)),
        decreases na - i,
    {
        let ca = a.get_char(i) as u32;
        let cb = b.get_char(i) as u32;
        if ca < cb {
            return true;
        }
        if cb < ca {
            return false;
        }
        proof {
            assert(a@.skip(i as int).skip(1) =~= a@.skip(i + 1));
            assert(b@.skip(i as int).skip(1) =~= b@.skip(i + 1));
        }
        i = i + 1;
    }
    na <= nb
}

/// Inserts `x` into a sorted vector, keeping it sorted.
fn insert_sorted(out: &mut Vec<String>, x: String)
    requires
        cols_sorted(old(out)@),
    ensures
        cols_sorted(final(out)@),
        final(out)@.to_multiset() == old(out)@.to_multiset().insert(x),
        final(out)@.len() == old(out)@.len() + 1,
{
    let n = out.len();
    let mut p: usize = 0;
    while p < n && str_le(out[p].as_str(), x.as_str())
        invariant
            0 <= p <= n == out@.len(),
            cols_sorted(out@),
            forall|j: int| 0 <= j < p ==> lex_le(out@[j]@, x@),
        decreases n - p,
    {
        p = p + 1;
    }
    proof {
        if p < out@.len() {
            lemma_lex_total(out@[p as int]@, x@);
            assert forall|j: int| p <= j < out@.len() implies lex_le(x@, out@[j]@) by {
                if j > p {
                    lemma_lex_trans(x@, out@[p as int]@, out@[j as int]@);
                }
            }
        }
        broadcast use vstd::seq_lib::to_multiset_insert;

    }
    let ghost prev = out@;
    out.insert(p, x);
    proof {
        assert forall|i: int, j: int| 0 <= i < j < out@.len() implies lex_le(
            out@[i]@,
            out@[j]@,
        ) by {
            let pi = p as int;
            if i < pi && j < pi {
                assert(out@[i] == prev[i] && out@[j] == prev[j]);
            } else if i < pi && j == pi {
                assert(out@[i] == prev[i]);
            } else if i < pi && j > pi {
                assert(out@[i] == prev[i] && out@[j] == prev[j - 1]);
            } else if i == pi {
                assert(out@[j] == prev[j - 1]);
            } else {
                assert(out@[i] == prev[i - 1] && out@[j] == prev[j - 1]);
            }
        }
    }
}

/// Sorts column names lexicographically; the result holds exactly the
/// names given, as a multiset.
pub fn sort_columns(v: Vec<String>) -> (r: Vec<String>)
    ensures
        cols_sorted(r@),
        r@.to_multiset() == v@.to_multiset(),
        r@.len() == v@.len(),
{
    let ghost orig = v@;
    let mut rest = v;
    let mut out: Vec<String> = Vec::new();
    proof {
        broadcast use vstd::seq_lib::group_to_multiset_ensures;

        assert(orig.skip(0) =~= orig);
        assert(out@.to_multiset() =~= Multiset::empty());
    }
    let mut taken: usize = 0;
    let n = rest.len();
    while rest.len() > 0
        invariant
            taken + rest@.len() == n == orig.len(),
            rest@ =~= orig.skip(taken as int),
            cols_sorted(out@),
            out@.len() == taken,
            out@.to_multiset() == orig.take(taken as int).to_multiset(),
        decreases rest@.len(),
    {
        let x = rest.remove(0);
        proof {
            assert(x == orig[taken as int]);
            broadcast use vstd::seq_lib::group_to_multiset_ensures;

            assert(orig.take(taken + 1).drop_last() =~= orig.take(taken as int));
            assert(orig.take(taken + 1) =~= orig.take(taken as int).push(orig[taken as int]));
        }
        insert_sorted(&mut out, x);
        taken = taken + 1;
        proof {
            assert(rest@ =~= orig.skip(taken as int));
        }
    }
    proof {
        assert(orig.take(taken as int) =~= orig);
    }
    out
}

/// ASCII lowercasing of one character.
pub open spec fn lower_char(c: char) -> char {
    if 'A' <= c && c <= 'Z' {
        (c as u8 + 32) as char
    } else {
        c
    }
}

/// Whether `name` is a reserved column name: equal to `id` or `raw` up to
/// ASCII case.
pub open spec fn is_reserved(name: Seq<char>) -> bool {
    name.map_values(|c: char| lower_char(c)) == "id"@ || name.map_values(|c: char| lower_char(c))
        == "raw"@
}

/// Whether some configured column name is reserved.
pub open spec fn has_reserved(c: Config) -> bool {
    exists|i: int| 0 <= i < c.fields@.len() && is_reserved(c.fields@[i].0@)
}

fn lower_char_exec(c: char) -> (r: char)
    ensures
        r == lower_char(c),
{
    if 'A' <= c && c <= 'Z' {
        ((c as u8) + 32) as char
    } else {
        c
    }
}

/// Whether `name` collides with `id` or `raw` up to ASCII case.
pub fn is_reserved_name(name: &str) -> (r: bool)
    ensures
        r == is_reserved(name@),
{
    proof {
        reveal_strlit("id");
        reveal_strlit("raw");
    }
    let n = name.unicode_len();
    let ghost lowered = name@.map_values(|c: char| lower_char(c));
    if n == 2 {
        let c0 = lower_char_exec(name.get_char(0));
        let c1 = lower_char_exec(name.get_char(1));
        let r = c0 == 'i' && c1 == 'd';
        proof {
            assert(lowered.len() == 2);
            assert(lowered[0] == lower_char(name@[0]) && lowered[1] == lower_char(name@[1]));
            if r {
                assert(lowered =~= "id"@);
            } else {
                assert(lowered != "id"@ && lowered.len() != "raw"@.len());
            }
        }
        r
    } else if n == 3 {
        let c0 = lower_char_exec(name.get_char(0));
        let c1 = lower_char_exec(name.get_char(1));
        let c2 = lower_char_exec(name.get_char(2));
        let r = c0 == 'r' && c1 == 'a' && c2 == 'w';
        proof {
            assert(lowered.len() == 3);
            assert(lowered[0] == lower_char(name@[0]) && lowered[1] == lower_char(name@[1])
                && lowered[2] == lower_char(name@[2]));
            if r {
                assert(lowered =~= "raw"@);
            } else {
                assert(lowered != "raw"@ && lowered.len() != "id"@.len());
            }
        }
        r
    } else {
        proof {
            assert(lowered.len() == name@.len());
        }
        false
    }
}


/// The text columns of the schema statement, one `, <name> TEXT` piece
/// per configured column.
pub open spec fn cols_schema_sql(cols: Seq<String>) -> Seq<char>
    decreases cols.len(),
{
    if cols.len() == 0 {
        Seq::empty()
    } else {
        cols_schema_sql(cols.drop_last()) + ", "@ + cols.last()@ + " TEXT"@
    }
}

/// The statement that creates the logs table: the identity column, the
/// verbatim text column, then one text column per configured name.
pub open spec fn create_table_sql_spec(cols: Seq<String>) -> Seq<char> {
    "CREATE TABLE logs (id INTEGER PRIMARY KEY, raw TEXT"@ + cols_schema_sql(cols) + ")"@
}

/// Builds the table-creation statement for `cols`.
pub fn create_table_sql(cols: &Vec<String>) -> (s: String)
    ensures
        s@ == create_table_sql_spec(cols@),
{
    proof {
        reveal_strlit("CREATE TABLE logs (id INTEGER PRIMARY KEY, raw TEXT");
        reveal_strlit(", ");
        reveal_strlit(" TEXT");
        reveal_strlit(")");
    }
    let mut s = String::from_str("CREATE TABLE logs (id INTEGER PRIMARY KEY, raw TEXT");
    let ghost prefix = s@;
    let n = cols.len();
    let mut i: usize = 0;
    while i < n
        invariant
            0 <= i <= n == cols@.len(),
            s@ == prefix + cols_schema_sql(cols@.take(i as int)),
            prefix == "CREATE TABLE logs (id INTEGER PRIMARY KEY, raw TEXT"@,
        decreases n - i,
    {
        s.append(", ");
        s.append(cols[i].as_str());
        s.append(" TEXT");
        proof {
            assert(cols@.take(i + 1).drop_last() =~= cols@.take(i as int));
            assert(cols@.take(i + 1).last() == cols@[i as int]);
        }
        i = i + 1;
    }
    proof {
        assert(cols@.take(n as int) =~= cols@);
    }
    s.concat(")")
}

/// The column list of the insert statement, one `,<name>` piece per
/// configured column.
pub open spec fn insert_cols_sql(cols: Seq<String>) -> Seq<char>
    decreases cols.len(),
{
    if cols.len() == 0 {
        Seq::empty()
    } else {
        insert_cols_sql(cols.drop_last()) + ","@ + cols.last()@
    }
}

/// One `,?` placeholder per configured column.
pub open spec fn placeholders_sql(n: int) -> Seq<char>
    decreases n,
{
    if n <= 0 {
        Seq::empty()
    } else {
        placeholders_sql(n - 1) + ",?"@
    }
}

/// The statement that inserts one row: `raw` first, then every
/// configured column in order, with one placeholder each.
pub open spec fn insert_sql_spec(cols: Seq<String>) -> Seq<char> {
    "INSERT INTO logs (raw"@ + insert_cols_sql(cols) + ") VALUES (?"@ + placeholders_sql(
        cols.len() as int,
    ) + ")"@
}

/// Builds the row-insert statement for `cols`.
pub fn insert_sql(cols: &Vec<String>) -> (s: String)
    ensures
        s@ == insert_sql_spec(cols@),
{
    proof {
        reveal_strlit("INSERT INTO logs (raw");
        reveal_strlit(",");
        reveal_strlit(") VALUES (?");
        reveal_strlit(",?");
        reveal_strlit(")");
    }
    let mut s = String::from_str("INSERT INTO logs (raw");
    let ghost prefix = s@;
    let n = cols.len();
    let mut i: usize = 0;
    while i < n
        invariant
            0 <= i <= n == cols@.len(),
            s@ == prefix + insert_cols_sql(cols@.take(i as int)),
            prefix == "INSERT INTO logs (raw"@,
        decreases n - i,
    {
        s.append(",");
        s.append(cols[i].as_str());
        proof {
            assert(cols@.take(i + 1).drop_last() =~= cols@.take(i as int));
            assert(cols@.take(i + 1).last() == cols@[i as int]);
        }
        i = i + 1;
    }
    proof {
        assert(cols@.take(n as int) =~= cols@);
    }
    s.append(") VALUES (?");
    let ghost mid = s@;
    let mut j: usize = 0;
    while j < n
        invariant
            0 <= j <= n,
            s@ == mid + placeholders_sql(j as int),
        decreases n - j,
    {
        s.append(",?");
        j = j + 1;
    }
    s.concat(")")
}

/// One value of a query result row, as the storage engine typed it. A
/// floating-point value arrives already rendered by the driver, since the
/// core renders only text and integers itself.
pub enum SqlCell {
    /// SQL NULL.
    Null,
    /// An integer value.
    Int(i64),
    /// A floating-point value, as the driver's decimal rendering.
    Real(String),
    /// A text value, decoded lossily.
    Text(String),
    /// A binary blob; its bytes are never shown.
    Blob,
}

/// The display text of one result value: `NULL` for null, decimal for
/// integers, the driver's rendering for floating-point values, the text
/// itself, and a fixed placeholder for blobs.
pub open spec fn cell_text(c: SqlCell) -> Seq<char> {
    match c {
        SqlCell::Null => "NULL"@,
        SqlCell::Int(x) => int_dec_str(x as int),
        SqlCell::Real(s) => s@,
        SqlCell::Text(s) => s@,
        SqlCell::Blob => "[BLOB]"@,
    }
}

/// Renders one result value for display.
pub fn render_cell(c: &SqlCell) -> (s: String)
    ensures
        s@ == cell_text(*c),
{
    match c {
        SqlCell::Null => {
            proof {
                reveal_strlit("NULL");
            }
            String::from_str("NULL")
        },
        SqlCell::Int(x) => i64_to_dec(*x),
        SqlCell::Real(t) => t.clone(),
        SqlCell::Text(t) => t.clone(),
        SqlCell::Blob => {
            proof {
                reveal_strlit("[BLOB]");
            }
            String::from_str("[BLOB]")
        },
    }
}

/// A failure of the store: a rejected configuration, or whatever the
/// storage engine reported.
#[derive(Debug)]
pub enum DbError {
    /// A configured column name collides with `id` or `raw`.
    Reserved(String),
    /// The storage engine's own report, as text.
    Storage(String),
}

/// Relies on rusqlite's `Connection`: the handle to one embedded
/// database, held opaquely and used only through the wrappers below.
#[verifier::external_type_specification]
#[verifier::external_body]
pub struct ExConnection(rusqlite::Connection);

/// Relies on rusqlite's `Error`: the storage engine's failure report,
/// carried opaquely until it is rendered.
#[verifier::external_type_specification]
#[verifier::external_body]
pub struct ExSqlError(rusqlite::Error);

/// Relies on rusqlite's `ValueRef`: one value of a result row, borrowed
/// from the statement that produced it.
#[verifier::external_type_specification]
#[verifier::external_body]
pub struct ExValueRef<'a>(rusqlite::types::ValueRef<'a>);

/// Relies on rusqlite::Connection::open_in_memory: opens a fresh private
/// in-memory database.
#[verifier::external_body]
fn open_memory_db() -> Result<rusqlite::Connection, rusqlite::Error> {
    rusqlite::Connection::open_in_memory()
}

/// Relies on rusqlite::Connection::execute: runs one SQL statement and
/// reports how many rows it changed.
#[verifier::external_body]
fn execute_sql(conn: &rusqlite::Connection, sql: &str) -> Result<usize, rusqlite::Error> {
    conn.execute(sql, [])
}

/// Relies on the `Display` implementation of rusqlite's `Error`.
#[verifier::external_body]
fn sql_error_text(e: &rusqlite::Error) -> String {
    e.to_string()
}

/// Relies on rusqlite transactions: runs the prepared insert statement
/// once per row, all inside one transaction, so either every row commits
/// or none does. Each row binds its raw text first, then its column
/// values in order.
#[verifier::external_body]
fn insert_rows(
    conn: &mut rusqlite::Connection,
    sql: &str,
    rows: &Vec<(String, Vec<String>)>,
) -> Result<(), rusqlite::Error> {
    let tx = conn.transaction()?;
    {
        let mut stmt = tx.prepare(sql)?;
        for row in rows {
            stmt.execute(rusqlite::params_from_iter(std::iter::once(&row.0).chain(row.1.iter())))?;
        }
    }
    tx.commit()?;
    Ok(())
}

/// Relies on rusqlite's `ValueRef` variants: each result value is moved
/// into the library's own cell type, floating-point values rendered by
/// the driver and text decoded lossily.
#[verifier::external_body]
fn cell_of(v: rusqlite::types::ValueRef<'_>) -> SqlCell {
    match v {
        rusqlite::types::ValueRef::Null => SqlCell::Null,
        rusqlite::types::ValueRef::Integer(x) => SqlCell::Int(x),
        rusqlite::types::ValueRef::Real(x) => SqlCell::Real(x.to_string()),
        rusqlite::types::ValueRef::Text(t) => SqlCell::Text(
            String::from_utf8_lossy(t).into_owned(),
        ),
        rusqlite::types::ValueRef::Blob(_) => SqlCell::Blob,
    }
}

/// Relies on rusqlite prepared statements: runs one query and collects
/// the column names and every row's values; each returned row has
/// exactly one value per column name.
#[verifier::external_body]
fn query_rows(conn: &rusqlite::Connection, sql: &str) -> (r: Result<
    (Vec<String>, Vec<Vec<SqlCell>>),
    rusqlite::Error,
>)
    ensures
        r matches Ok(p) ==> forall|i: int| 0 <= i < p.1@.len() ==> p.1@[i]@.len() == p.0@.len(),
{
    let mut stmt = conn.prepare(sql)?;
    let headers: Vec<String> = stmt.column_names().iter().map(|s| s.to_string()).collect();
    let mut rows = stmt.query([])?;
    let mut out: Vec<Vec<SqlCell>> = Vec::new();
    while let Some(row) = rows.next()? {
        let mut vals: Vec<SqlCell> = Vec::new();
        for i in 0..headers.len() {
            vals.push(cell_of(row.get_ref(i)?));
        }
        out.push(vals);
    }
    Ok((headers, out))
}

fn storage_error(e: &rusqlite::Error) -> (r: DbError)
    ensures
        r matches DbError::Storage(_),
{
    DbError::Storage(sql_error_text(e))
}

/// The store: the embedded database handle and the configured columns of
/// its schema, in lexicographic order.
pub struct Db {
    /// The embedded database handle.
    pub conn: rusqlite::Connection,
    /// The configured column names, sorted; `id` and `raw` always stand
    /// before them in the schema.
    pub columns: Vec<String>,
}

proof fn lemma_same_elements(a: Seq<String>, b: Seq<String>)
    requires
        a.to_multiset() == b.to_multiset(),
    ensures
        forall|x: String| a.contains(x) <==> b.contains(x),
{
    broadcast use vstd::seq_lib::group_to_multiset_ensures;

    assert forall|x: String| a.contains(x) <==> b.contains(x) by {
        assert(a.contains(x) <==> a.to_multiset().count(x) > 0);
        assert(b.contains(x) <==> b.to_multiset().count(x) > 0);
    }
}

impl Db {
    /// Derives the schema from the configuration and creates the logs
    /// table and its full-text shadow index. A reserved column name is
    /// rejected before any storage object is created; with none, the
    /// store's columns are exactly the configured names, sorted.
    pub fn new(config: &Config) -> (r: Result<Db, DbError>)
        ensures
            match r {
                Ok(db) => !has_reserved(*config) && cols_sorted(db.columns@) && db.columns@
                    .to_multiset() == config_keys(*config).to_multiset(),
                Err(DbError::Reserved(n)) => has_reserved(*config) && is_reserved(n@),
                Err(DbError::Storage(_)) => !has_reserved(*config),
            },
            has_reserved(*config) ==> r matches Err(DbError::Reserved(_)),
    {
        let ghost keys_spec = config_keys(*config);
        let mut keys: Vec<String> = Vec::new();
        let n = config.fields.len();
        let mut i: usize = 0;
        while i < n
            invariant
                0 <= i <= n == config.fields@.len(),
                keys@ =~= config_keys(*config).take(i as int),
            decreases n - i,
        {
            keys.push(config.fields[i].0.clone());
            i = i + 1;
        }
        proof {
            assert(keys_spec.take(n as int) =~= keys_spec);
        }
        let columns = sort_columns(keys);
        let m = columns.len();
        let mut j: usize = 0;
        while j < m
            invariant
                0 <= j <= m == columns@.len(),
                keys_spec == config_keys(*config),
                keys_spec.len() == config.fields@.len(),
                cols_sorted(columns@),
                columns@.to_multiset() == keys_spec.to_multiset(),
                forall|k: int| 0 <= k < j ==> !is_reserved(columns@[k]@),
            decreases m - j,
        {
            if is_reserved_name(columns[j].as_str()) {
                proof {
                    lemma_same_elements(columns@, keys_spec);
                    assert(columns@.contains(columns@[j as int]));
                    assert(keys_spec.contains(columns@[j as int]));
                    let w = choose|w: int|
                        0 <= w < keys_spec.len() && keys_spec[w] == columns@[j as int];
                    assert(keys_spec[w] == config.fields@.map_values(
                        |p: (String, String)| p.0,
                    )[w]);
                    assert(keys_spec[w] == config.fields@[w].0);
                    assert(is_reserved(config.fields@[w].0@));
                }
                return Err(DbError::Reserved(columns[j].clone()));
            }
            j = j + 1;
        }
        proof {
            if has_reserved(*config) {
                let w = choose|w: int|
                    0 <= w < config.fields@.len() && is_reserved(config.fields@[w].0@);
                assert(keys_spec[w] == config.fields@.map_values(
                    |p: (String, String)| p.0,
                )[w]);
                assert(keys_spec[w] == config.fields@[w].0);
                assert(keys_spec.contains(keys_spec[w]));
                lemma_same_elements(columns@, keys_spec);
                assert(columns@.contains(keys_spec[w]));
                let u = choose|u: int|
                    0 <= u < columns@.len() && columns@[u] == keys_spec[w];
                assert(is_reserved(columns@[u]@));
                assert(!is_reserved(columns@[u]@));
            }
        }
        let conn = match open_memory_db() {
            Ok(c) => c,
            Err(e) => {
                return Err(storage_error(&e));
            },
        };
        let table_sql = create_table_sql(&columns);
        match execute_sql(&conn, table_sql.as_str()) {
            Ok(_) => (),
            Err(e) => {
                return Err(storage_error(&e));
            },
        }
        match execute_sql(
            &conn,
            "CREATE VIRTUAL TABLE logs_fts USING fts5(raw, content='logs', content_rowid='id', tokenize='trigram', detail='none')",
        ) {
            Ok(_) => (),
            Err(e) => {
                return Err(storage_error(&e));
            },
        }
        Ok(Db { conn, columns })
    }

    /// Rebuilds the full-text shadow index from the table's current
    /// contents; called once after all batches of a load.
    pub fn rebuild_fts(&self) -> (r: Result<(), DbError>)
        ensures
            r matches Err(e) ==> e matches DbError::Storage(_),
    {
        match execute_sql(&self.conn, "INSERT INTO logs_fts(logs_fts) VALUES('rebuild')") {
            Ok(_) => Ok(()),
            Err(e) => Err(storage_error(&e)),
        }
    }

    /// Inserts every given row inside one transaction: each row is its
    /// raw line text plus one value per configured column, in column
    /// order. The whole batch commits or none of it does.
    pub fn insert_batch(&mut self, rows: &Vec<(String, Vec<String>)>) -> (r: Result<(), DbError>)
        requires
            forall|i: int| 0 <= i < rows@.len() ==> #[trigger] rows@[i].1@.len()
                == old(self).columns@.len(),
        ensures
            final(self).columns == old(self).columns,
            r matches Err(e) ==> e matches DbError::Storage(_),
    {
        let sql = insert_sql(&self.columns);
        match insert_rows(&mut self.conn, sql.as_str(), rows) {
            Ok(_) => Ok(()),
            Err(e) => Err(storage_error(&e)),
        }
    }

    /// Runs one query and hands back the column names and the raw cells
    /// of every row; each row holds exactly one cell per column name.
    pub(crate) fn raw_query(&self, sql: &str) -> (r: Result<
        (Vec<String>, Vec<Vec<SqlCell>>),
        DbError,
    >)
        ensures
            match r {
                Ok(p) => forall|i: int| 0 <= i < p.1@.len() ==> p.1@[i]@.len() == p.0@.len(),
                Err(e) => e matches DbError::Storage(_),
            },
    {
        match query_rows(&self.conn, sql) {
            Ok(p) => Ok(p),
            Err(e) => Err(storage_error(&e)),
        }
    }
}


/// A configuration with no fields violates no reservation: only a
/// configured name can collide with `id` or `raw`, so construction over
/// an empty mapping is never refused for its names, and its schema holds
/// the two reserved columns alone.
pub proof fn lemma_empty_config_no_reserved(c: Config)
    requires
        c.fields@.len() == 0,
    ensures
        !has_reserved(c),
{
}

} // verus!
