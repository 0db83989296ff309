//! The ingestion engine: feeds lines into the store in batches,
//! applying the configured path expressions to each, and exposes the
//! post-load query surface. Reading the file itself is the caller's
//! business; the engine takes the lines as values.
//!
//! Durations are measured in whole milliseconds of wall-clock time;
//! nothing is assumed of the clock's readings beyond their being
//! numbers, so every time computation saturates instead of overflowing.

use vstd::prelude::*;

use crate::config::{config_keys, path_for, Config};
use crate::db::{cell_text, cols_sorted, has_reserved, is_reserved, render_cell, Db, DbError};
use crate::json::{parse_json_line, JsonValue};
use crate::parser::{extract_field, spec_extract};
use crate::text::{
    dec_str, doubled, escape_fts_phrase, escape_single_quotes, fts_escaped, is_blank, parse_u32,
    parse_u32_spec, spec_blank, u32_to_dec,
};

verus! {

/// Timing and volume of one completed load, in rows and milliseconds.
pub struct LoadStats {
    /// Rows stored: one per non-blank input line.
    pub inserted_lines: usize,
    /// Wall time of the whole load.
    pub total_duration: u64,
    /// Time not spent in storage: total minus storage, saturating.
    pub read_duration: u64,
    /// Time spent in batch inserts and the full-text rebuild.
    pub db_duration: u64,
    /// Time spent in the full-text rebuild alone.
    pub fts_duration: u64,
}

/// One ad-hoc query's outcome: column names, every row rendered as text,
/// and the wall time the call took.
pub struct QueryResult {
    pub headers: Vec<String>,
    pub rows: Vec<Vec<String>>,
    pub duration: u64,
}

/// One listed row: its identity and every selected column but `raw`.
pub struct Log {
    pub id: u32,
    /// Column name to rendered value, in result-column order.
    pub fields: Vec<(String, String)>,
}

/// One page of listed rows, with the filter's total match count.
pub struct Logs {
    pub logs: Vec<Log>,
    pub total_count: u32,
}

/// The engine: the extraction configuration and the store built from it.
pub struct Engine {
    config: Config,
    db: Db,
}

/// Relies on std::time::SystemTime: the wall clock in milliseconds since
/// the Unix epoch; nothing is assumed of the value read.
#[verifier::external_body]
fn now_millis() -> u64 {
    match std::time::SystemTime::now().duration_since(std::time::UNIX_EPOCH) {
        Ok(d) => d.as_millis() as u64,
        Err(_) => 0,
    }
}

/// The value of column `col` for one line: the configured path expression
/// evaluated against the parsed line, or empty if no path is configured.
pub open spec fn col_value_spec(
    fields: Seq<(String, String)>,
    col: Seq<char>,
    root: JsonValue,
    line: Seq<char>,
    line_no: int,
) -> Seq<char> {
    match path_for(fields, col) {
        Some(p) => spec_extract(root, p, line, line_no),
        None => Seq::empty(),
    }
}

/// How many of the lines are not blank.
pub open spec fn nonblank_count(lines: Seq<String>) -> int
    decreases lines.len(),
{
    if lines.len() == 0 {
        0int
    } else {
        nonblank_count(lines.drop_last()) + if spec_blank(lines.last()@) {
            0int
        } else {
            1int
        }
    }
}

/// The path configured for `col`, taking the first entry with that name.
fn find_path<'a>(fields: &'a Vec<(String, String)>, col: &str) -> (r: Option<&'a String>)
    ensures
        match r {
            Some(p) => path_for(fields@, col@) == Some(p@),
            None => path_for(fields@, col@) is None,
        },
{
    let n = fields.len();
    let mut i: usize = 0;
    proof {
        assert(fields@.skip(0) =~= fields@);
    }
    while i < n
        invariant
            0 <= i <= n == fields@.len(),
            path_for(fields@, col@) == path_for(fields@.skip(i as int), col@),
        decreases n - i,
    {
        if crate::text::str_eq(fields[i].0.as_str(), col) {
            proof {
                assert(fields@.skip(i as int)[0] == fields@[i as int]);
            }
            return Some(&fields[i].1);
        }
        proof {
            assert(fields@.skip(i as int).skip(1) =~= fields@.skip(i + 1));
        }
        i = i + 1;
    }
    None
}

proof fn lemma_nonblank_take_step(lines: Seq<String>, i: int)
    requires
        0 <= i < lines.len(),
    ensures
        nonblank_count(lines.take(i + 1)) == nonblank_count(lines.take(i)) + if spec_blank(
            lines[i]@,
        ) {
            0int
        } else {
            1int
        },
{
    assert(lines.take(i + 1).drop_last() =~= lines.take(i));
    assert(lines.take(i + 1).last() == lines[i]);
}

proof fn lemma_nonblank_bounds(lines: Seq<String>)
    ensures
        0 <= nonblank_count(lines) <= lines.len(),
    decreases lines.len(),
{
    if lines.len() > 0 {
        lemma_nonblank_bounds(lines.drop_last());
    }
}

impl Engine {
    /// The configured columns of the store, sorted.
    pub closed spec fn spec_columns(&self) -> Seq<String> {
        self.db.columns@
    }

    /// The configuration entries, as given.
    pub closed spec fn spec_fields(&self) -> Seq<(String, String)> {
        self.config.fields@
    }

    /// Builds the store for `config`: fails exactly on a reserved column
    /// name, and otherwise owns a schema whose configured columns are the
    /// configured names, sorted.
    pub fn new(config: Config) -> (r: Result<Engine, DbError>)
        ensures
            match r {
                Ok(e) => !has_reserved(config) && cols_sorted(e.spec_columns())
                    && e.spec_columns().to_multiset() == config_keys(config).to_multiset()
                    && e.spec_fields() == config.fields@,
                Err(DbError::Reserved(n)) => has_reserved(config) && is_reserved(n@),
                Err(DbError::Storage(_)) => !has_reserved(config),
            },
            has_reserved(config) ==> r matches Err(DbError::Reserved(_)),
    {
        match Db::new(&config) {
            Ok(db) => Ok(Engine { config, db }),
            Err(e) => Err(e),
        }
    }

    /// Every column of the schema, in order: `id`, `raw`, then the
    /// configured columns, sorted.
    pub fn columns(&self) -> (r: Vec<String>)
        ensures
            r@.len() == self.spec_columns().len() + 2,
            r@[0]@ == "id"@,
            r@[1]@ == "raw"@,
            forall|i: int| 0 <= i < self.spec_columns().len() ==> r@[i + 2] == self.spec_columns(
            )[i],
    {
        proof {
            reveal_strlit("id");
            reveal_strlit("raw");
        }
        let mut r: Vec<String> = Vec::new();
        r.push(String::from_str("id"));
        r.push(String::from_str("raw"));
        let n = self.db.columns.len();
        let mut i: usize = 0;
        while i < n
            invariant
                0 <= i <= n == self.db.columns@.len(),
                r@.len() == i + 2,
                r@[0]@ == "id"@ && r@[1]@ == "raw"@,
                forall|j: int| 0 <= j < i ==> r@[j + 2] == self.db.columns@[j],
            decreases n - i,
        {
            r.push(self.db.columns[i].clone());
            i = i + 1;
        }
        r
    }

    /// One row's column values, in schema column order: each configured
    /// column's path evaluated against the parsed line.
    fn build_row(&self, root: &JsonValue, line: &str, line_no: u64) -> (r: Vec<String>)
        ensures
            r@.len() == self.spec_columns().len(),
            forall|i: int| 0 <= i < r@.len() ==> r@[i]@ == col_value_spec(
                self.spec_fields(),
                self.spec_columns()[i]@,
                *root,
                line@,
                line_no as int,
            ),
    {
        let n = self.db.columns.len();
        let mut r: Vec<String> = Vec::new();
        let mut i: usize = 0;
        while i < n
            invariant
                0 <= i <= n == self.db.columns@.len(),
                r@.len() == i,
                forall|j: int| 0 <= j < i ==> r@[j]@ == col_value_spec(
                    self.config.fields@,
                    self.db.columns@[j]@,
                    *root,
                    line@,
                    line_no as int,
                ),
            decreases n - i,
        {
            let v = match find_path(&self.config.fields, self.db.columns[i].as_str()) {
                Some(path) => extract_field(root, path.as_str(), line, line_no),
                None => String::new(),
            };
            r.push(v);
            i = i + 1;
        }
        r
    }

    /// Flushes one accumulated batch inside one transaction, counting the
    /// rows flushed and the milliseconds spent in storage.
    fn flush_batch(
        &mut self,
        batch: &mut Vec<(String, Vec<String>)>,
        db_ms: &mut u64,
        inserted: &mut usize,
    ) -> (r: Result<(), DbError>)
        requires
            forall|i: int| 0 <= i < old(batch)@.len() ==> #[trigger] old(batch)@[i].1@.len() == old(
                self,
            ).spec_columns().len(),
            *old(inserted) + old(batch)@.len() <= usize::MAX,
        ensures
            final(self).spec_columns() == old(self).spec_columns(),
            final(self).spec_fields() == old(self).spec_fields(),
            r matches Ok(_) ==> final(batch)@.len() == 0 && *final(inserted) == *old(inserted)
                + old(batch)@.len(),
            r matches Err(e) ==> e matches DbError::Storage(_),
    {
        let t = now_millis();
        match self.db.insert_batch(batch) {
            Ok(_) => (),
            Err(e) => {
                return Err(e);
            },
        }
        *db_ms = db_ms.saturating_add(now_millis().saturating_sub(t));
        *inserted = *inserted + batch.len();
        batch.clear();
        Ok(())
    }

    /// Loads the given lines: blank lines are skipped; every other line
    /// is parsed as JSON (null on failure), extracted per configured
    /// column, and stored with its raw text, in batches of 1000 rows
    /// inside one transaction each; the full-text index is rebuilt once
    /// at the end. On success the row count equals the number of
    /// non-blank lines, and the read time is the total minus the storage
    /// time.
    pub fn load_lines(&mut self, lines: &Vec<String>) -> (r: Result<LoadStats, DbError>)
        ensures
            final(self).spec_columns() == old(self).spec_columns(),
            final(self).spec_fields() == old(self).spec_fields(),
            match r {
                Ok(st) => st.inserted_lines == nonblank_count(lines@) && st.read_duration == (
                if st.db_duration <= st.total_duration {
                    st.total_duration - st.db_duration
                } else {
                    0
                }) && st.db_duration >= st.fts_duration,
                Err(e) => e matches DbError::Storage(_),
            },
    {
        let t0 = now_millis();
        let mut batch: Vec<(String, Vec<String>)> = Vec::new();
        let mut inserted: usize = 0;
        let mut db_ms: u64 = 0;
        let n = lines.len();
        let mut idx: usize = 0;
        proof {
            assert(lines@.take(0) =~= Seq::<String>::empty());
        }
        while idx < n
            invariant
                0 <= idx <= n == lines@.len(),
                self.spec_columns() == old(self).spec_columns(),
                self.spec_fields() == old(self).spec_fields(),
                inserted + batch@.len() == nonblank_count(lines@.take(idx as int)),
                forall|i: int| 0 <= i < batch@.len() ==> #[trigger] batch@[i].1@.len()
                    == self.spec_columns().len(),
            decreases n - idx,
        {
            let line = &lines[idx];
            proof {
                lemma_nonblank_take_step(lines@, idx as int);
                lemma_nonblank_bounds(lines@.take(idx + 1));
            }
            if !is_blank(line.as_str()) {
                let root = parse_json_line(line.as_str());
                let line_no: u64 = (idx as u64) + 1;
                let row = self.build_row(&root, line.as_str(), line_no);
                batch.push((line.clone(), row));
                if batch.len() >= 1000 {
                    match self.flush_batch(&mut batch, &mut db_ms, &mut inserted) {
                        Ok(_) => (),
                        Err(e) => {
                            return Err(e);
                        },
                    }
                }
            }
            idx = idx + 1;
        }
        proof {
            assert(lines@.take(n as int) =~= lines@);
            lemma_nonblank_bounds(lines@);
        }
        if batch.len() > 0 {
            match self.flush_batch(&mut batch, &mut db_ms, &mut inserted) {
                Ok(_) => (),
                Err(e) => {
                    return Err(e);
                },
            }
        }
        let t_fts = now_millis();
        match self.db.rebuild_fts() {
            Ok(_) => (),
            Err(e) => {
                return Err(e);
            },
        }
        let fts_ms = now_millis().saturating_sub(t_fts);
        let db_total = db_ms.saturating_add(fts_ms);
        let total = now_millis().saturating_sub(t0);
        let read = total.saturating_sub(db_total);
        Ok(
            LoadStats {
                inserted_lines: inserted,
                total_duration: total,
                read_duration: read,
                db_duration: db_total,
                fts_duration: fts_ms,
            },
        )
    }

    /// Runs one SQL statement as given, rendering every value of the
    /// result as text and reporting the call's wall time; errors
    /// propagate unmodified. Every returned row has one value per
    /// returned column name.
    pub fn execute_query(&self, query: &str) -> (r: Result<QueryResult, DbError>)
        ensures
            match r {
                Ok(qr) => forall|i: int| 0 <= i < qr.rows@.len() ==> #[trigger] qr.rows@[i]@.len()
                    == qr.headers@.len(),
                Err(e) => e matches DbError::Storage(_),
            },
    {
        let t = now_millis();
        let (headers, cells) = match self.db.raw_query(query) {
            Ok(p) => p,
            Err(e) => {
                return Err(e);
            },
        };
        let m = cells.len();
        let mut rows: Vec<Vec<String>> = Vec::new();
        let mut i: usize = 0;
        while i < m
            invariant
                0 <= i <= m == cells@.len(),
                rows@.len() == i,
                forall|j: int| 0 <= j < cells@.len() ==> #[trigger] cells@[j]@.len()
                    == headers@.len(),
                forall|j: int| 0 <= j < i ==> #[trigger] rows@[j]@.len() == headers@.len(),
            decreases m - i,
        {
            let row = &cells[i];
            let k = row.len();
            let mut out: Vec<String> = Vec::new();
            let mut c: usize = 0;
            while c < k
                invariant
                    0 <= c <= k == row@.len(),
                    out@.len() == c,
                    forall|w: int| 0 <= w < c ==> #[trigger] out@[w]@ == cell_text(row@[w]),
                decreases k - c,
            {
                out.push(render_cell(&row[c]));
                c = c + 1;
            }
            rows.push(out);
            i = i + 1;
        }
        Ok(QueryResult { headers, rows, duration: now_millis().saturating_sub(t) })
    }
}


/// The full-text subquery of a listing: matches the escaped search text
/// as one exact phrase against the shadow index.
pub open spec fn fts_subquery_spec(fts: Seq<char>) -> Seq<char> {
    "id IN (SELECT rowid FROM logs_fts WHERE logs_fts MATCH '\""@ + fts_escaped(fts) + "\"')"@
}

/// The WHERE clause of a listing: the full-text subquery and the
/// caller's filter fragment (wrapped in parentheses, otherwise verbatim),
/// AND-combined when both are present, and empty when neither is.
pub open spec fn where_clause_spec(filter: Seq<char>, fts: Seq<char>) -> Seq<char> {
    if !spec_blank(fts) && !spec_blank(filter) {
        "WHERE "@ + fts_subquery_spec(fts) + " AND ("@ + filter + ")"@
    } else if !spec_blank(fts) {
        "WHERE "@ + fts_subquery_spec(fts)
    } else if !spec_blank(filter) {
        "WHERE ("@ + filter + ")"@
    } else {
        Seq::empty()
    }
}

/// Builds the WHERE clause for one listing.
pub fn build_where(filter: &str, fts: &str) -> (r: String)
    ensures
        r@ == where_clause_spec(filter@, fts@),
{
    proof {
        reveal_strlit("id IN (SELECT rowid FROM logs_fts WHERE logs_fts MATCH '\"");
        reveal_strlit("\"')");
        reveal_strlit("WHERE ");
        reveal_strlit(" AND (");
        reveal_strlit("WHERE (");
        reveal_strlit(")");
    }
    let has_fts = !is_blank(fts);
    let has_filter = !is_blank(filter);
    if has_fts {
        let mut r = String::from_str("WHERE ");
        r.append("id IN (SELECT rowid FROM logs_fts WHERE logs_fts MATCH '\"");
        r.append(escape_fts_phrase(fts).as_str());
        r.append("\"')");
        if has_filter {
            r.append(" AND (");
            r.append(filter);
            r.append(")");
        }
        r
    } else if has_filter {
        let mut r = String::from_str("WHERE (");
        r.append(filter);
        r.append(")");
        r
    } else {
        String::new()
    }
}

/// The statement that counts every row the WHERE clause admits.
pub open spec fn count_sql_spec(where_str: Seq<char>) -> Seq<char> {
    "SELECT COUNT(*) FROM logs "@ + where_str
}

/// The select list of a listing: every schema column except `raw`.
pub open spec fn select_cols_sql(cols: Seq<String>) -> Seq<char>
    decreases cols.len(),
{
    if cols.len() == 0 {
        Seq::empty()
    } else {
        select_cols_sql(cols.drop_last()) + ", "@ + cols.last()@
    }
}

/// The statement that selects one page of rows: identity and every
/// configured column, never `raw`, under the WHERE clause and the
/// caller's limit and offset.
pub open spec fn data_sql_spec(
    cols: Seq<String>,
    where_str: Seq<char>,
    limit: int,
    offset: int,
) -> Seq<char> {
    "SELECT id"@ + select_cols_sql(cols) + " FROM logs "@ + where_str + " LIMIT "@ + dec_str(limit)
        + " OFFSET "@ + dec_str(offset)
}

/// The count parsed from a count query's result: the first value of the
/// first row, zero when absent or malformed.
pub open spec fn count_of_result(qr: QueryResult) -> int {
    if qr.rows@.len() > 0 && qr.rows@[0]@.len() > 0 {
        parse_u32_spec(qr.rows@[0]@[0]@)
    } else {
        0
    }
}

/// Reads the total count out of a count query's result.
pub fn parse_count(qr: &QueryResult) -> (r: u32)
    ensures
        r as int == count_of_result(*qr),
{
    if qr.rows.len() > 0 && qr.rows[0].len() > 0 {
        parse_u32(qr.rows[0][0].as_str())
    } else {
        0
    }
}

/// The identity of one result row: the last value under a column named
/// `id`, parsed as a decimal number, zero when absent or malformed.
pub open spec fn row_id_spec(headers: Seq<String>, row: Seq<String>, k: int) -> int
    decreases k,
{
    if k <= 0 {
        0int
    } else if k - 1 < headers.len() && headers[k - 1]@ == "id"@ {
        parse_u32_spec(row[k - 1]@)
    } else {
        row_id_spec(headers, row, k - 1)
    }
}

/// The field map of one result row: every value that stands under a
/// named column other than `id`, paired with its column name, in order.
pub open spec fn row_fields_spec(headers: Seq<String>, row: Seq<String>, k: int) -> Seq<
    (String, String),
>
    decreases k,
{
    if k <= 0 {
        Seq::empty()
    } else if k - 1 < headers.len() && headers[k - 1]@ != "id"@ {
        row_fields_spec(headers, row, k - 1).push((headers[k - 1], row[k - 1]))
    } else {
        row_fields_spec(headers, row, k - 1)
    }
}

/// Turns rendered result rows into listed rows: per row, the `id` column
/// becomes the identity and every other named column lands in the field
/// map.
pub fn rows_to_logs(headers: &Vec<String>, rows: &Vec<Vec<String>>) -> (r: Vec<Log>)
    ensures
        r@.len() == rows@.len(),
        forall|i: int| 0 <= i < rows@.len() ==> #[trigger] r@[i].id as int == row_id_spec(
            headers@,
            rows@[i]@,
            rows@[i]@.len() as int,
        ) && r@[i].fields@ == row_fields_spec(headers@, rows@[i]@, rows@[i]@.len() as int),
{
    proof {
        reveal_strlit("id");
    }
    let m = rows.len();
    let nh = headers.len();
    let mut r: Vec<Log> = Vec::new();
    let mut i: usize = 0;
    while i < m
        invariant
            0 <= i <= m == rows@.len(),
            nh == headers@.len(),
            r@.len() == i,
            forall|j: int| 0 <= j < i ==> #[trigger] r@[j].id as int == row_id_spec(
                headers@,
                rows@[j]@,
                rows@[j]@.len() as int,
            ) && r@[j].fields@ == row_fields_spec(headers@, rows@[j]@, rows@[j]@.len() as int),
        decreases m - i,
    {
        let row = &rows[i];
        let k = row.len();
        let mut id: u32 = 0;
        let mut fields: Vec<(String, String)> = Vec::new();
        let mut c: usize = 0;
        while c < k
            invariant
                0 <= c <= k == row@.len(),
                nh == headers@.len(),
                id as int == row_id_spec(headers@, row@, c as int),
                fields@ == row_fields_spec(headers@, row@, c as int),
            decreases k - c,
        {
            if c < nh {
                if crate::text::str_eq(headers[c].as_str(), "id") {
                    id = parse_u32(row[c].as_str());
                } else {
                    fields.push((headers[c].clone(), row[c].clone()));
                }
            }
            c = c + 1;
        }
        r.push(Log { id, fields });
        i = i + 1;
    }
    r
}

/// The first value of the first row, if the result has one.
pub open spec fn first_cell_spec(qr: QueryResult) -> Option<String> {
    if qr.rows@.len() > 0 && qr.rows@[0]@.len() > 0 {
        Some(qr.rows@[0]@[0])
    } else {
        None
    }
}

/// Reads the first value of the first row out of a query result.
pub fn first_cell(qr: &QueryResult) -> (r: Option<String>)
    ensures
        r == first_cell_spec(*qr),
{
    if qr.rows.len() > 0 && qr.rows[0].len() > 0 {
        Some(qr.rows[0][0].clone())
    } else {
        None
    }
}

/// The values of the first result column, in row order; a row without
/// values yields the empty string.
pub fn first_column(rows: &Vec<Vec<String>>) -> (r: Vec<String>)
    ensures
        r@.len() == rows@.len(),
        forall|i: int| 0 <= i < rows@.len() ==> #[trigger] r@[i]@ == (if rows@[i]@.len() > 0 {
            rows@[i]@[0]@
        } else {
            Seq::<char>::empty()
        }),
{
    let m = rows.len();
    let mut r: Vec<String> = Vec::new();
    let mut i: usize = 0;
    while i < m
        invariant
            0 <= i <= m == rows@.len(),
            r@.len() == i,
            forall|j: int| 0 <= j < i ==> #[trigger] r@[j]@ == (if rows@[j]@.len() > 0 {
                rows@[j]@[0]@
            } else {
                Seq::<char>::empty()
            }),
        decreases m - i,
    {
        if rows[i].len() > 0 {
            r.push(rows[i][0].clone());
        } else {
            r.push(String::new());
        }
        i = i + 1;
    }
    r
}

/// The quoted identifier for one configured column name.
pub open spec fn quoted_ident_spec(field: Seq<char>) -> Seq<char> {
    "\""@ + field + "\""@
}

/// The statement behind one autocomplete lookup: distinct values of the
/// quoted column, optionally filtered by an escaped substring, in the
/// column's natural order, under the caller's limit and offset.
pub open spec fn distinct_sql_spec(
    field: Seq<char>,
    search: Seq<char>,
    limit: int,
    offset: int,
) -> Seq<char> {
    let q = quoted_ident_spec(field);
    let clause = if search.len() == 0 {
        Seq::<char>::empty()
    } else {
        "WHERE "@ + q + " LIKE '%"@ + doubled(search, '\'') + "%'"@
    };
    "SELECT DISTINCT "@ + q + " FROM logs "@ + clause + " ORDER BY "@ + q + " LIMIT "@ + dec_str(
        limit,
    ) + " OFFSET "@ + dec_str(offset)
}

/// The statement that fetches the raw text of one row by identity.
pub open spec fn detail_sql_spec(id: int) -> Seq<char> {
    "SELECT raw FROM logs WHERE id = "@ + dec_str(id)
}

/// Builds the one-row detail statement.
pub fn detail_query(id: u32) -> (r: String)
    ensures
        r@ == detail_sql_spec(id as int),
{
    proof {
        reveal_strlit("SELECT raw FROM logs WHERE id = ");
    }
    let mut sql = String::from_str("SELECT raw FROM logs WHERE id = ");
    sql.append(u32_to_dec(id).as_str());
    sql
}

/// Builds the autocomplete statement for one configured column.
pub fn distinct_query(field: &str, search: &str, limit: u32, offset: u32) -> (r: String)
    ensures
        r@ == distinct_sql_spec(field@, search@, limit as int, offset as int),
{
    proof {
        reveal_strlit("\"");
        reveal_strlit("SELECT DISTINCT ");
        reveal_strlit(" FROM logs ");
        reveal_strlit("WHERE ");
        reveal_strlit(" LIKE '%");
        reveal_strlit("%'");
        reveal_strlit(" ORDER BY ");
        reveal_strlit(" LIMIT ");
        reveal_strlit(" OFFSET ");
    }
    let mut quoted = String::from_str("\"");
    quoted.append(field);
    quoted.append("\"");
    proof {
        assert(quoted@ == quoted_ident_spec(field@));
    }
    let mut sql = String::from_str("SELECT DISTINCT ");
    sql.append(quoted.as_str());
    sql.append(" FROM logs ");
    if search.unicode_len() > 0 {
        sql.append("WHERE ");
        sql.append(quoted.as_str());
        sql.append(" LIKE '%");
        sql.append(escape_single_quotes(search).as_str());
        sql.append("%'");
    }
    sql.append(" ORDER BY ");
    sql.append(quoted.as_str());
    sql.append(" LIMIT ");
    sql.append(u32_to_dec(limit).as_str());
    sql.append(" OFFSET ");
    sql.append(u32_to_dec(offset).as_str());
    sql
}

impl Engine {
    /// Builds the two statements behind one listing: the count over the
    /// WHERE clause alone, and the page select over the same clause with
    /// the caller's limit and offset.
    pub fn list_queries(&self, filter_sql: &str, fts_query: &str, limit: u32, offset: u32) -> (r:
        (String, String))
        ensures
            r.0@ == count_sql_spec(where_clause_spec(filter_sql@, fts_query@)),
            r.1@ == data_sql_spec(
                self.spec_columns(),
                where_clause_spec(filter_sql@, fts_query@),
                limit as int,
                offset as int,
            ),
    {
        proof {
            reveal_strlit("SELECT COUNT(*) FROM logs ");
            reveal_strlit("SELECT id");
            reveal_strlit(", ");
            reveal_strlit(" FROM logs ");
            reveal_strlit(" LIMIT ");
            reveal_strlit(" OFFSET ");
        }
        let where_str = build_where(filter_sql, fts_query);
        let mut count_sql = String::from_str("SELECT COUNT(*) FROM logs ");
        count_sql.append(where_str.as_str());
        let mut data_sql = String::from_str("SELECT id");
        let n = self.db.columns.len();
        let ghost prefix = "SELECT id"@;
        let mut i: usize = 0;
        while i < n
            invariant
                0 <= i <= n == self.db.columns@.len(),
                data_sql@ == prefix + select_cols_sql(self.db.columns@.take(i as int)),
                prefix == "SELECT id"@,
            decreases n - i,
        {
            data_sql.append(", ");
            data_sql.append(self.db.columns[i].as_str());
            proof {
                assert(self.db.columns@.take(i + 1).drop_last() =~= self.db.columns@.take(i as int));
                assert(self.db.columns@.take(i + 1).last() == self.db.columns@[i as int]);
            }
            i = i + 1;
        }
        proof {
            assert(self.db.columns@.take(n as int) =~= self.db.columns@);
        }
        data_sql.append(" FROM logs ");
        data_sql.append(where_str.as_str());
        data_sql.append(" LIMIT ");
        data_sql.append(u32_to_dec(limit).as_str());
        data_sql.append(" OFFSET ");
        data_sql.append(u32_to_dec(offset).as_str());
        (count_sql, data_sql)
    }

    /// One page of rows under the caller's structured filter fragment
    /// (trusted, used verbatim) and full-text search text (escaped and
    /// matched as one phrase), with the total count over the same WHERE
    /// clause, computed without the page bounds.
    pub fn list(&self, filter_sql: &str, fts_query: &str, limit: u32, offset: u32) -> (r: Result<
        Logs,
        DbError,
    >)
        ensures
            r matches Err(e) ==> e matches DbError::Storage(_),
    {
        let (count_sql, data_sql) = self.list_queries(filter_sql, fts_query, limit, offset);
        let count_res = match self.execute_query(count_sql.as_str()) {
            Ok(qr) => qr,
            Err(e) => {
                return Err(e);
            },
        };
        let total_count = parse_count(&count_res);
        let data_res = match self.execute_query(data_sql.as_str()) {
            Ok(qr) => qr,
            Err(e) => {
                return Err(e);
            },
        };
        let logs = rows_to_logs(&data_res.headers, &data_res.rows);
        Ok(Logs { logs, total_count })
    }

    /// The raw text of exactly one row by identity, absent when no row
    /// has it.
    pub fn detail(&self, id: u32) -> (r: Result<Option<String>, DbError>)
        ensures
            r matches Err(e) ==> e matches DbError::Storage(_),
    {
        let sql = detail_query(id);
        match self.execute_query(sql.as_str()) {
            Ok(qr) => Ok(first_cell(&qr)),
            Err(e) => Err(e),
        }
    }

    /// Distinct values of one configured column for autocomplete,
    /// optionally filtered by substring, in the column's natural order.
    /// An empty field name yields an empty sequence without touching
    /// storage.
    pub fn distinct_values(&self, field: &str, search: &str, limit: u32, offset: u32) -> (r:
        Result<Vec<String>, DbError>)
        ensures
            field@.len() == 0 ==> (r matches Ok(v) && v@.len() == 0),
            r matches Err(e) ==> e matches DbError::Storage(_),
    {
        if field.unicode_len() == 0 {
            return Ok(Vec::new());
        }
        let sql = distinct_query(field, search, limit, offset);
        match self.execute_query(sql.as_str()) {
            Ok(qr) => Ok(first_column(&qr.rows)),
            Err(e) => Err(e),
        }
    }
}

} // verus!
