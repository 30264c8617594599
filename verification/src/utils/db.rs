//! Statements for the storage engine, and what it may answer.

use vstd::prelude::*;
use vstd::string::StringExecFns;

verus! {

/// A value bound to a parameter of a statement.
#[derive(Debug)]
pub enum SqlValue {
    Text(String),
    Blob(Vec<u8>),
}

/// What a bound value is, as plain values.
pub ghost enum SqlValueView {
    Text(Seq<char>),
    Blob(Seq<u8>),
}

impl View for SqlValue {
    type V = SqlValueView;

    open spec fn view(&self) -> SqlValueView {
        match self {
            SqlValue::Text(t) => SqlValueView::Text(t@),
            SqlValue::Blob(b) => SqlValueView::Blob(b@),
        }
    }
}

/// A statement for the storage engine: its text, and the values bound to
/// its parameters `?1`, `?2`, ... in order.
#[derive(Debug)]
pub struct Statement {
    pub sql: String,
    pub params: Vec<SqlValue>,
}

/// What a statement is, as plain values.
pub ghost struct StatementView {
    pub sql: Seq<char>,
    pub params: Seq<SqlValueView>,
}

impl View for Statement {
    type V = StatementView;

    open spec fn view(&self) -> StatementView {
        StatementView { sql: self.sql@, params: self.params@.map_values(|p: SqlValue| p@) }
    }
}

/// The views of the statements of `s`.
pub open spec fn statements_view(s: Seq<Statement>) -> Seq<StatementView> {
    s.map_values(|t: Statement| t@)
}

/// Why the storage engine did not answer.
#[derive(Debug)]
pub enum StorageFailure {
    /// No connection could be had in time.
    Unavailable(String),
    /// The engine refused or failed the statement.
    Rejected(String),
}

/// What a lookup by key gave.
#[derive(Debug)]
pub enum Lookup<T> {
    Found(T),
    Missing,
    Failed(StorageFailure),
}

/// The statement that creates the table `table` unless it exists.
pub open spec fn create_table_sql(table: Seq<char>) -> Seq<char> {
    "CREATE TABLE IF NOT EXISTS "@ + table
        + " (key TEXT NOT NULL PRIMARY KEY, data BLOB NOT NULL, last_modified INTEGER NOT NULL DEFAULT (strftime('%s', 'now')), md5 TEXT(32) NOT NULL)"@
}

/// The statement that creates the trigger which refreshes the timestamp of
/// a row of `table` when the row is overwritten.
pub open spec fn create_trigger_sql(table: Seq<char>) -> Seq<char> {
    "CREATE TRIGGER IF NOT EXISTS update_"@ + table + "_timestamp AFTER UPDATE ON "@ + table
        + " BEGIN UPDATE "@ + table
        + " SET last_modified = strftime('%s', 'now') WHERE key = NEW.key; END;"@
}

/// The statement that creates the index on the keys of `table`.
pub open spec fn create_index_sql(table: Seq<char>) -> Seq<char> {
    "CREATE INDEX IF NOT EXISTS idx_"@ + table + "_key ON "@ + table + " (key)"@
}

/// The statement that inserts or replaces a row of `table`.
pub open spec fn put_sql(table: Seq<char>) -> Seq<char> {
    "INSERT INTO "@ + table
        + " (key, data, md5) VALUES (?1, ?2, ?3) ON CONFLICT(key) DO UPDATE SET data=excluded.data, md5=excluded.md5"@
}

/// The statement that reads the payload of one row of `table`.
pub open spec fn get_sql(table: Seq<char>) -> Seq<char> {
    "SELECT data FROM "@ + table + " WHERE key = ?1"@
}

/// The statement that removes one row of `table`.
pub open spec fn delete_sql(table: Seq<char>) -> Seq<char> {
    "DELETE FROM "@ + table + " WHERE key = ?1"@
}

/// The statement that reads size, timestamp and hash of one row of `table`.
pub open spec fn head_sql(table: Seq<char>) -> Seq<char> {
    "SELECT LENGTH(data), last_modified, md5 FROM "@ + table + " WHERE key = ?1"@
}

/// The statement that reads key, size, timestamp and hash of the rows of
/// `table` whose key matches a pattern, in the order of their keys.
pub open spec fn list_sql(table: Seq<char>) -> Seq<char> {
    "SELECT key, length(data), last_modified, md5 FROM "@ + table
        + " WHERE key LIKE ?1 ORDER BY key"@
}

/// The statement with text `sql` and no bound value.
pub open spec fn plain_statement(sql: Seq<char>) -> StatementView {
    StatementView { sql, params: Seq::empty() }
}

/// The statement with text `sql` and the one bound value `key`.
pub open spec fn keyed_statement(sql: Seq<char>, key: Seq<char>) -> StatementView {
    StatementView { sql, params: seq![SqlValueView::Text(key)] }
}

impl Statement {
    /// A statement with no bound value.
    pub fn plain(sql: String) -> (s: Statement)
        ensures
            s@ == plain_statement(sql@),
    {
        let s = Statement { sql, params: Vec::new() };
        assert(s@.params =~= Seq::empty());
        s
    }

    /// A statement with one bound text.
    pub fn keyed(sql: String, key: &str) -> (s: Statement)
        ensures
            s@ == keyed_statement(sql@, key@),
    {
        let mut params: Vec<SqlValue> = Vec::new();
        params.push(SqlValue::Text(String::from_str(key)));
        let s = Statement { sql, params };
        assert(s@.params =~= seq![SqlValueView::Text(key@)]);
        s
    }
}

/// `before`, then `table`, then `after`.
pub fn around(before: &str, table: &str, after: &str) -> (s: String)
    ensures
        s@ == before@ + table@ + after@,
{
    let mut s = String::from_str(before);
    s.append(table);
    s.append(after);
    s
}

/// The statement that creates the index on the keys of the table
/// `table_name`.
pub fn create_bucket_indexes(table_name: &str) -> (s: Statement)
    ensures
        s@ == plain_statement(create_index_sql(table_name@)),
{
    let mut sql = String::from_str("CREATE INDEX IF NOT EXISTS idx_");
    sql.append(table_name);
    sql.append("_key ON ");
    sql.append(table_name);
    sql.append(" (key)");
    Statement::plain(sql)
}

/// The statements of one round of maintenance: reclaim unused space, then
/// refresh the statistics.
pub fn optimize_database() -> (s: Vec<Statement>)
    ensures
        statements_view(s@) == seq![plain_statement("VACUUM"@), plain_statement("ANALYZE"@)],
{
    let mut s: Vec<Statement> = Vec::new();
    s.push(Statement::plain(String::from_str("VACUUM")));
    s.push(Statement::plain(String::from_str("ANALYZE")));
    assert(statements_view(s@) =~= seq![plain_statement("VACUUM"@), plain_statement("ANALYZE"@)]);
    s
}

} // verus!
