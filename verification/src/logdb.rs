//! The persistent log store: every captured output line is a row of an
//! SQLite table (`logs`), read back newest-first in pages, searched with a
//! `LIKE` pattern and optionally by stream, and pruned by age.
use vstd::prelude::*;
use rusqlite::{Connection, Row, Rows, Statement};
use crate::config::{join_path, mso_dir};
use crate::ids::{uuid_text, uuid_text_spec};
use crate::protocol::{LineView, ProcessId, StreamKind, TimestampedLine};
use crate::text::push_str;
use crate::vecs::{vec_pop, vec_push};

verus! {

#[verifier::external_type_specification]
#[verifier::external_body]
pub struct ExConnection(rusqlite::Connection);

#[verifier::external_type_specification]
#[verifier::external_body]
pub struct ExStatement<'conn>(rusqlite::Statement<'conn>);

#[verifier::external_type_specification]
#[verifier::external_body]
pub struct ExRows<'stmt>(rusqlite::Rows<'stmt>);

#[verifier::external_type_specification]
#[verifier::external_body]
pub struct ExRow<'stmt>(rusqlite::Row<'stmt>);

#[verifier::external_type_specification]
#[verifier::external_body]
pub struct ExSqlError(rusqlite::Error);

/// A value bound to a statement parameter.
#[derive(Debug, Clone)]
pub enum SqlArg {
    Int(i64),
    /// An unsigned value, which SQLite stores only up to `i64::MAX`.
    Unsigned(u64),
    Text(String),
}

/// Whether binding the arguments fails: an unsigned value beyond
/// `i64::MAX` has no SQLite integer.
pub open spec fn unbindable(args: Seq<SqlArg>) -> bool {
    exists|i: int| 0 <= i < args.len() && (#[trigger] args[i] matches SqlArg::Unsigned(u) && u > i64::MAX)
}

/// `Connection::open`.
#[verifier::external_body]
fn sql_open(path: &str) -> (r: Result<Connection, rusqlite::Error>) {
    Connection::open(path)
}

/// `Connection::open_in_memory`.
#[verifier::external_body]
fn sql_open_in_memory() -> (r: Result<Connection, rusqlite::Error>) {
    Connection::open_in_memory()
}

/// `Connection::execute_batch`.
#[verifier::external_body]
fn sql_execute_batch(conn: &Connection, sql: &str) -> (r: Result<(), rusqlite::Error>) {
    conn.execute_batch(sql)
}

/// `Connection::execute` with the arguments bound in order. Binding an
/// unsigned value beyond `i64::MAX` fails (rusqlite's `ToSql` for `u64`),
/// so the statement does not run. What else it returns (the number of rows
/// changed, or an SQLite error) is the database's and is not stated.
#[verifier::external_body]
fn sql_execute(conn: &Connection, sql: &str, args: &Vec<SqlArg>) -> (r: Result<usize, rusqlite::Error>)
    ensures
        unbindable(args@) ==> r is Err,
{
    let values: Vec<Box<dyn rusqlite::ToSql>> = args.iter().map(|a| -> Box<dyn rusqlite::ToSql> {
        match a {
            SqlArg::Int(i) => Box::new(*i),
            SqlArg::Unsigned(u) => Box::new(*u),
            SqlArg::Text(s) => Box::new(s.clone()),
        }
    }).collect();
    conn.execute(sql, rusqlite::params_from_iter(values))
}

/// `Connection::prepare`.
#[verifier::external_body]
fn sql_prepare<'c>(conn: &'c Connection, sql: &str) -> (r: Result<Statement<'c>, rusqlite::Error>) {
    conn.prepare(sql)
}

/// `Statement::query` with the arguments bound in order.
#[verifier::external_body]
fn sql_query<'s>(stmt: &'s mut Statement<'_>, args: &Vec<SqlArg>) -> (r: Result<Rows<'s>, rusqlite::Error>) {
    let values: Vec<Box<dyn rusqlite::ToSql>> = args.iter().map(|a| -> Box<dyn rusqlite::ToSql> {
        match a {
            SqlArg::Int(i) => Box::new(*i),
            SqlArg::Unsigned(u) => Box::new(*u),
            SqlArg::Text(s) => Box::new(s.clone()),
        }
    }).collect();
    stmt.query(rusqlite::params_from_iter(values))
}

/// `Rows::next`: the next result row, `None` once they are exhausted.
#[verifier::external_body]
fn sql_next<'r, 's>(rows: &'r mut Rows<'s>) -> (r: Result<Option<&'r Row<'s>>, rusqlite::Error>) {
    rows.next()
}

/// `Row::get::<usize, i64>`: an integer column.
#[verifier::external_body]
fn sql_get_int(row: &Row<'_>, idx: usize) -> (r: Result<i64, rusqlite::Error>) {
    row.get::<usize, i64>(idx)
}

/// `Row::get::<usize, String>`: a text column.
#[verifier::external_body]
fn sql_get_text(row: &Row<'_>, idx: usize) -> (r: Result<String, rusqlite::Error>) {
    row.get::<usize, String>(idx)
}

/// The text of an SQLite error (`to_string`).
#[verifier::external_body]
fn sql_error_text(e: &rusqlite::Error) -> (r: String) {
    e.to_string()
}

/// Why a log store operation failed.
#[derive(Debug, Clone)]
pub struct LogDbError {
    pub message: String,
}

fn store_error(e: rusqlite::Error) -> LogDbError {
    LogDbError { message: sql_error_text(&e) }
}

/// The table and index the store keeps its rows in.
pub const LOG_SCHEMA: &'static str = "CREATE TABLE IF NOT EXISTS logs (
                id INTEGER PRIMARY KEY AUTOINCREMENT,
                process_id TEXT NOT NULL,
                stream INTEGER NOT NULL,
                line TEXT NOT NULL,
                timestamp INTEGER NOT NULL
            );
            CREATE INDEX IF NOT EXISTS idx_logs_pid ON logs(process_id);";

/// A statement and the arguments bound to its parameters, in order.
#[derive(Debug, Clone)]
pub struct SqlCall {
    pub sql: &'static str,
    pub args: Vec<SqlArg>,
}

/// The value of a bound argument.
pub enum ArgView {
    Int(i64),
    Unsigned(u64),
    Text(Seq<char>),
}

pub open spec fn arg_view(a: SqlArg) -> ArgView {
    match a {
        SqlArg::Int(i) => ArgView::Int(i),
        SqlArg::Unsigned(u) => ArgView::Unsigned(u),
        SqlArg::Text(s) => ArgView::Text(s@),
    }
}

pub open spec fn args_view(v: Seq<SqlArg>) -> Seq<ArgView> {
    Seq::new(v.len(), |i: int| arg_view(v[i]))
}

fn text_arg(s: String) -> (a: SqlArg)
    ensures
        arg_view(a) == ArgView::Text(s@),
{
    SqlArg::Text(s)
}

/// The statement that stores one line.
pub fn insert_call(process_id: ProcessId, stream: i32, line: &str, timestamp: u64) -> (c: SqlCall)
    ensures
        c.sql@ == "INSERT INTO logs (process_id, stream, line, timestamp) VALUES (?1, ?2, ?3, ?4)"@,
        args_view(c.args@) == seq![
            ArgView::Text(uuid_text_spec(process_id)),
            ArgView::Int(stream as i64),
            ArgView::Text(line@),
            ArgView::Unsigned(timestamp),
        ],
{
    let mut args: Vec<SqlArg> = Vec::new();
    args.push(text_arg(uuid_text(process_id)));
    args.push(SqlArg::Int(stream as i64));
    args.push(text_arg(String::from_str(line)));
    args.push(SqlArg::Unsigned(timestamp));
    let c = SqlCall { sql: "INSERT INTO logs (process_id, stream, line, timestamp) VALUES (?1, ?2, ?3, ?4)", args };
    assert(args_view(c.args@) =~= seq![
        ArgView::Text(uuid_text_spec(process_id)),
        ArgView::Int(stream as i64),
        ArgView::Text(line@),
        ArgView::Unsigned(timestamp),
    ]);
    c
}

/// The count and page statements of `get_logs`: the process's rows, and
/// `limit` of them newest first after skipping `offset`.
pub fn logs_calls(process_id: ProcessId, offset: usize, limit: usize) -> (r: (SqlCall, SqlCall))
    ensures
        r.0.sql@ == "SELECT COUNT(*) FROM logs WHERE process_id = ?1"@,
        args_view(r.0.args@) == seq![ArgView::Text(uuid_text_spec(process_id))],
        r.1.sql@ == "SELECT line, timestamp FROM logs WHERE process_id = ?1 ORDER BY id DESC LIMIT ?2 OFFSET ?3"@,
        args_view(r.1.args@) == seq![
            ArgView::Text(uuid_text_spec(process_id)),
            ArgView::Int(limit as i64),
            ArgView::Int(offset as i64),
        ],
{
    let pid = uuid_text(process_id);
    let mut count_args: Vec<SqlArg> = Vec::new();
    count_args.push(text_arg(pid.clone()));
    let mut args: Vec<SqlArg> = Vec::new();
    args.push(text_arg(pid));
    args.push(SqlArg::Int(limit as i64));
    args.push(SqlArg::Int(offset as i64));
    let count = SqlCall { sql: "SELECT COUNT(*) FROM logs WHERE process_id = ?1", args: count_args };
    let page = SqlCall {
        sql: "SELECT line, timestamp FROM logs WHERE process_id = ?1 ORDER BY id DESC LIMIT ?2 OFFSET ?3",
        args,
    };
    assert(args_view(count.args@) =~= seq![ArgView::Text(uuid_text_spec(process_id))]);
    assert(args_view(page.args@) =~= seq![
        ArgView::Text(uuid_text_spec(process_id)),
        ArgView::Int(limit as i64),
        ArgView::Int(offset as i64),
    ]);
    (count, page)
}

/// The count and page statements of `search_logs`: like `logs_calls`,
/// over the lines matching the `LIKE` pattern, and of one stream when
/// `stream` is given.
pub fn search_calls(process_id: ProcessId, query: &str, stream: Option<StreamKind>, offset: usize, limit: usize) -> (r: (SqlCall, SqlCall))
    ensures
        ({
            let pid = ArgView::Text(uuid_text_spec(process_id));
            let like = ArgView::Text(like_pattern_spec(query@));
            match stream {
                Some(s) => {
                    let code = ArgView::Int((match s { StreamKind::Stdout => 0i32, StreamKind::Stderr => 1i32 }) as i64);
                    &&& r.0.sql@ == "SELECT COUNT(*) FROM logs WHERE process_id = ?1 AND line LIKE ?2 AND stream = ?3"@
                    &&& args_view(r.0.args@) == seq![pid, like, code]
                    &&& r.1.sql@ == "SELECT line, timestamp FROM logs WHERE process_id = ?1 AND line LIKE ?2 AND stream = ?3 ORDER BY id DESC LIMIT ?4 OFFSET ?5"@
                    &&& args_view(r.1.args@) == seq![pid, like, code, ArgView::Int(limit as i64), ArgView::Int(offset as i64)]
                },
                None => {
                    &&& r.0.sql@ == "SELECT COUNT(*) FROM logs WHERE process_id = ?1 AND line LIKE ?2"@
                    &&& args_view(r.0.args@) == seq![pid, like]
                    &&& r.1.sql@ == "SELECT line, timestamp FROM logs WHERE process_id = ?1 AND line LIKE ?2 ORDER BY id DESC LIMIT ?3 OFFSET ?4"@
                    &&& args_view(r.1.args@) == seq![pid, like, ArgView::Int(limit as i64), ArgView::Int(offset as i64)]
                },
            }
        }),
{
    let like = like_pattern(query);
    let pid = uuid_text(process_id);
    let mut count_args: Vec<SqlArg> = Vec::new();
    count_args.push(text_arg(pid.clone()));
    count_args.push(text_arg(like.clone()));
    let mut args: Vec<SqlArg> = Vec::new();
    args.push(text_arg(pid));
    args.push(text_arg(like));
    match stream {
        Some(s) => {
            count_args.push(SqlArg::Int(s.code() as i64));
            args.push(SqlArg::Int(s.code() as i64));
            args.push(SqlArg::Int(limit as i64));
            args.push(SqlArg::Int(offset as i64));
            let count = SqlCall {
                sql: "SELECT COUNT(*) FROM logs WHERE process_id = ?1 AND line LIKE ?2 AND stream = ?3",
                args: count_args,
            };
            let page = SqlCall {
                sql: "SELECT line, timestamp FROM logs WHERE process_id = ?1 AND line LIKE ?2 AND stream = ?3 ORDER BY id DESC LIMIT ?4 OFFSET ?5",
                args,
            };
            let ghost code = ArgView::Int((match s { StreamKind::Stdout => 0i32, StreamKind::Stderr => 1i32 }) as i64);
            assert(args_view(count.args@) =~= seq![ArgView::Text(uuid_text_spec(process_id)), ArgView::Text(like_pattern_spec(query@)), code]);
            assert(args_view(page.args@) =~= seq![
                ArgView::Text(uuid_text_spec(process_id)),
                ArgView::Text(like_pattern_spec(query@)),
                code,
                ArgView::Int(limit as i64),
                ArgView::Int(offset as i64),
            ]);
            (count, page)
        },
        None => {
            args.push(SqlArg::Int(limit as i64));
            args.push(SqlArg::Int(offset as i64));
            let count = SqlCall { sql: "SELECT COUNT(*) FROM logs WHERE process_id = ?1 AND line LIKE ?2", args: count_args };
            let page = SqlCall {
                sql: "SELECT line, timestamp FROM logs WHERE process_id = ?1 AND line LIKE ?2 ORDER BY id DESC LIMIT ?3 OFFSET ?4",
                args,
            };
            assert(args_view(count.args@) =~= seq![ArgView::Text(uuid_text_spec(process_id)), ArgView::Text(like_pattern_spec(query@))]);
            assert(args_view(page.args@) =~= seq![
                ArgView::Text(uuid_text_spec(process_id)),
                ArgView::Text(like_pattern_spec(query@)),
                ArgView::Int(limit as i64),
                ArgView::Int(offset as i64),
            ]);
            (count, page)
        },
    }
}

/// The statement of `prune_before`: the rows older than the cut-off, of
/// one process or of all.
pub fn prune_call(older_than_epoch: u64, process_id: Option<ProcessId>) -> (c: SqlCall)
    ensures
        match process_id {
            Some(pid) => c.sql@ == "DELETE FROM logs WHERE process_id = ?1 AND timestamp < ?2"@
                && args_view(c.args@) == seq![ArgView::Text(uuid_text_spec(pid)), ArgView::Int(older_than_epoch as i64)],
            None => c.sql@ == "DELETE FROM logs WHERE timestamp < ?1"@
                && args_view(c.args@) == seq![ArgView::Int(older_than_epoch as i64)],
        },
{
    let mut args: Vec<SqlArg> = Vec::new();
    match process_id {
        Some(pid) => {
            args.push(text_arg(uuid_text(pid)));
            args.push(SqlArg::Int(older_than_epoch as i64));
            let c = SqlCall { sql: "DELETE FROM logs WHERE process_id = ?1 AND timestamp < ?2", args };
            assert(args_view(c.args@) =~= seq![ArgView::Text(uuid_text_spec(pid)), ArgView::Int(older_than_epoch as i64)]);
            c
        },
        None => {
            args.push(SqlArg::Int(older_than_epoch as i64));
            let c = SqlCall { sql: "DELETE FROM logs WHERE timestamp < ?1", args };
            assert(args_view(c.args@) =~= seq![ArgView::Int(older_than_epoch as i64)]);
            c
        },
    }
}

/// The `LIKE` pattern of a search: the query anywhere in the line.
pub open spec fn like_pattern_spec(query: Seq<char>) -> Seq<char> {
    "%"@ + query + "%"@
}

pub fn like_pattern(query: &str) -> (r: String)
    ensures
        r@ == like_pattern_spec(query@),
{
    let mut r = String::new();
    push_str(&mut r, "%");
    push_str(&mut r, query);
    push_str(&mut r, "%");
    assert(r@ =~= like_pattern_spec(query@));
    r
}

/// The total a count query reports: its value as a `usize`, 0 when the
/// query failed.
pub fn count_value(c: Option<i64>) -> (r: usize)
    ensures
        r == match c {
            Some(v) => v as usize,
            None => 0usize,
        },
{
    match c {
        Some(v) => v as usize,
        None => 0,
    }
}

/// The lines of the rows that read, in the order the rows came.
pub open spec fn readable(rows: Seq<Option<LineView>>) -> Seq<LineView>
    decreases rows.len(),
{
    if rows.len() == 0 {
        seq![]
    } else {
        let rest = readable(rows.drop_last());
        match rows.last() {
            Some(l) => rest.push(l),
            None => rest,
        }
    }
}

/// A page from the rows of its query, read newest first (`None` for a row
/// whose columns did not read): the rows that read, oldest first.
pub fn page_lines(rows: Vec<Option<TimestampedLine>>) -> (r: Vec<TimestampedLine>)
    ensures
        r.deep_view() == readable(rows.deep_view()).reverse(),
        r.len() <= rows.len(),
{
    let ghost rv = rows.deep_view();
    let mut rows = rows;
    let mut r: Vec<TimestampedLine> = Vec::new();
    assert(r.deep_view() + readable(rows.deep_view()).reverse() =~= readable(rv).reverse());
    while rows.len() > 0
        invariant
            r.deep_view() + readable(rows.deep_view()).reverse() == readable(rv).reverse(),
            r.len() + rows.len() <= rv.len(),
        decreases rows.len(),
    {
        let ghost before = rows.deep_view();
        let ghost r_before = r.deep_view();
        let x = vec_pop(&mut rows);
        proof {
            assert(rows.deep_view() == before.drop_last());
            assert(before.last() == x->0.deep_view());
        }
        match x {
            Some(Some(l)) => {
                vec_push(&mut r, l);
                proof {
                    let rest = readable(before.drop_last());
                    assert(readable(before) == rest.push(l.deep_view()));
                    assert(rest.push(l.deep_view()).reverse() =~= seq![l.deep_view()] + rest.reverse());
                    assert(r.deep_view() + rest.reverse() =~= r_before + (seq![l.deep_view()] + rest.reverse()));
                }
            },
            _ => {
                proof {
                    assert(readable(before) == readable(before.drop_last()));
                }
            },
        }
    }
    assert(readable(rows.deep_view()) =~= Seq::<LineView>::empty());
    assert(r.deep_view() =~= r.deep_view() + readable(rows.deep_view()).reverse());
    r
}

/// A row's line and timestamp, when both columns read.
fn row_line(row: &Row<'_>) -> (r: Option<TimestampedLine>) {
    let line = match sql_get_text(row, 0) {
        Ok(s) => s,
        Err(_) => return None,
    };
    match sql_get_int(row, 1) {
        Ok(ts) => Some(TimestampedLine { timestamp: ts as u64, line }),
        Err(_) => None,
    }
}

/// An open log store.
pub struct LogDb {
    conn: Connection,
}

impl LogDb {
    /// Creates the table and index on `conn` when they are missing; on
    /// success the store is kept on that same connection.
    fn with_schema(conn: Connection) -> (r: Result<LogDb, LogDbError>)
        ensures
            r matches Ok(db) ==> db.conn == conn,
    {
        match sql_execute_batch(&conn, LOG_SCHEMA) {
            Ok(()) => Ok(LogDb { conn }),
            Err(e) => Err(store_error(e)),
        }
    }

    /// The store in `logs.db` under `~/.mso`, which must exist.
    pub fn open() -> (r: Result<LogDb, LogDbError>) {
        let path = join_path(&mso_dir(), "logs.db");
        match sql_open(path.as_str()) {
            Ok(conn) => LogDb::with_schema(conn),
            Err(e) => Err(store_error(e)),
        }
    }

    /// A store kept in memory.
    pub fn open_in_memory() -> (r: Result<LogDb, LogDbError>) {
        match sql_open_in_memory() {
            Ok(conn) => LogDb::with_schema(conn),
            Err(e) => Err(store_error(e)),
        }
    }

    /// Stores one line of a process's output; `stream` is the stream's
    /// code. A timestamp beyond `i64::MAX` cannot be stored.
    pub fn insert(&self, process_id: ProcessId, stream: i32, line: &str, timestamp: u64) -> (r: Result<(), LogDbError>)
        ensures
            timestamp > i64::MAX ==> r is Err,
    {
        let call = insert_call(process_id, stream, line, timestamp);
        proof {
            if timestamp > i64::MAX {
                let av = args_view(call.args@);
                assert(av.len() == 4);
                assert(call.args@.len() == 4);
                assert(av[3] == arg_view(call.args@[3]));
                assert(arg_view(call.args@[3]) == ArgView::Unsigned(timestamp));
                assert(call.args@[3] matches SqlArg::Unsigned(u) && u > i64::MAX);
            }
        }
        match sql_execute(&self.conn, call.sql, &call.args) {
            Ok(_) => Ok(()),
            Err(e) => Err(store_error(e)),
        }
    }

    /// The single integer a count query returns; 0 when any step fails.
    fn count(&self, call: &SqlCall) -> (r: usize) {
        let mut stmt = match sql_prepare(&self.conn, call.sql) {
            Ok(s) => s,
            Err(_) => return 0,
        };
        let mut rows = match sql_query(&mut stmt, &call.args) {
            Ok(r) => r,
            Err(_) => return 0,
        };
        let c = match sql_next(&mut rows) {
            Ok(Some(row)) => match sql_get_int(row, 0) {
                Ok(v) => Some(v),
                Err(_) => None,
            },
            _ => None,
        };
        count_value(c)
    }

    /// The lines of a page query (which asks for at most `limit` rows):
    /// the rows are read newest first, and `page_lines` keeps those whose
    /// columns read, oldest first.
    fn page(&self, call: &SqlCall, limit: usize) -> (r: Result<Vec<TimestampedLine>, LogDbError>)
        ensures
            r matches Ok(v) ==> v.len() <= limit,
    {
        let mut stmt = match sql_prepare(&self.conn, call.sql) {
            Ok(s) => s,
            Err(e) => return Err(store_error(e)),
        };
        let mut rows = match sql_query(&mut stmt, &call.args) {
            Ok(r) => r,
            Err(e) => return Err(store_error(e)),
        };
        let mut newest_first: Vec<Option<TimestampedLine>> = Vec::new();
        while newest_first.len() < limit
            invariant
                newest_first.len() <= limit,
            decreases limit - newest_first.len(),
        {
            let next = match sql_next(&mut rows) {
                Ok(Some(row)) => Some(row_line(row)),
                _ => None,
            };
            match next {
                Some(l) => newest_first.push(l),
                None => break,
            }
        }
        Ok(page_lines(newest_first))
    }

    /// A page of a process's stored lines: skipping the `offset` newest,
    /// at most `limit` of the next, oldest first; with the number of lines
    /// stored for the process (the statements are `logs_calls`).
    pub fn get_logs(&self, process_id: ProcessId, offset: usize, limit: usize) -> (r: Result<(Vec<TimestampedLine>, usize), LogDbError>)
        ensures
            r matches Ok((logs, _)) ==> logs.len() <= limit,
    {
        let (count, page) = logs_calls(process_id, offset, limit);
        let total = self.count(&count);
        match self.page(&page, limit) {
            Ok(logs) => Ok((logs, total)),
            Err(e) => Err(e),
        }
    }

    /// Like `get_logs`, over the lines containing `query` (an SQL `LIKE`
    /// match, so `%` and `_` in it are wildcards), of one stream when
    /// `stream` is given (the statements are `search_calls`).
    pub fn search_logs(&self, process_id: ProcessId, query: &str, stream: Option<StreamKind>, offset: usize, limit: usize) -> (r: Result<(Vec<TimestampedLine>, usize), LogDbError>)
        ensures
            r matches Ok((logs, _)) ==> logs.len() <= limit,
    {
        let (count, page) = search_calls(process_id, query, stream, offset, limit);
        let total = self.count(&count);
        match self.page(&page, limit) {
            Ok(logs) => Ok((logs, total)),
            Err(e) => Err(e),
        }
    }

    /// Deletes the stored lines older than `older_than_epoch` (millis), of
    /// one process or of all; returns how many were deleted (the statement
    /// is `prune_call`).
    pub fn prune_before(&self, older_than_epoch: u64, process_id: Option<ProcessId>) -> (r: Result<usize, LogDbError>) {
        let call = prune_call(older_than_epoch, process_id);
        match sql_execute(&self.conn, call.sql, &call.args) {
            Ok(n) => Ok(n),
            Err(e) => Err(store_error(e)),
        }
    }
}

} // verus!
