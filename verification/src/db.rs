//! The snapshot rebuild statement. The ingester holds the hot database
//! read-write under an exclusive lock, so readers use a snapshot copy that
//! the ingester rewrites from its own connection.

use vstd::prelude::*;
use crate::text::{push_sql_quote_escaped, sql_quote_escaped};

verus! {

/// Before the snapshot path.
pub const SNAPSHOT_SQL_HEAD: &'static str = "ATTACH '";

/// After the snapshot path: copy both tables, then detach.
pub const SNAPSHOT_SQL_TAIL: &'static str = "' AS snap;
         CREATE OR REPLACE TABLE snap.new_tokens AS SELECT * FROM new_tokens;
         CREATE OR REPLACE TABLE snap.trades AS SELECT * FROM trades;
         DETACH snap;";

/// The statements that copy both tables into the database file at `path`:
/// the path is written as an SQL string literal, its single quotes doubled
/// (a path may hold one, and an unescaped one would make the attach fail).
pub open spec fn snapshot_sql_spec(path: Seq<char>) -> Seq<char> {
    SNAPSHOT_SQL_HEAD@ + sql_quote_escaped(path) + SNAPSHOT_SQL_TAIL@
}

/// The snapshot statements for the file at `path`.
pub fn snapshot_sql(path: &str) -> (sql: String)
    ensures
        sql@ == snapshot_sql_spec(path@),
{
    let mut sql = String::from_str(SNAPSHOT_SQL_HEAD);
    push_sql_quote_escaped(&mut sql, path);
    sql.append(SNAPSHOT_SQL_TAIL);
    sql
}

} // verus!
