//! The tracking table: one row for each unit that is applied, with the
//! unit's name as its key and the time at which the row was made.
//!
//! The table's name is reserved. The statements here are all that ever
//! touches it; where one has a parameter, it is the unit's name.

use vstd::prelude::*;

verus! {

/// Creates the tracking table unless it is there.
pub fn schema_sql() -> (sql: &'static str)
    ensures
        sql@
            == "CREATE TABLE IF NOT EXISTS _migrations (name VARCHAR PRIMARY KEY, created_at TIMESTAMP NOT NULL DEFAULT NOW())"@,
{
    "CREATE TABLE IF NOT EXISTS _migrations (name VARCHAR PRIMARY KEY, created_at TIMESTAMP NOT NULL DEFAULT NOW())"
}

/// Asks whether the unit named by the parameter has a row.
pub fn exists_sql() -> (sql: &'static str)
    ensures
        sql@ == "SELECT EXISTS (SELECT 1 FROM _migrations WHERE name = $1)"@,
{
    "SELECT EXISTS (SELECT 1 FROM _migrations WHERE name = $1)"
}

/// Makes the row of the unit named by the parameter. It fails where the
/// unit has a row already.
pub fn record_sql() -> (sql: &'static str)
    ensures
        sql@ == "INSERT INTO _migrations (name) VALUES ($1)"@,
{
    "INSERT INTO _migrations (name) VALUES ($1)"
}

/// Removes the row of the unit named by the parameter, if it has one.
pub fn unrecord_sql() -> (sql: &'static str)
    ensures
        sql@ == "DELETE FROM _migrations WHERE name = $1"@,
{
    "DELETE FROM _migrations WHERE name = $1"
}

} // verus!
