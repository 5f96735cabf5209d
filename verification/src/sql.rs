//! The statements the adapter issues, as functions of the metadata table
//! name, together with the validation that keeps that name a structural
//! identifier rather than raw text spliced into SQL.

use vstd::prelude::*;
use vstd::string::*;

verus! {

/// A character accepted in an unquoted identifier as used here: an ASCII
/// letter, a digit or an underscore.
pub open spec fn is_identifier_char(c: char) -> bool {
    let u = c as u32;
    (48 <= u && u <= 57) || (65 <= u && u <= 90) || (97 <= u && u <= 122) || u == 95
}

/// A safe metadata table name: nonempty, identifier characters only, and
/// not starting with a digit. Such a name cannot carry further SQL into
/// the statements below.
pub open spec fn is_valid_table_name(t: Seq<char>) -> bool {
    &&& t.len() > 0
    &&& (forall|i: int| 0 <= i < t.len() ==> is_identifier_char(t[i]))
    &&& !(48 <= t[0] as u32 && t[0] as u32 <= 57)
}

/// Decides `is_valid_table_name`.
pub fn check_table_name(t: &str) -> (b: bool)
    ensures
        b == is_valid_table_name(t@),
{
    let n = t.unicode_len();
    if n == 0 {
        return false;
    }
    let first = t.get_char(0) as u32;
    if 48 <= first && first <= 57 {
        return false;
    }
    let mut i: usize = 0;
    while i < n
        invariant
            n == t@.len(),
            0 <= i <= n,
            forall|j: int| 0 <= j < i ==> is_identifier_char(t@[j]),
        decreases n - i,
    {
        let u = t.get_char(i) as u32;
        if !((48 <= u && u <= 57) || (65 <= u && u <= 90) || (97 <= u && u <= 122) || u == 95) {
            return false;
        }
        i += 1;
    }
    true
}

/// The idempotent bootstrap statement for the metadata table `t`.
pub open spec fn create_table_stmt_of(t: Seq<char>) -> Seq<char> {
    "CREATE TABLE IF NOT EXISTS "@ + t + " (version BIGINT PRIMARY KEY);"@
}

/// The query for the maximum recorded version in `t`, at most one row.
pub open spec fn select_max_stmt_of(t: Seq<char>) -> Seq<char> {
    "SELECT version FROM "@ + t + " ORDER BY version DESC LIMIT 1;"@
}

/// The query for every recorded version in `t`, unordered.
pub open spec fn select_all_stmt_of(t: Seq<char>) -> Seq<char> {
    "SELECT version FROM "@ + t + ";"@
}

/// The insert of one version into `t`; the primary key makes a duplicate
/// fail.
pub open spec fn insert_stmt_of(t: Seq<char>) -> Seq<char> {
    "INSERT INTO "@ + t + " (version) VALUES ($1);"@
}

/// The delete of one version from `t`; an absent version affects no row.
pub open spec fn delete_stmt_of(t: Seq<char>) -> Seq<char> {
    "DELETE FROM "@ + t + " WHERE version = $1;"@
}

pub fn create_table_stmt(table: &str) -> (s: String)
    ensures
        s@ == create_table_stmt_of(table@),
{
    let mut s = String::from_str("CREATE TABLE IF NOT EXISTS ");
    s.append(table);
    s.append(" (version BIGINT PRIMARY KEY);");
    s
}

pub fn select_max_stmt(table: &str) -> (s: String)
    ensures
        s@ == select_max_stmt_of(table@),
{
    let mut s = String::from_str("SELECT version FROM ");
    s.append(table);
    s.append(" ORDER BY version DESC LIMIT 1;");
    s
}

pub fn select_all_stmt(table: &str) -> (s: String)
    ensures
        s@ == select_all_stmt_of(table@),
{
    let mut s = String::from_str("SELECT version FROM ");
    s.append(table);
    s.append(";");
    s
}

pub fn insert_stmt(table: &str) -> (s: String)
    ensures
        s@ == insert_stmt_of(table@),
{
    let mut s = String::from_str("INSERT INTO ");
    s.append(table);
    s.append(" (version) VALUES ($1);");
    s
}

pub fn delete_stmt(table: &str) -> (s: String)
    ensures
        s@ == delete_stmt_of(table@),
{
    let mut s = String::from_str("DELETE FROM ");
    s.append(table);
    s.append(" WHERE version = $1;");
    s
}

} // verus!
