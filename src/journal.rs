use vstd::prelude::*;
use crate::calendar::{is_local_day, local_day_in, LocalTimeZone};
use crate::entry::Entry;
use crate::temporal::{is_past_entries, is_today_entry, past_entries, today_entry};

verus! {

#[verifier::external_type_specification]
#[verifier::external_body]
pub struct ExConnection(rusqlite::Connection);

#[verifier::external_type_specification]
#[verifier::external_body]
pub struct ExSqliteError(rusqlite::Error);

/// Why a journal operation failed.
#[derive(Clone, Copy, Debug, PartialEq, Eq, Structural)]
pub enum JournalError {
    /// The database could not be opened, read or written.
    StorageUnavailable,
    /// A time that cannot be stored or placed on a local day: a stored time
    /// below zero, a time past `i64::MAX`, or one for which the time zone
    /// gives no offset strictly within a day.
    InvalidTimestamp,
}

/// `days[i]` is a local day of entry `i`, under an offset strictly within a day.
pub open spec fn are_local_days(s: Seq<Entry>, days: Seq<i64>) -> bool {
    &&& days.len() == s.len()
    &&& forall|i: int| 0 <= i < s.len() ==> is_local_day(#[trigger] s[i].time as int, days[i])
}

/// Access to the entries of a journal, seen from the instant `now` in a time
/// zone.
pub trait Journal {
    /// The latest entry of each local day before the local day of `now`,
    /// newest first.
    fn get_past_entries<Z: LocalTimeZone>(&self, now: u64, zone: &Z) -> (r: Result<Vec<Entry>, JournalError>)
        ensures
            r matches Err(e) ==> e == JournalError::StorageUnavailable || e
                == JournalError::InvalidTimestamp,
            r matches Ok(v) ==> exists|s: Seq<Entry>, days: Seq<i64>, today: i64|
                are_local_days(s, days) && is_local_day(now as int, today)
                    && #[trigger] is_past_entries(s, days, today, v@),
    ;

    /// The latest entry of the local day of `now`, if it has one.
    fn get_today_entry<Z: LocalTimeZone>(&self, now: u64, zone: &Z) -> (r: Result<Option<Entry>, JournalError>)
        ensures
            r matches Err(e) ==> e == JournalError::StorageUnavailable || e
                == JournalError::InvalidTimestamp,
            r matches Ok(e) ==> exists|s: Seq<Entry>, days: Seq<i64>, today: i64|
                are_local_days(s, days) && is_local_day(now as int, today)
                    && #[trigger] is_today_entry(s, days, today, e),
    ;

    /// Appends one entry.
    fn store_new_entry(&self, entry: Entry) -> (r: Result<(), JournalError>)
        ensures
            entry.time > i64::MAX ==> r == Err::<(), JournalError>(JournalError::InvalidTimestamp),
            entry.time <= i64::MAX ==> (r matches Err(e) ==> e == JournalError::StorageUnavailable),
    ;
}

/// The local day of each entry in `zone`; `InvalidTimestamp` where the zone
/// gives no usable offset for one of them.
pub fn local_days<Z: LocalTimeZone>(entries: &Vec<Entry>, zone: &Z) -> (r: Result<Vec<i64>, JournalError>)
    ensures
        r matches Ok(d) ==> are_local_days(entries@, d@),
        r matches Err(e) ==> e == JournalError::InvalidTimestamp,
{
    let mut days: Vec<i64> = Vec::new();
    let mut i: usize = 0;
    while i < entries.len()
        invariant
            0 <= i <= entries.len(),
            days@.len() == i,
            forall|k: int| 0 <= k < i ==> is_local_day(#[trigger] entries@[k].time as int, days@[k]),
        decreases entries.len() - i,
    {
        match local_day_in(zone, entries[i].time) {
            Some(d) => days.push(d),
            None => return Err(JournalError::InvalidTimestamp),
        }
        i += 1;
    }
    Ok(days)
}

/// A journal kept in one SQLite file.
#[derive(Clone)]
pub struct SimpleSqliteJournal {
    path: String,
}

/// Relies on `rusqlite::Connection::open`: opens, or creates, the database
/// file at `path`.
#[verifier::external_body]
fn open_connection(path: &str) -> (r: Result<rusqlite::Connection, rusqlite::Error>)
{
    rusqlite::Connection::open(path)
}

/// Relies on `rusqlite::Connection::execute_batch`: runs the statements of `sql`.
#[verifier::external_body]
fn execute_batch(conn: &rusqlite::Connection, sql: &str) -> (r: Result<(), rusqlite::Error>)
{
    conn.execute_batch(sql)
}

/// Relies on `rusqlite::Connection::execute`: runs `sql` with the three
/// values bound to its parameters, and gives the number of rows changed.
#[verifier::external_body]
fn execute_with_entry(conn: &rusqlite::Connection, sql: &str, title: &str, time: i64, text: &str) -> (r: Result<usize, rusqlite::Error>)
{
    conn.execute(sql, (title, time, text))
}

/// Relies on `rusqlite::Connection::prepare`, `Statement::query_map` and
/// `Row::get`: the rows of the query `sql`, each as its first three columns.
#[verifier::external_body]
fn query_rows(conn: &rusqlite::Connection, sql: &str) -> (r: Result<Vec<(String, i64, String)>, rusqlite::Error>)
{
    let mut stmt = conn.prepare(sql)?;
    let rows = stmt.query_map([], |row| Ok((row.get(0)?, row.get(1)?, row.get(2)?)))?;
    rows.collect()
}

/// The statement that creates the entry table where it is missing.
pub fn get_table_schema() -> (r: &'static str)
    ensures
        r@ == "CREATE TABLE IF NOT EXISTS blog_entries(
    id INTEGER PRIMARY KEY AUTOINCREMENT,
    title TEXT NOT NULL,
    time INTEGER NOT NULL,
    text TEXT NOT NULL
);"@,
{
    "CREATE TABLE IF NOT EXISTS blog_entries(
    id INTEGER PRIMARY KEY AUTOINCREMENT,
    title TEXT NOT NULL,
    time INTEGER NOT NULL,
    text TEXT NOT NULL
);"
}

/// The query that reads every stored entry.
pub fn query_for_all_entries() -> (r: &'static str)
    ensures
        r@ == "SELECT title, time, text FROM blog_entries;"@,
{
    "SELECT title, time, text FROM blog_entries;"
}

/// The statement that appends one entry.
pub fn query_for_new_entry() -> (r: &'static str)
    ensures
        r@ == "INSERT INTO blog_entries(title, time, text) VALUES(?, ?, ?)"@,
{
    "INSERT INTO blog_entries(title, time, text) VALUES(?, ?, ?)"
}

/// Entries from stored rows of title, time and text; a row with a time below
/// zero is refused.
pub fn entries_from_rows(rows: &Vec<(String, i64, String)>) -> (r: Result<Vec<Entry>, JournalError>)
    ensures
        (exists|i: int| 0 <= i < rows@.len() && #[trigger] rows@[i].1 < 0) <==> r is Err,
        r matches Err(e) ==> e == JournalError::InvalidTimestamp,
        r matches Ok(v) ==> v@.len() == rows@.len() && forall|i: int|
            0 <= i < rows@.len() ==> (#[trigger] v@[i]).title == rows@[i].0 && v@[i].time
                == rows@[i].1 && v@[i].text == rows@[i].2,
{
    let mut v: Vec<Entry> = Vec::new();
    let mut i: usize = 0;
    while i < rows.len()
        invariant
            0 <= i <= rows.len(),
            v@.len() == i,
            forall|k: int| 0 <= k < i ==> #[trigger] rows@[k].1 >= 0,
            forall|k: int|
                0 <= k < i ==> (#[trigger] v@[k]).title == rows@[k].0 && v@[k].time == rows@[k].1
                    && v@[k].text == rows@[k].2,
        decreases rows.len() - i,
    {
        let row = &rows[i];
        if row.1 < 0 {
            return Err(JournalError::InvalidTimestamp);
        }
        v.push(Entry::new(row.0.clone(), row.1 as u64, row.2.clone()));
        i += 1;
    }
    Ok(v)
}

fn get_db_conn(path: &String) -> (r: Result<rusqlite::Connection, JournalError>)
    ensures
        r matches Err(e) ==> e == JournalError::StorageUnavailable,
{
    match open_connection(path.as_str()) {
        Ok(c) => Ok(c),
        Err(_) => Err(JournalError::StorageUnavailable),
    }
}

/// Creates the entry table at `path` where it is missing; leaves a table that
/// is there as it is.
fn create_db_if_not_exists(path: &String) -> (r: Result<(), JournalError>)
    ensures
        r matches Err(e) ==> e == JournalError::StorageUnavailable,
{
    let conn = get_db_conn(path)?;
    match execute_batch(&conn, get_table_schema()) {
        Ok(()) => Ok(()),
        Err(_) => Err(JournalError::StorageUnavailable),
    }
}

impl SimpleSqliteJournal {
    /// Where the journal is kept.
    pub closed spec fn location(&self) -> Seq<char> {
        self.path@
    }

    /// A journal kept at `path`, with its table created there on first use.
    pub fn new(path: String) -> (r: Result<SimpleSqliteJournal, JournalError>)
        ensures
            r matches Ok(j) ==> j.location() == path@,
            r matches Err(e) ==> e == JournalError::StorageUnavailable,
    {
        let o = SimpleSqliteJournal { path };
        create_db_if_not_exists(&o.path)?;
        Ok(o)
    }

    /// Every stored entry, in no particular order.
    pub fn scan_all(&self) -> (r: Result<Vec<Entry>, JournalError>)
        ensures
            r matches Err(e) ==> e == JournalError::StorageUnavailable || e
                == JournalError::InvalidTimestamp,
    {
        let conn = get_db_conn(&self.path)?;
        match query_rows(&conn, query_for_all_entries()) {
            Ok(rows) => entries_from_rows(&rows),
            Err(_) => Err(JournalError::StorageUnavailable),
        }
    }
}

impl Journal for SimpleSqliteJournal {
    fn get_past_entries<Z: LocalTimeZone>(&self, now: u64, zone: &Z) -> (r: Result<Vec<Entry>, JournalError>) {
        let entries = self.scan_all()?;
        let days = local_days(&entries, zone)?;
        let today = match local_day_in(zone, now) {
            Some(d) => d,
            None => return Err(JournalError::InvalidTimestamp),
        };
        let v = past_entries(&entries, &days, today);
        let r = Ok(v);
        assert(is_past_entries(entries@, days@, today, v@));
        assert(r matches Ok(w) && w@ == v@);
        r
    }

    fn get_today_entry<Z: LocalTimeZone>(&self, now: u64, zone: &Z) -> (r: Result<Option<Entry>, JournalError>) {
        let entries = self.scan_all()?;
        let days = local_days(&entries, zone)?;
        let today = match local_day_in(zone, now) {
            Some(d) => d,
            None => return Err(JournalError::InvalidTimestamp),
        };
        let e = today_entry(&entries, &days, today);
        assert(is_today_entry(entries@, days@, today, e));
        Ok(e)
    }

    fn store_new_entry(&self, entry: Entry) -> (r: Result<(), JournalError>) {
        if entry.time > i64::MAX as u64 {
            return Err(JournalError::InvalidTimestamp);
        }
        let conn = get_db_conn(&self.path)?;
        match execute_with_entry(
            &conn,
            query_for_new_entry(),
            entry.title.as_str(),
            entry.time as i64,
            entry.text.as_str(),
        ) {
            Ok(_) => Ok(()),
            Err(_) => Err(JournalError::StorageUnavailable),
        }
    }
}

} // verus!
