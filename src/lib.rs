//! A personal journal: dated text entries kept in a SQLite file, with the
//! entry of the current local day shown apart from one entry per earlier day.
pub mod calendar;
pub mod entry;
pub mod journal;
pub mod temporal;

pub use calendar::{
    decimal_string, format_date, get_time_string, local_day, local_day_in, FixedOffsetZone,
    LocalTimeZone, FIRST_CALENDAR_DAY, LAST_CALENDAR_DAY,
};
pub use entry::Entry;
pub use journal::{
    entries_from_rows, get_table_schema, local_days, query_for_all_entries, query_for_new_entry, Journal,
    JournalError, SimpleSqliteJournal,
};
pub use temporal::{past_entries, past_indices, today_entry};
