use journal::{
    decimal_string, entries_from_rows, format_date, get_table_schema, get_time_string, local_day,
    local_day_in, local_days, past_entries, past_indices, query_for_all_entries,
    query_for_new_entry, today_entry, Entry, FixedOffsetZone, Journal, JournalError,
    LocalTimeZone, SimpleSqliteJournal, LAST_CALENDAR_DAY,
};

fn entry(title: &str, time: u64) -> Entry {
    Entry::new(title.to_string(), time, format!("text of {}", title))
}

fn days_at(entries: &Vec<Entry>, offset: i32) -> Vec<i64> {
    local_days(entries, &FixedOffsetZone { offset }).unwrap()
}

/// UTC+2 before `switch`, UTC+1 from it on, as when summer time ends.
struct SwitchingZone {
    switch: u64,
}

impl LocalTimeZone for SwitchingZone {
    fn offset_at(&self, time: u64) -> Option<i32> {
        if time < self.switch {
            Some(7200)
        } else {
            Some(3600)
        }
    }
}

struct UnknownZone;

impl LocalTimeZone for UnknownZone {
    fn offset_at(&self, _time: u64) -> Option<i32> {
        None
    }
}

// 2024-01-18 00:00:00 at UTC+1.
const JAN_18_LOCAL_MIDNIGHT: u64 = 1705532400;
const HOUR: u64 = 3600;
const DAY: u64 = 86400;
const UTC_PLUS_ONE: FixedOffsetZone = FixedOffsetZone { offset: 3600 };

#[test]
fn test_unix_to_date_string_1() {
    let date_string = get_time_string(1705615764, 3600);
    assert_eq!(date_string, Some("Thu d. 18. January 2024".to_string()));
}

#[test]
fn test_unix_to_date_string_2() {
    let date_string = get_time_string(1705652313, 3600);
    assert_eq!(date_string, Some("Fri d. 19. January 2024".to_string()));
}

#[test]
fn date_text_crosses_midnight_with_offset() {
    // 2024-01-18 23:30 UTC is already the 19th at UTC+1, still the 18th in UTC.
    let t = 1705620600;
    assert_eq!(get_time_string(t, 0), Some("Thu d. 18. January 2024".to_string()));
    assert_eq!(get_time_string(t, 3600), Some("Fri d. 19. January 2024".to_string()));
    assert_eq!(get_time_string(0, -3600), Some("Wed d. 31. December 1969".to_string()));
    assert_eq!(get_time_string(0, 0), Some("Thu d. 1. January 1970".to_string()));
}

#[test]
fn date_text_leap_day_and_last_day() {
    assert_eq!(get_time_string(1709164800, 0), Some("Thu d. 29. February 2024".to_string()));
    let last = LAST_CALENDAR_DAY as u64 * DAY + DAY - 1;
    assert_eq!(get_time_string(last, 0), Some("Mon d. 31. December 262142".to_string()));
    assert_eq!(get_time_string(last + 1, 0), None);
}

#[test]
fn time_beyond_the_calendar_gives_no_text() {
    assert_eq!(get_time_string(u64::MAX, 0), None);
}

#[test]
fn format_date_exact_text() {
    assert_eq!(format_date(0, 2024, 1, 1), "Mon d. 1. January 2024");
    assert_eq!(format_date(6, 1999, 12, 31), "Sun d. 31. December 1999");
    assert_eq!(format_date(2, -44, 3, 15), "Wed d. 15. March -44");
}

#[test]
fn decimal_string_values() {
    assert_eq!(decimal_string(0), "0");
    assert_eq!(decimal_string(7), "7");
    assert_eq!(decimal_string(2024), "2024");
    assert_eq!(decimal_string(4294967295), "4294967295");
}

#[test]
fn local_day_values() {
    assert_eq!(local_day(0, 0), 0);
    assert_eq!(local_day(86399, 0), 0);
    assert_eq!(local_day(86400, 0), 1);
    assert_eq!(local_day(0, -1), -1);
    assert_eq!(local_day(1705615764, 3600), 19740);
    assert_eq!(local_day(u64::MAX, 86399), (((u64::MAX as u128) + 86399) / 86400) as i64);
}

#[test]
fn zone_offsets_are_checked() {
    assert_eq!(local_day_in(&UTC_PLUS_ONE, 1705615764), Some(19740));
    assert_eq!(local_day_in(&FixedOffsetZone { offset: 86400 }, 0), None);
    assert_eq!(local_day_in(&UnknownZone, 0), None);
    let entries = vec![entry("a", 0)];
    assert_eq!(local_days(&entries, &UnknownZone), Err(JournalError::InvalidTimestamp));
}

#[test]
fn day_boundary_splits_two_seconds() {
    let before = JAN_18_LOCAL_MIDNIGHT + DAY - 1; // 23:59:59 on the 18th
    let after = JAN_18_LOCAL_MIDNIGHT + DAY + 1; // 00:00:01 on the 19th
    assert_eq!(local_day(before, 3600) + 1, local_day(after, 3600));
    let entries = vec![entry("late", before), entry("early", after)];
    let days = days_at(&entries, 3600);
    let now = JAN_18_LOCAL_MIDNIGHT + DAY + 12 * HOUR;
    let today = today_entry(&entries, &days, local_day(now, 3600)).unwrap();
    assert_eq!(today.title, "early");
    let past = past_entries(&entries, &days, local_day(now, 3600));
    assert_eq!(past.len(), 1);
    assert_eq!(past[0].title, "late");
}

#[test]
fn each_entry_uses_the_offset_of_its_own_instant() {
    // The switch back to UTC+1 happens at 2023-10-29 01:00 UTC.
    let switch = 1698541200;
    let zone = SwitchingZone { switch };
    // 2023-10-01 22:30 UTC is 00:30 on 2 October at UTC+2, but 23:30 on the 1st at UTC+1.
    let summer = 1696199400;
    let winter_now = switch + 30 * DAY;
    let entries = vec![entry("first of october", summer - 2 * HOUR), entry("second of october", summer)];
    let days = local_days(&entries, &zone).unwrap();
    assert_eq!(days[1], days[0] + 1);
    let today = local_day_in(&zone, winter_now).unwrap();
    let past = past_entries(&entries, &days, today);
    assert_eq!(past.len(), 2);
    assert_eq!(past[0].title, "second of october");
    assert_eq!(past[1].title, "first of october");
}

#[test]
fn empty_store_gives_nothing() {
    let entries: Vec<Entry> = Vec::new();
    let days: Vec<i64> = Vec::new();
    assert!(today_entry(&entries, &days, 19740).is_none());
    assert!(past_entries(&entries, &days, 19740).is_empty());
}

#[test]
fn latest_of_a_past_day_wins() {
    let t1 = JAN_18_LOCAL_MIDNIGHT + 9 * HOUR;
    let t2 = JAN_18_LOCAL_MIDNIGHT + 20 * HOUR;
    let entries = vec![entry("first", t1), entry("second", t2)];
    let now = JAN_18_LOCAL_MIDNIGHT + DAY + 10 * HOUR; // 2024-01-19
    let today = local_day(now, 3600);
    let past = past_entries(&entries, &days_at(&entries, 3600), today);
    assert_eq!(past.len(), 1);
    assert_eq!(past[0].time, t2);
    assert_eq!(past[0].title, "second");
    let reversed = vec![entry("second", t2), entry("first", t1)];
    let past = past_entries(&reversed, &days_at(&reversed, 3600), today);
    assert_eq!(past.len(), 1);
    assert_eq!(past[0].time, t2);
}

#[test]
fn latest_of_today_wins() {
    let entries = vec![
        entry("morning", JAN_18_LOCAL_MIDNIGHT + 8 * HOUR),
        entry("evening", JAN_18_LOCAL_MIDNIGHT + 21 * HOUR),
        entry("noon", JAN_18_LOCAL_MIDNIGHT + 12 * HOUR),
    ];
    let days = days_at(&entries, 3600);
    let today = local_day(JAN_18_LOCAL_MIDNIGHT + 22 * HOUR, 3600);
    let e = today_entry(&entries, &days, today).unwrap();
    assert_eq!(e.title, "evening");
    assert_eq!(e.text, "text of evening");
    assert!(past_entries(&entries, &days, today).is_empty());
}

#[test]
fn today_and_yesterday_are_apart() {
    let now = 1705652313;
    let entries = vec![entry("yesterday", now - DAY), entry("now", now)];
    let days = days_at(&entries, 3600);
    let today = local_day(now, 3600);
    let e = today_entry(&entries, &days, today).unwrap();
    assert_eq!(e.title, "now");
    assert_eq!(e.time, now);
    let past = past_entries(&entries, &days, today);
    assert_eq!(past.len(), 1);
    assert_eq!(past[0].title, "yesterday");
    assert_eq!(past[0].time, now - DAY);
}

#[test]
fn past_days_are_newest_first_and_cover_every_day() {
    let base = JAN_18_LOCAL_MIDNIGHT;
    let entries = vec![
        entry("d0 a", base + HOUR),
        entry("d-3", base - 3 * DAY + 5 * HOUR),
        entry("d0 b", base + 2 * HOUR),
        entry("d-1 a", base - DAY + 23 * HOUR),
        entry("d+1", base + DAY + HOUR),
        entry("d-1 b", base - DAY + 2 * HOUR),
        entry("d-2", base - 2 * DAY),
    ];
    let days = days_at(&entries, 3600);
    let today = local_day(base + 15 * HOUR, 3600);
    let past = past_entries(&entries, &days, today);
    let titles: Vec<&str> = past.iter().map(|e| e.title.as_str()).collect();
    assert_eq!(titles, vec!["d-1 a", "d-2", "d-3"]);
    assert_eq!(past_indices(&entries, &days, today), vec![3, 6, 1]);
    let e = today_entry(&entries, &days, today).unwrap();
    assert_eq!(e.title, "d0 b");
    for p in &past {
        assert_ne!(p.title, e.title);
    }
}

#[test]
fn equally_late_entries_keep_the_first_stored() {
    let t = JAN_18_LOCAL_MIDNIGHT + HOUR;
    let entries = vec![entry("one", t), entry("two", t), entry("other day", t - DAY)];
    let days = days_at(&entries, 3600);
    assert_eq!(past_indices(&entries, &days, local_day(t + DAY, 3600)), vec![0, 2]);
}

#[test]
fn rows_become_entries() {
    let rows = vec![
        ("a".to_string(), 5i64, "x".to_string()),
        ("b".to_string(), 7i64, "".to_string()),
    ];
    let v = entries_from_rows(&rows).unwrap();
    assert_eq!(v.len(), 2);
    assert_eq!(v[1].title, "b");
    assert_eq!(v[1].time, 7);
    assert_eq!(v[1].text, "");
}

#[test]
fn negative_stored_time_is_refused() {
    let rows = vec![("a".to_string(), -5i64, "x".to_string())];
    assert_eq!(entries_from_rows(&rows).unwrap_err(), JournalError::InvalidTimestamp);
}

#[test]
fn statements_name_the_entry_table() {
    assert!(get_table_schema().starts_with("CREATE TABLE IF NOT EXISTS blog_entries("));
    assert_eq!(query_for_all_entries(), "SELECT title, time, text FROM blog_entries;");
    assert_eq!(
        query_for_new_entry(),
        "INSERT INTO blog_entries(title, time, text) VALUES(?, ?, ?)"
    );
}

#[test]
fn unreachable_location_is_storage_unavailable() {
    let r = SimpleSqliteJournal::new("no_such_directory/at/all/journal.sqlite3".to_string());
    assert_eq!(r.err(), Some(JournalError::StorageUnavailable));
}

#[test]
fn store_and_reopen_keeps_entries() {
    // A shared in-memory database lives as long as one connection to it is open.
    let path = "file:reopen_journal?mode=memory&cache=shared".to_string();
    let _keep = rusqlite::Connection::open(path.as_str()).unwrap();
    let journal = SimpleSqliteJournal::new(path.clone()).unwrap();
    let before = journal.scan_all().unwrap().len();
    assert_eq!(before, 0);
    journal.store_new_entry(entry("kept", 1705615764)).unwrap();
    let again = SimpleSqliteJournal::new(path.clone()).unwrap();
    let after = again.scan_all().unwrap();
    assert_eq!(after.len(), before + 1);
    assert!(after.iter().any(|e| e.title == "kept" && e.time == 1705615764));
    let past = again.get_past_entries(1705652313 + DAY, &UTC_PLUS_ONE).unwrap();
    assert_eq!(past.len(), 1);
    assert_eq!(past[0].title, "kept");
}

#[test]
fn stored_entry_of_now_is_today() {
    let path = "file:today_journal?mode=memory&cache=shared";
    let _keep = rusqlite::Connection::open(path).unwrap();
    let journal = SimpleSqliteJournal::new(path.to_string()).unwrap();
    let now = 1705652313;
    journal.store_new_entry(entry("yesterday", now - DAY)).unwrap();
    journal.store_new_entry(entry("written now", now)).unwrap();
    let today = journal.get_today_entry(now, &UTC_PLUS_ONE).unwrap().unwrap();
    assert_eq!(today.title, "written now");
    let past = journal.get_past_entries(now, &UTC_PLUS_ONE).unwrap();
    assert_eq!(past.len(), 1);
    assert_eq!(past[0].title, "yesterday");
    assert_eq!(journal.get_today_entry(now, &UnknownZone).err(), Some(JournalError::InvalidTimestamp));
}

#[test]
fn time_past_i64_is_refused_on_store() {
    let path = "file:refuse_journal?mode=memory&cache=shared";
    let _keep = rusqlite::Connection::open(path).unwrap();
    let journal = SimpleSqliteJournal::new(path.to_string()).unwrap();
    let r = journal.store_new_entry(entry("far", u64::MAX));
    assert_eq!(r, Err(JournalError::InvalidTimestamp));
}
