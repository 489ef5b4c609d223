use capsule::clock::{format_timestamp, format_timestamp_at, seconds_of, Moment};
use capsule::history::{
    load_history, record_download, record_download_at, record_upload, record_upload_at,
    save_history, HistoryEntry, HISTORY_MAX,
};
use capsule::recents::{format_entry, format_recents, format_recents_at};
use capsule::style::{highlight_id, highlight_link, highlight_path};

fn entry(n: u64) -> HistoryEntry {
    HistoryEntry::Download {
        file_name: format!("file{n}"),
        file_id: format!("id{n}"),
        encrypted: n % 2 == 0,
        timestamp: n,
    }
}

fn entries(from: u64, to: u64) -> Vec<HistoryEntry> {
    (from..to).map(entry).collect()
}

#[test]
fn nothing_stored_is_no_history() {
    assert_eq!(load_history(None), vec![]);
    assert_eq!(load_history(Some(entries(0, 3))), entries(0, 3));
}

#[test]
fn short_history_is_saved_whole() {
    assert_eq!(save_history(vec![]), vec![]);
    assert_eq!(save_history(entries(0, 15)), entries(0, 15));
}

#[test]
fn long_history_loses_its_oldest_entries() {
    assert_eq!(HISTORY_MAX, 15);
    assert_eq!(save_history(entries(0, 16)), entries(1, 16));
    assert_eq!(save_history(entries(0, 40)), entries(25, 40));
    assert_eq!(save_history(save_history(entries(0, 40))), entries(25, 40));
}

#[test]
fn recorded_upload_stands_last() {
    let upload = HistoryEntry::Upload {
        file_name: "a.txt".to_string(),
        file_id: "abc".to_string(),
        url: "http://h/download/abc".to_string(),
        encrypted: true,
        timestamp: 77,
    };
    let recorded = record_upload_at(
        entries(0, 15),
        "a.txt".to_string(),
        "abc".to_string(),
        "http://h/download/abc".to_string(),
        true,
        77,
    );
    assert_eq!(recorded.len(), 15);
    assert_eq!(recorded[..14], entries(1, 15)[..]);
    assert_eq!(recorded[14], upload);
}

#[test]
fn many_recordings_keep_the_newest() {
    for (stored, recorded) in [(0, 3), (15, 3), (40, 3), (40, 20), (3, 15)] {
        let mut history = entries(0, stored);
        for n in stored..stored + recorded {
            let (name, id) = (format!("file{n}"), format!("id{n}"));
            history = record_download_at(history, name, id, n % 2 == 0, n);
        }
        let total: u64 = stored + recorded;
        assert_eq!(history, entries(total.saturating_sub(15), total));
    }
}

#[test]
fn recorded_download_stands_last() {
    let recorded =
        record_download_at(entries(0, 4), "file4".to_string(), "id4".to_string(), true, 4);
    assert_eq!(recorded, entries(0, 5));
}

#[test]
fn recording_takes_the_time_from_the_clock() {
    let before = seconds_of(Moment::now());
    let recorded = record_upload(
        vec![],
        "a".to_string(),
        "b".to_string(),
        "c".to_string(),
        false,
    );
    let recorded = record_download(recorded, "d".to_string(), "e".to_string(), true);
    let after = seconds_of(Moment::now());
    assert!(before > 1_600_000_000);
    for entry in recorded {
        let time = match entry {
            HistoryEntry::Upload { timestamp, .. } => timestamp,
            HistoryEntry::Download { timestamp, .. } => timestamp,
        };
        assert!(before <= time && time <= after);
    }
}

#[test]
fn moment_counts_from_the_epoch() {
    assert_eq!(seconds_of(None), 0);
    assert_eq!(Moment::after_epoch(None), None);
    assert_eq!(Moment::after_epoch(Some((12, 345))), Some(Moment { secs: 12, nanos: 345 }));
    let moment = Moment { secs: 12, nanos: 345 };
    assert_eq!(seconds_of(Some(moment)), 12);
    assert_eq!(moment.as_nanos(), 12_000_000_345);
    let last = Moment { secs: u64::MAX, nanos: 999_999_999 };
    assert_eq!(last.as_nanos(), 18_446_744_073_709_551_615_999_999_999);
    assert!(Moment::now().unwrap().nanos < 1_000_000_000);
}

#[test]
fn age_is_shown_in_the_largest_unit() {
    let age = |age: u64| format_timestamp_at(1000, 1000 + age);
    assert_eq!(age(0), "just now");
    assert_eq!(age(59), "just now");
    assert_eq!(age(60), "1m ago");
    assert_eq!(age(3599), "59m ago");
    assert_eq!(age(3600), "1h ago");
    assert_eq!(age(86399), "23h ago");
    assert_eq!(age(86400), "1d ago");
    assert_eq!(age(2591999), "29d ago");
    assert_eq!(age(2592000), "1mo ago");
    assert_eq!(age(120 * 2592000), "120mo ago");
    assert_eq!(format_timestamp_at(0, u64::MAX), "7116799411153mo ago");
}

#[test]
fn time_to_come_is_just_now() {
    assert_eq!(format_timestamp_at(1001, 1000), "just now");
    assert_eq!(format_timestamp_at(u64::MAX, 0), "just now");
}

#[test]
fn age_is_counted_to_the_present() {
    let now = seconds_of(Moment::now());
    assert_eq!(format_timestamp(now), "just now");
    assert_eq!(format_timestamp(now - 7230), "2h ago");
}

#[test]
fn upload_is_listed_with_its_link() {
    let upload = HistoryEntry::Upload {
        file_name: "a.txt".to_string(),
        file_id: "abc".to_string(),
        url: "http://h/download/abc".to_string(),
        encrypted: true,
        timestamp: 40,
    };
    assert_eq!(
        format_entry(&upload, 100),
        "  \x1b[92mUPLOAD\x1b[0m  a.txt [encrypted]\n          ID: \x1b[92mabc\x1b[0m  |  1m ago\n          \x1b[92mhttp://h/download/abc\x1b[0m\n\n"
    );
}

#[test]
fn download_is_listed_without_a_link() {
    assert_eq!(
        format_entry(&entry(7), 8),
        "  \x1b[94mDOWNLOAD\x1b[0m  file7\n            ID: \x1b[92mid7\x1b[0m  |  just now\n\n"
    );
}

#[test]
fn newest_entry_is_listed_first() {
    let listed = format_recents_at(&entries(0, 3), 5);
    let expected: String = (0..3).rev().map(|n| format_entry(&entry(n), 5)).collect();
    assert_eq!(listed, format!("\n{expected}"));
    assert_eq!(format_recents(&entries(0, 1)).matches("DOWNLOAD").count(), 1);
}

#[test]
fn empty_history_is_said_to_be_empty() {
    assert_eq!(format_recents_at(&vec![], 5), "\nNo recent activity.\n\n");
    assert_eq!(format_recents(&vec![]), "\nNo recent activity.\n\n");
}

#[test]
fn highlights_end_where_they_began() {
    assert_eq!(highlight_path("/a/b"), "\x1b[94m/a/b\x1b[0m");
    assert_eq!(highlight_link("http://h"), "\x1b[92mhttp://h\x1b[0m");
    assert_eq!(highlight_id("abc"), "\x1b[92mabc\x1b[0m");
}
