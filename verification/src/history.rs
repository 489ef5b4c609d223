//! The recent uploads and downloads.

use vstd::prelude::*;
use crate::clock;
use crate::clock::Moment;

verus! {

/// How many entries the history keeps.
pub const HISTORY_MAX: usize = 15;

/// The directory that holds what the client keeps, among the user's data.
pub const DIRECTORY: &'static str = "capsule";

/// The file that holds the history.
pub const FILE: &'static str = "history.json";

/// One upload or download.
#[derive(Debug, PartialEq, Eq)]
pub enum HistoryEntry {
    Upload { file_name: String, file_id: String, url: String, encrypted: bool, timestamp: u64 },
    Download { file_name: String, file_id: String, encrypted: bool, timestamp: u64 },
}

/// The last `HISTORY_MAX` of the entries, or all of them where they are fewer.
pub open spec fn kept(entries: Seq<HistoryEntry>) -> Seq<HistoryEntry> {
    if entries.len() > HISTORY_MAX {
        entries.skip(entries.len() - HISTORY_MAX)
    } else {
        entries
    }
}

/// The history after `entry`.
pub open spec fn recorded(entries: Seq<HistoryEntry>, entry: HistoryEntry) -> Seq<HistoryEntry> {
    kept(entries.push(entry))
}

/// The history from what was read of it: where nothing could be read, there
/// is none.
pub fn load_history(stored: Option<Vec<HistoryEntry>>) -> (r: Vec<HistoryEntry>)
    ensures
        r@ == match stored {
            Some(entries) => entries@,
            None => Seq::empty(),
        },
{
    match stored {
        Some(entries) => entries,
        None => Vec::new(),
    }
}

/// The entries that are saved: the newest, which stand last.
pub fn save_history(entries: Vec<HistoryEntry>) -> (r: Vec<HistoryEntry>)
    ensures
        r@ == kept(entries@),
{
    let mut entries = entries;
    if entries.len() > HISTORY_MAX {
        let excess: usize = entries.len() - HISTORY_MAX;
        entries.split_off(excess)
    } else {
        entries
    }
}

/// The history after an upload at `timestamp`.
pub fn record_upload_at(
    entries: Vec<HistoryEntry>,
    file_name: String,
    file_id: String,
    url: String,
    encrypted: bool,
    timestamp: u64,
) -> (r: Vec<HistoryEntry>)
    ensures
        r@ == recorded(
            entries@,
            (HistoryEntry::Upload { file_name, file_id, url, encrypted, timestamp }),
        ),
{
    let mut entries = entries;
    entries.push(HistoryEntry::Upload { file_name, file_id, url, encrypted, timestamp });
    save_history(entries)
}

/// The history after an upload now.
pub fn record_upload(
    entries: Vec<HistoryEntry>,
    file_name: String,
    file_id: String,
    url: String,
    encrypted: bool,
) -> (r: Vec<HistoryEntry>)
    ensures
        exists|now: Option<Moment>| #[trigger]
            call_ensures(Moment::now, (), now) && r@ == recorded(
                entries@,
                (HistoryEntry::Upload {
                    file_name,
                    file_id,
                    url,
                    encrypted,
                    timestamp: clock::seconds(now),
                }),
            ),
{
    let now = Moment::now();
    assert(call_ensures(Moment::now, (), now));
    let timestamp: u64 = clock::seconds_of(now);
    record_upload_at(entries, file_name, file_id, url, encrypted, timestamp)
}

/// The history after a download at `timestamp`.
pub fn record_download_at(
    entries: Vec<HistoryEntry>,
    file_name: String,
    file_id: String,
    encrypted: bool,
    timestamp: u64,
) -> (r: Vec<HistoryEntry>)
    ensures
        r@ == recorded(
            entries@,
            (HistoryEntry::Download { file_name, file_id, encrypted, timestamp }),
        ),
{
    let mut entries = entries;
    entries.push(HistoryEntry::Download { file_name, file_id, encrypted, timestamp });
    save_history(entries)
}

/// The history after a download now.
pub fn record_download(
    entries: Vec<HistoryEntry>,
    file_name: String,
    file_id: String,
    encrypted: bool,
) -> (r: Vec<HistoryEntry>)
    ensures
        exists|now: Option<Moment>| #[trigger]
            call_ensures(Moment::now, (), now) && r@ == recorded(
                entries@,
                (HistoryEntry::Download {
                    file_name,
                    file_id,
                    encrypted,
                    timestamp: clock::seconds(now),
                }),
            ),
{
    let now = Moment::now();
    assert(call_ensures(Moment::now, (), now));
    let timestamp: u64 = clock::seconds_of(now);
    record_download_at(entries, file_name, file_id, encrypted, timestamp)
}

/// Whatever was in it before, a saved history holds no more than
/// `HISTORY_MAX` entries, and saving it again changes nothing.
pub proof fn law_saved_history_is_bounded(entries: Seq<HistoryEntry>)
    ensures
        kept(entries).len() <= HISTORY_MAX,
        kept(kept(entries)) == kept(entries),
{
}

/// Recording an entry puts it last, keeps the order of those before it, and
/// drops none of them but the oldest, and those only where the history would
/// grow over `HISTORY_MAX`.
pub proof fn law_recording_drops_only_the_oldest(entries: Seq<HistoryEntry>, entry: HistoryEntry)
    ensures
        recorded(entries, entry).last() == entry,
        entries.len() < HISTORY_MAX ==> recorded(entries, entry).drop_last() == entries,
        entries.len() >= HISTORY_MAX ==> recorded(entries, entry).drop_last() == entries.skip(
            entries.len() - HISTORY_MAX + 1,
        ),
{
    if entries.len() < HISTORY_MAX {
        assert(entries.push(entry).drop_last() =~= entries);
    } else {
        assert(recorded(entries, entry).drop_last() =~= entries.skip(
            entries.len() - HISTORY_MAX + 1,
        ));
    }
}

/// The history after each of `new` was recorded, in order.
pub open spec fn recorded_all(entries: Seq<HistoryEntry>, new: Seq<HistoryEntry>) -> Seq<
    HistoryEntry,
>
    decreases new.len(),
{
    if new.len() == 0 {
        entries
    } else {
        recorded(recorded_all(entries, new.drop_last()), new.last())
    }
}

/// Keeping before an entry is recorded changes nothing of what is kept after.
proof fn lemma_kept_before_recording(entries: Seq<HistoryEntry>, entry: HistoryEntry)
    ensures
        recorded(kept(entries), entry) == kept(entries.push(entry)),
{
    if entries.len() > HISTORY_MAX {
        let excess = entries.len() - HISTORY_MAX;
        assert(kept(entries).push(entry).skip(1) =~= entries.push(entry).skip(excess + 1));
    }
}

/// What is kept of a history that ends in `new` ends in the last of `new`.
proof fn lemma_kept_ends_in_new(entries: Seq<HistoryEntry>, new: Seq<HistoryEntry>)
    ensures
        kept(entries + new).len() <= HISTORY_MAX,
        new.len() <= HISTORY_MAX ==> kept(entries + new).len() >= new.len() && kept(
            entries + new,
        ).skip(kept(entries + new).len() - new.len()) == new,
        new.len() > HISTORY_MAX ==> kept(entries + new) == new.skip(new.len() - HISTORY_MAX),
{
    let all = entries + new;
    if new.len() <= HISTORY_MAX {
        assert(kept(all).skip(kept(all).len() - new.len()) =~= new);
    } else {
        assert(all.skip(all.len() - HISTORY_MAX) =~= new.skip(new.len() - HISTORY_MAX));
    }
}

/// Recording one entry after another leaves what is kept of them all.
proof fn lemma_recorded_all(entries: Seq<HistoryEntry>, new: Seq<HistoryEntry>)
    requires
        new.len() > 0,
    ensures
        recorded_all(entries, new) == kept(entries + new),
    decreases new.len(),
{
    let first = new.drop_last();
    assert(entries + new =~= (entries + first).push(new.last()));
    if first.len() > 0 {
        lemma_recorded_all(entries, first);
        lemma_kept_before_recording(entries + first, new.last());
    } else {
        assert(entries + first =~= entries);
    }
}

/// From any history, recording one entry after another leaves what would be
/// kept of them all had they been recorded at once: no more than
/// `HISTORY_MAX` entries, which end in the last of those that were recorded,
/// as many of them as there are or as are kept.
pub proof fn law_recordings_keep_the_newest(entries: Seq<HistoryEntry>, new: Seq<HistoryEntry>)
    requires
        new.len() > 0,
    ensures
        recorded_all(entries, new) == kept(entries + new),
        recorded_all(entries, new).len() <= HISTORY_MAX,
        new.len() <= HISTORY_MAX ==> recorded_all(entries, new).len() >= new.len()
            && recorded_all(entries, new).skip(recorded_all(entries, new).len() - new.len())
            == new,
        new.len() > HISTORY_MAX ==> recorded_all(entries, new) == new.skip(
            new.len() - HISTORY_MAX,
        ),
{
    lemma_recorded_all(entries, new);
    lemma_kept_ends_in_new(entries, new);
}

/// The last entries, up to fifteen of them, are what is saved; and what is
/// stored is what is loaded.
pub proof fn law_fifteen_entries_are_saved(
    entries: Vec<HistoryEntry>,
    saved: Vec<HistoryEntry>,
    stored: Option<Vec<HistoryEntry>>,
    loaded: Vec<HistoryEntry>,
)
    requires
        call_ensures(save_history, (entries,), saved),
        call_ensures(load_history, (stored,), loaded),
    ensures
        entries@.len() <= 15 ==> saved@ == entries@,
        entries@.len() > 15 ==> saved@.len() == 15 && forall|i: int|
            0 <= i < 15 ==> #[trigger] saved@[i] == entries@[entries@.len() - 15 + i],
        stored matches Some(entries) ==> loaded@ == entries@,
        stored is None ==> loaded@.len() == 0,
{
}

/// `r` is the history with an entry behind it: the entry is last, up to
/// fourteen of those before it stand in front, the newest in their order.
pub open spec fn ends_in(r: Seq<HistoryEntry>, entries: Seq<HistoryEntry>, entry: HistoryEntry) -> bool {
    &&& r.len() == (if entries.len() < 14 {
        entries.len() + 1
    } else {
        15
    })
    &&& r.last() == entry
    &&& forall|i: int|
        0 <= i < r.len() - 1 ==> #[trigger] r[i] == entries[entries.len() - (r.len() - 1) + i]
}

/// An upload is recorded with its name, its identifier, its link, whether it
/// was encrypted and the time, behind what was recorded before; so it is by
/// the clock.
pub proof fn law_upload_is_recorded(
    entries: Vec<HistoryEntry>,
    file_name: String,
    file_id: String,
    url: String,
    encrypted: bool,
    timestamp: u64,
    r: Vec<HistoryEntry>,
    by_clock: Vec<HistoryEntry>,
)
    requires
        call_ensures(
            record_upload_at,
            (entries, file_name, file_id, url, encrypted, timestamp),
            r,
        ),
        call_ensures(record_upload, (entries, file_name, file_id, url, encrypted), by_clock),
    ensures
        ends_in(
            r@,
            entries@,
            (HistoryEntry::Upload { file_name, file_id, url, encrypted, timestamp }),
        ),
        exists|now: Option<Moment>| #[trigger]
            call_ensures(Moment::now, (), now) && ends_in(
                by_clock@,
                entries@,
                (HistoryEntry::Upload {
                    file_name,
                    file_id,
                    url,
                    encrypted,
                    timestamp: match now {
                        Some(moment) => moment.secs,
                        None => 0,
                    },
                }),
            ),
{
    let now = choose|now: Option<Moment>| #[trigger]
        call_ensures(Moment::now, (), now) && by_clock@ == recorded(
            entries@,
            (HistoryEntry::Upload {
                file_name,
                file_id,
                url,
                encrypted,
                timestamp: clock::seconds(now),
            }),
        );
    assert(call_ensures(Moment::now, (), now));
}

/// A download is recorded with its name, its identifier, whether it was
/// encrypted and the time, behind what was recorded before; so it is by the
/// clock.
pub proof fn law_download_is_recorded(
    entries: Vec<HistoryEntry>,
    file_name: String,
    file_id: String,
    encrypted: bool,
    timestamp: u64,
    r: Vec<HistoryEntry>,
    by_clock: Vec<HistoryEntry>,
)
    requires
        call_ensures(record_download_at, (entries, file_name, file_id, encrypted, timestamp), r),
        call_ensures(record_download, (entries, file_name, file_id, encrypted), by_clock),
    ensures
        ends_in(
            r@,
            entries@,
            (HistoryEntry::Download { file_name, file_id, encrypted, timestamp }),
        ),
        exists|now: Option<Moment>| #[trigger]
            call_ensures(Moment::now, (), now) && ends_in(
                by_clock@,
                entries@,
                (HistoryEntry::Download {
                    file_name,
                    file_id,
                    encrypted,
                    timestamp: match now {
                        Some(moment) => moment.secs,
                        None => 0,
                    },
                }),
            ),
{
    let now = choose|now: Option<Moment>| #[trigger]
        call_ensures(Moment::now, (), now) && by_clock@ == recorded(
            entries@,
            (HistoryEntry::Download {
                file_name,
                file_id,
                encrypted,
                timestamp: clock::seconds(now),
            }),
        );
    assert(call_ensures(Moment::now, (), now));
}

} // verus!
