//! The listing of recent uploads and downloads.

use vstd::prelude::*;
use vstd::string::*;
use crate::clock;
use crate::clock::Moment;
use crate::history::HistoryEntry;
use crate::style;

verus! {

/// The mark of an encrypted file.
pub open spec fn lock(encrypted: bool) -> Seq<char> {
    if encrypted {
        " [encrypted]"@
    } else {
        ""@
    }
}

/// One entry of the listing.
pub open spec fn entry_text(entry: HistoryEntry, now: u64) -> Seq<char> {
    match entry {
        HistoryEntry::Upload { file_name, file_id, url, encrypted, timestamp } => {
            "  \x1b[92mUPLOAD\x1b[0m  "@ + file_name@ + lock(encrypted) + "\n          ID: "@
                + style::green(file_id@) + "  |  "@ + clock::time_ago(timestamp, now)
                + "\n          "@ + style::green(url@) + "\n\n"@
        },
        HistoryEntry::Download { file_name, file_id, encrypted, timestamp } => {
            "  \x1b[94mDOWNLOAD\x1b[0m  "@ + file_name@ + lock(encrypted) + "\n            ID: "@
                + style::green(file_id@) + "  |  "@ + clock::time_ago(timestamp, now) + "\n\n"@
        },
    }
}

/// The entries, the last one first.
pub open spec fn listing(entries: Seq<HistoryEntry>, now: u64) -> Seq<char>
    decreases entries.len(),
{
    if entries.len() == 0 {
        Seq::empty()
    } else {
        entry_text(entries.last(), now) + listing(entries.drop_last(), now)
    }
}

/// What is shown of the history.
pub open spec fn recents_text(entries: Seq<HistoryEntry>, now: u64) -> Seq<char> {
    if entries.len() == 0 {
        "\nNo recent activity.\n\n"@
    } else {
        "\n"@ + listing(entries, now)
    }
}

/// The mark of an encrypted file.
fn lock_mark(encrypted: bool) -> (r: &'static str)
    ensures
        r@ == lock(encrypted),
{
    if encrypted {
        " [encrypted]"
    } else {
        ""
    }
}

/// Writes one entry of the listing.
pub fn format_entry(entry: &HistoryEntry, now: u64) -> (r: String)
    ensures
        r@ == entry_text(*entry, now),
{
    match entry {
        HistoryEntry::Upload { file_name, file_id, url, encrypted, timestamp } => {
            "  \x1b[92mUPLOAD\x1b[0m  ".to_owned().concat(file_name.as_str()).concat(
                lock_mark(*encrypted),
            ).concat("\n          ID: ").concat(
                style::highlight_id(file_id.as_str()).as_str(),
            ).concat("  |  ").concat(
                clock::format_timestamp_at(*timestamp, now).as_str(),
            ).concat("\n          ").concat(style::highlight_link(url.as_str()).as_str()).concat(
                "\n\n",
            )
        },
        HistoryEntry::Download { file_name, file_id, encrypted, timestamp } => {
            "  \x1b[94mDOWNLOAD\x1b[0m  ".to_owned().concat(file_name.as_str()).concat(
                lock_mark(*encrypted),
            ).concat("\n            ID: ").concat(
                style::highlight_id(file_id.as_str()).as_str(),
            ).concat("  |  ").concat(
                clock::format_timestamp_at(*timestamp, now).as_str(),
            ).concat("\n\n")
        },
    }
}

/// Writes the listing as it is at `now`.
pub fn format_recents_at(entries: &Vec<HistoryEntry>, now: u64) -> (r: String)
    ensures
        r@ == recents_text(entries@, now),
{
    if entries.len() == 0 {
        return "\nNo recent activity.\n\n".to_owned();
    }
    let mut r = "\n".to_owned();
    let mut i: usize = entries.len();
    assert(entries@.take(i as int) =~= entries@);
    while i > 0
        invariant
            i <= entries@.len(),
            r@ + listing(entries@.take(i as int), now) =~= "\n"@ + listing(entries@, now),
        decreases i,
    {
        assert(entries@.take(i as int).drop_last() =~= entries@.take(i - 1));
        i -= 1;
        r = r.concat(format_entry(&entries[i], now).as_str());
    }
    r
}

/// Writes the listing as it is now.
pub fn format_recents(entries: &Vec<HistoryEntry>) -> (r: String)
    ensures
        exists|now: Option<Moment>| #[trigger]
            call_ensures(Moment::now, (), now) && r@ == recents_text(
                entries@,
                clock::seconds(now),
            ),
{
    let now = Moment::now();
    assert(call_ensures(Moment::now, (), now));
    format_recents_at(entries, clock::seconds_of(now))
}

/// What was recorded last is shown first, with the others unchanged behind
/// it.
pub proof fn law_newest_first(entries: Seq<HistoryEntry>, entry: HistoryEntry, now: u64)
    ensures
        recents_text(entries.push(entry), now) == "\n"@ + entry_text(entry, now) + listing(
            entries,
            now,
        ),
{
    assert(entries.push(entry).drop_last() =~= entries);
    assert(recents_text(entries.push(entry), now) =~= "\n"@ + entry_text(entry, now) + listing(
        entries,
        now,
    ));
}

/// An upload is listed with its name, a mark where it is encrypted, its
/// identifier, its age and its link, all of them whole.
pub proof fn law_upload_is_listed(
    entry: &HistoryEntry,
    now: u64,
    r: String,
    name: String,
    id: String,
    link: String,
    encrypted: bool,
    timestamp: u64,
)
    requires
        call_ensures(format_entry, (entry, now), r),
        *entry == (HistoryEntry::Upload {
            file_name: name,
            file_id: id,
            url: link,
            encrypted,
            timestamp,
        }),
    ensures
        exists|age: Seq<char>| #[trigger]
            clock::shows_age(age, timestamp, now) && r@ == "  \x1b[92mUPLOAD\x1b[0m  "@ + name@ + (
            if encrypted {
                " [encrypted]"@
            } else {
                Seq::<char>::empty()
            }) + "\n          ID: \x1b[92m"@ + id@ + "\x1b[0m  |  "@ + age
                + "\n          \x1b[92m"@ + link@ + "\x1b[0m\n\n"@,
{
    clock::law_age_is_shown(timestamp, now);
    let age = clock::time_ago(timestamp, now);
    reveal_strlit("");
    reveal_strlit("\x1b[92m");
    reveal_strlit("\x1b[0m");
    reveal_strlit("\n          ID: ");
    reveal_strlit("\n          ID: \x1b[92m");
    reveal_strlit("  |  ");
    reveal_strlit("\x1b[0m  |  ");
    reveal_strlit("\n          ");
    reveal_strlit("\n          \x1b[92m");
    reveal_strlit("\n\n");
    reveal_strlit("\x1b[0m\n\n");
    assert("\n          ID: \x1b[92m"@ =~= "\n          ID: "@ + "\x1b[92m"@);
    assert("\x1b[0m  |  "@ =~= "\x1b[0m"@ + "  |  "@);
    assert("\n          \x1b[92m"@ =~= "\n          "@ + "\x1b[92m"@);
    assert("\x1b[0m\n\n"@ =~= "\x1b[0m"@ + "\n\n"@);
    assert(""@ =~= Seq::<char>::empty());
    let mark = if encrypted {
        " [encrypted]"@
    } else {
        Seq::<char>::empty()
    };
    assert(r@ =~= "  \x1b[92mUPLOAD\x1b[0m  "@ + name@ + mark + "\n          ID: \x1b[92m"@ + id@
        + "\x1b[0m  |  "@ + age + "\n          \x1b[92m"@ + link@ + "\x1b[0m\n\n"@);
}

/// A download is listed with its name, a mark where it is encrypted, its
/// identifier and its age, all of them whole.
pub proof fn law_download_is_listed(
    entry: &HistoryEntry,
    now: u64,
    r: String,
    name: String,
    id: String,
    encrypted: bool,
    timestamp: u64,
)
    requires
        call_ensures(format_entry, (entry, now), r),
        *entry == (HistoryEntry::Download { file_name: name, file_id: id, encrypted, timestamp }),
    ensures
        exists|age: Seq<char>| #[trigger]
            clock::shows_age(age, timestamp, now) && r@ == "  \x1b[94mDOWNLOAD\x1b[0m  "@ + name@
                + (if encrypted {
                " [encrypted]"@
            } else {
                Seq::<char>::empty()
            }) + "\n            ID: \x1b[92m"@ + id@ + "\x1b[0m  |  "@ + age + "\n\n"@,
{
    clock::law_age_is_shown(timestamp, now);
    let age = clock::time_ago(timestamp, now);
    reveal_strlit("");
    reveal_strlit("\x1b[92m");
    reveal_strlit("\x1b[0m");
    reveal_strlit("\n            ID: ");
    reveal_strlit("\n            ID: \x1b[92m");
    reveal_strlit("  |  ");
    reveal_strlit("\x1b[0m  |  ");
    assert("\n            ID: \x1b[92m"@ =~= "\n            ID: "@ + "\x1b[92m"@);
    assert("\x1b[0m  |  "@ =~= "\x1b[0m"@ + "  |  "@);
    assert(""@ =~= Seq::<char>::empty());
    let mark = if encrypted {
        " [encrypted]"@
    } else {
        Seq::<char>::empty()
    };
    assert(r@ =~= "  \x1b[94mDOWNLOAD\x1b[0m  "@ + name@ + mark + "\n            ID: \x1b[92m"@
        + id@ + "\x1b[0m  |  "@ + age + "\n\n"@);
}

/// The listing with one entry more is a line feed, that entry and behind it
/// all of the listing before; that of no entries says that there are none.
pub proof fn law_listing_grows_in_front(
    older: &Vec<HistoryEntry>,
    entry: &HistoryEntry,
    all: &Vec<HistoryEntry>,
    now: u64,
    before: String,
    first: String,
    r: String,
)
    requires
        all@ == older@.push(*entry),
        call_ensures(format_recents_at, (older, now), before),
        call_ensures(format_entry, (entry, now), first),
        call_ensures(format_recents_at, (all, now), r),
    ensures
        older@.len() == 0 ==> before@ == "\nNo recent activity.\n\n"@ && r@ == "\n"@ + first@,
        older@.len() > 0 ==> before@[0] == '\n' && r@ == "\n"@ + first@ + before@.skip(1),
{
    reveal_strlit("\n");
    law_newest_first(older@, *entry, now);
    if older@.len() == 0 {
        assert("\n"@ + first@ + listing(older@, now) =~= "\n"@ + first@);
    } else {
        assert(before@.skip(1) =~= listing(older@, now));
    }
}

/// `s` is the listing of the entries at `now`.
pub open spec fn lists(s: Seq<char>, entries: &Vec<HistoryEntry>, now: u64) -> bool {
    forall|r: String| #[trigger] call_ensures(format_recents_at, (entries, now), r) ==> s == r@
}

/// The listing that is made by the clock is the one at a time that the clock
/// gives.
pub proof fn law_listing_by_the_clock(entries: &Vec<HistoryEntry>, r: String)
    requires
        call_ensures(format_recents, (entries,), r),
    ensures
        exists|now: Option<Moment>| #[trigger]
            call_ensures(Moment::now, (), now) && lists(
                r@,
                entries,
                match now {
                    Some(moment) => moment.secs,
                    None => 0,
                },
            ),
{
    let now = choose|now: Option<Moment>| #[trigger]
        call_ensures(Moment::now, (), now) && r@ == recents_text(entries@, clock::seconds(now));
    assert(call_ensures(Moment::now, (), now));
}

} // verus!
