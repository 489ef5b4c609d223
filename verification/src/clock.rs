//! The time, and how long ago something was.

use vstd::prelude::*;
use vstd::string::*;
use crate::text;

verus! {

/// A moment, as the time that has passed since the Unix epoch.
#[derive(Clone, Copy, Debug, PartialEq, Eq)]
pub struct Moment {
    pub secs: u64,
    pub nanos: u32,
}

/// `SystemTime::elapsed` of the Unix epoch gives the seconds and the
/// nanoseconds of a second that have passed since then, or nothing where the
/// clock stands before it.
#[verifier::external_body]
fn since_epoch() -> (r: Option<(u64, u32)>)
    ensures
        r matches Some(elapsed) ==> elapsed.1 < 1_000_000_000,
{
    std::time::UNIX_EPOCH.elapsed().ok().map(|time| (time.as_secs(), time.subsec_nanos()))
}

impl Moment {
    /// The nanoseconds are less than a second.
    pub open spec fn well_formed(self) -> bool {
        self.nanos < 1_000_000_000
    }

    /// The moment in nanoseconds.
    pub open spec fn total_nanos(self) -> nat {
        (self.secs * 1_000_000_000 + self.nanos) as nat
    }

    /// The moment at which so many seconds and nanoseconds have passed since
    /// the epoch, if it has come.
    pub fn after_epoch(elapsed: Option<(u64, u32)>) -> (r: Option<Moment>)
        ensures
            r == match elapsed {
                Some((secs, nanos)) => Some(Moment { secs, nanos }),
                None => None,
            },
    {
        match elapsed {
            Some((secs, nanos)) => Some(Moment { secs, nanos }),
            None => None,
        }
    }

    /// The present moment, or nothing where the clock stands before the epoch.
    pub fn now() -> (r: Option<Moment>)
        ensures
            r matches Some(moment) ==> moment.well_formed(),
    {
        Moment::after_epoch(since_epoch())
    }

    /// The moment in nanoseconds.
    pub fn as_nanos(&self) -> (r: u128)
        ensures
            r == self.total_nanos(),
    {
        self.secs as u128 * 1_000_000_000 + self.nanos as u128
    }
}

/// The seconds of a moment; a clock before the epoch counts as zero.
pub open spec fn seconds(moment: Option<Moment>) -> u64 {
    match moment {
        Some(moment) => moment.secs,
        None => 0,
    }
}

/// The seconds of a moment; a clock before the epoch counts as zero.
pub fn seconds_of(moment: Option<Moment>) -> (r: u64)
    ensures
        r == seconds(moment),
{
    match moment {
        Some(moment) => moment.secs,
        None => 0,
    }
}

/// How long `age` seconds are, in the largest of the units minute, hour, day
/// and month of thirty days that they fill.
pub open spec fn age_text(age: nat) -> Seq<char> {
    if age < 60 {
        "just now"@
    } else if age < 3600 {
        text::decimal(age / 60) + "m ago"@
    } else if age < 86400 {
        text::decimal(age / 3600) + "h ago"@
    } else if age < 2592000 {
        text::decimal(age / 86400) + "d ago"@
    } else {
        text::decimal(age / 2592000) + "mo ago"@
    }
}

/// How long before `now` the time `secs` is; a time to come is no time ago.
pub open spec fn time_ago(secs: u64, now: u64) -> Seq<char> {
    age_text(
        if secs <= now {
            (now - secs) as nat
        } else {
            0
        },
    )
}

/// The decimal digits of `n` and `unit` behind them.
fn amount(n: u64, unit: &str) -> (r: String)
    ensures
        r@ == text::decimal(n as nat) + unit@,
{
    let mut r = String::new();
    text::push_decimal(&mut r, n as u128);
    assert(r@ =~= text::decimal(n as nat));
    r.concat(unit)
}

/// Writes how long before `now` the time `secs` is.
pub fn format_timestamp_at(secs: u64, now: u64) -> (r: String)
    ensures
        r@ == time_ago(secs, now),
{
    let age: u64 = now.saturating_sub(secs);
    if age < 60 {
        "just now".to_owned()
    } else if age < 3600 {
        amount(age / 60, "m ago")
    } else if age < 86400 {
        amount(age / 3600, "h ago")
    } else if age < 2592000 {
        amount(age / 86400, "d ago")
    } else {
        amount(age / 2592000, "mo ago")
    }
}

/// Writes how long ago the time `secs` is, by the clock.
pub fn format_timestamp(secs: u64) -> (r: String)
    ensures
        exists|now: Option<Moment>| #[trigger]
            call_ensures(Moment::now, (), now) && r@ == time_ago(secs, seconds(now)),
{
    let now = Moment::now();
    assert(call_ensures(Moment::now, (), now));
    format_timestamp_at(secs, seconds_of(now))
}

/// A time that has not come yet, as by a clock that was set back, is shown as
/// one that has just been.
pub proof fn law_future_is_just_now(secs: u64, now: u64)
    requires
        now <= secs,
    ensures
        time_ago(secs, now) == "just now"@,
{
}

/// `s` is the numeral of `n` and `words` behind it.
pub open spec fn counts(s: Seq<char>, n: nat, words: Seq<char>) -> bool {
    exists|digits: Seq<char>| #[trigger] text::is_numeral(digits, n) && s == digits + words
}

/// What is shown for the age of a time: that it is now exactly where less
/// than a minute has passed, and else how many whole minutes, hours, days or
/// months of thirty days have, in the largest of these of which one has.
pub open spec fn shows_age(s: Seq<char>, secs: u64, now: u64) -> bool {
    let age = now - secs;
    &&& s == "just now"@ <==> age < 60
    &&& forall|n: nat|
        n > 0 && n * 60 <= age < (n + 1) * 60 && age < 3600 ==> #[trigger] counts(s, n, "m ago"@)
    &&& forall|n: nat|
        n > 0 && n * 3600 <= age < (n + 1) * 3600 && age < 86400 ==> #[trigger] counts(
            s,
            n,
            "h ago"@,
        )
    &&& forall|n: nat|
        n > 0 && n * 86400 <= age < (n + 1) * 86400 && age < 2592000 ==> #[trigger] counts(
            s,
            n,
            "d ago"@,
        )
    &&& forall|n: nat|
        n > 0 && n * 2592000 <= age < (n + 1) * 2592000 ==> #[trigger] counts(s, n, "mo ago"@)
}

/// The age of a time is shown as it is.
pub proof fn law_age_is_shown(secs: u64, now: u64)
    ensures
        shows_age(time_ago(secs, now), secs, now),
{
    reveal_strlit("just now");
    let age = now - secs;
    let s = time_ago(secs, now);
    if age >= 60 {
        let a = age as nat;
        let n: nat = if a < 3600 {
            a / 60
        } else if a < 86400 {
            a / 3600
        } else if a < 2592000 {
            a / 86400
        } else {
            a / 2592000
        };
        text::law_decimal_is_the_numeral(n);
        assert(s[0] == text::decimal(n)[0]);
        assert("just now"@[0] == 'j');
    }
    assert forall|n: nat|
        n > 0 && n * 60 <= age < (n + 1) * 60 && age < 3600 implies #[trigger] counts(
        s,
        n,
        "m ago"@,
    ) by {
        assert(age as nat / 60 == n);
        text::law_decimal_is_the_numeral(n);
    }
    assert forall|n: nat|
        n > 0 && n * 3600 <= age < (n + 1) * 3600 && age < 86400 implies #[trigger] counts(
        s,
        n,
        "h ago"@,
    ) by {
        assert(age as nat / 3600 == n);
        text::law_decimal_is_the_numeral(n);
    }
    assert forall|n: nat|
        n > 0 && n * 86400 <= age < (n + 1) * 86400 && age < 2592000 implies #[trigger] counts(
        s,
        n,
        "d ago"@,
    ) by {
        assert(age as nat / 86400 == n);
        text::law_decimal_is_the_numeral(n);
    }
    assert forall|n: nat|
        n > 0 && n * 2592000 <= age < (n + 1) * 2592000 implies #[trigger] counts(
        s,
        n,
        "mo ago"@,
    ) by {
        assert(age as nat / 2592000 == n);
        text::law_decimal_is_the_numeral(n);
    }
}

/// What is written for a time shows its age: at a given time, and by the
/// clock.
pub proof fn law_age_is_written(secs: u64, now: u64, r: String, by_clock: String)
    requires
        call_ensures(format_timestamp_at, (secs, now), r),
        call_ensures(format_timestamp, (secs,), by_clock),
    ensures
        shows_age(r@, secs, now),
        exists|moment: Option<Moment>| #[trigger]
            call_ensures(Moment::now, (), moment) && shows_age(
                by_clock@,
                secs,
                match moment {
                    Some(moment) => moment.secs,
                    None => 0,
                },
            ),
{
    law_age_is_shown(secs, now);
    let moment = choose|moment: Option<Moment>| #[trigger]
        call_ensures(Moment::now, (), moment) && by_clock@ == time_ago(secs, seconds(moment));
    law_age_is_shown(secs, seconds(moment));
}

/// A moment is made of the seconds and nanoseconds since the epoch, and from
/// the nanoseconds it counts they can be told again; before the epoch there is
/// none, and its seconds are zero.
pub proof fn law_moment_counts_from_the_epoch(
    elapsed: Option<(u64, u32)>,
    moment: Option<Moment>,
    secs: u64,
    nanos: u128,
)
    requires
        call_ensures(Moment::after_epoch, (elapsed,), moment),
        call_ensures(seconds_of, (moment,), secs),
        moment matches Some(m) ==> m.well_formed() && call_ensures(Moment::as_nanos, (&m,), nanos),
    ensures
        elapsed is None <==> moment is None,
        moment is None ==> secs == 0,
        elapsed matches Some((s, n)) ==> secs == s && nanos / 1_000_000_000 == s && nanos
            % 1_000_000_000 == n,
{
}

} // verus!
