//! The names of temporary files.

use vstd::prelude::*;
use vstd::string::*;
use crate::text;

verus! {

/// A prefix, a time in nanoseconds and the number of a process.
pub open spec fn stamped(prefix: Seq<char>, nanos: nat, process: nat) -> Seq<char> {
    prefix + text::decimal(nanos) + "-"@ + text::decimal(process)
}

/// Writes a prefix, a time in nanoseconds and the number of a process.
fn stamp(prefix: &str, nanos: u128, process: u32) -> (r: String)
    ensures
        r@ == stamped(prefix@, nanos as nat, process as nat),
{
    let mut r = prefix.to_owned();
    text::push_decimal(&mut r, nanos);
    let mut r = r.concat("-");
    text::push_decimal(&mut r, process as u128);
    r
}

/// The name of the file that holds an upload while it is encrypted.
pub fn upload_temp_name(nanos: u128, process: u32) -> (r: String)
    ensures
        r@ == stamped("capsule-"@, nanos as nat, process as nat),
{
    stamp("capsule-", nanos, process)
}

/// The name of the file that holds a download until it is decrypted.
pub fn download_temp_name(nanos: u128, process: u32) -> (r: String)
    ensures
        r@ == stamped("capsule-dl-"@, nanos as nat, process as nat),
{
    stamp("capsule-dl-", nanos, process)
}

/// Decimal digits are digits, and there is at least one.
proof fn lemma_decimal_digits(n: nat)
    ensures
        text::decimal(n).len() > 0,
        forall|i: int| 0 <= i < text::decimal(n).len() ==> '0' <= #[trigger] text::decimal(n)[i] <= '9',
    decreases n,
{
    if n >= 10 {
        lemma_decimal_digits(n / 10);
    }
}

/// Two numbers with the same decimal digits are the same.
proof fn lemma_decimal_injective(m: nat, n: nat)
    requires
        text::decimal(m) == text::decimal(n),
    ensures
        m == n,
    decreases m,
{
    lemma_decimal_digits(m / 10);
    lemma_decimal_digits(n / 10);
    assert(text::decimal(m).last() == text::digit(m % 10));
    assert(text::decimal(n).last() == text::digit(n % 10));
    assert(text::digit(m % 10) as u32 == 48 + m % 10);
    assert(text::digit(n % 10) as u32 == 48 + n % 10);
    if m >= 10 && n >= 10 {
        assert(text::decimal(m).drop_last() =~= text::decimal(m / 10));
        assert(text::decimal(n).drop_last() =~= text::decimal(n / 10));
        lemma_decimal_injective(m / 10, n / 10);
    }
}

/// Temporary files of one kind made at different times, or by different
/// processes, have different names.
pub proof fn law_temp_names_differ(prefix: Seq<char>, m: nat, p: nat, n: nat, q: nat)
    requires
        stamped(prefix, m, p) == stamped(prefix, n, q),
    ensures
        m == n && p == q,
{
    reveal_strlit("-");
    lemma_decimal_digits(m);
    lemma_decimal_digits(p);
    lemma_decimal_digits(n);
    lemma_decimal_digits(q);
    let a = stamped(prefix, m, p);
    let k = prefix.len() as int;
    let i = text::decimal(m).len() as int;
    let j = text::decimal(n).len() as int;
    assert(a[k + i] == '-');
    assert(stamped(prefix, n, q)[k + j] == '-');
    if i < j {
        assert(stamped(prefix, n, q)[k + i] == text::decimal(n)[i]);
    } else if j < i {
        assert(a[k + j] == text::decimal(m)[j]);
    }
    assert(text::decimal(m) =~= a.subrange(k, k + i));
    assert(text::decimal(n) =~= stamped(prefix, n, q).subrange(k, k + j));
    assert(text::decimal(p) =~= a.skip(k + i + 1));
    assert(text::decimal(q) =~= stamped(prefix, n, q).skip(k + j + 1));
    lemma_decimal_injective(m, n);
    lemma_decimal_injective(p, q);
}

/// A temporary file of an upload never has the name of one of a download.
pub proof fn law_temp_kinds_differ(m: nat, p: nat, n: nat, q: nat)
    ensures
        stamped("capsule-"@, m, p) != stamped("capsule-dl-"@, n, q),
{
    reveal_strlit("capsule-");
    reveal_strlit("capsule-dl-");
    lemma_decimal_digits(m);
    assert(stamped("capsule-"@, m, p)[8] == text::decimal(m)[0]);
    assert(stamped("capsule-dl-"@, n, q)[8] == 'd');
}

/// The name of a temporary file is a word for its kind, the numeral of the
/// time, a hyphen and the numeral of the process.
pub proof fn law_temp_names(nanos: u128, process: u32, upload: String, download: String)
    requires
        call_ensures(upload_temp_name, (nanos, process), upload),
        call_ensures(download_temp_name, (nanos, process), download),
    ensures
        exists|time: Seq<char>, number: Seq<char>| #[trigger]
            text::is_numeral(time, nanos as nat) && #[trigger] text::is_numeral(
                number,
                process as nat,
            ) && upload@ == "capsule-"@ + time + "-"@ + number && download@ == "capsule-dl-"@ + time
                + "-"@ + number,
{
    text::law_decimal_is_the_numeral(nanos as nat);
    text::law_decimal_is_the_numeral(process as nat);
}

} // verus!
