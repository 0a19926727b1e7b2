//! Request history: the recorded entries, their newest-first listing, and
//! UTC timestamp formatting.

use vstd::prelude::*;
use std::time::{Duration, SystemTime, UNIX_EPOCH};
use crate::paths::{data_file, joined};
use crate::calendar::{date_after_epoch, days_in_month, law_civil_days_step, law_civil_from_days_is_the_calendar};

verus! {

/// One recorded send. `status`/`elapsed_ms` are present on a completed
/// response; `error` is present instead when the transport failed.
#[derive(Debug, Clone)]
pub struct HistoryEntry {
    pub ts_ms: u64,
    pub name: String,
    pub method: String,
    pub url: String,
    pub status: Option<u16>,
    pub elapsed_ms: Option<u64>,
    pub error: Option<String>,
}

/// The entries newest first (the stored order reversed), at most `n` of
/// them.
pub open spec fn newest_first_spec<T>(entries: Seq<T>, n: nat) -> Seq<T> {
    let rev = entries.reverse();
    if n < rev.len() {
        rev.take(n as int)
    } else {
        rev
    }
}

/// The most recent `n` of `entries` (stored oldest first), newest first.
pub fn recent(entries: Vec<HistoryEntry>, n: usize) -> (r: Vec<HistoryEntry>)
    ensures
        r@ == newest_first_spec(entries@, n as nat),
{
    let mut entries = entries;
    let ghost orig = entries@;
    let mut out: Vec<HistoryEntry> = Vec::new();
    while out.len() < n && entries.len() > 0
        invariant
            out@.len() + entries@.len() == orig.len(),
            entries@ == orig.take(entries@.len() as int),
            out@ == orig.reverse().take(out@.len() as int),
            out@.len() <= n,
        decreases entries@.len(),
    {
        let e = entries.pop().unwrap();
        proof {
            assert(e == orig[entries@.len() as int]);
            assert(orig.reverse()[out@.len() as int] == e);
        }
        let ghost before = out@;
        out.push(e);
        proof {
            assert(out@ =~= orig.reverse().take(out@.len() as int));
            assert(entries@ =~= orig.take(entries@.len() as int));
        }
    }
    proof {
        if n < orig.len() {
            assert(out@.len() == n);
        } else {
            assert(out@.len() == orig.len());
            assert(orig.reverse().take(orig.len() as int) =~= orig.reverse());
        }
    }
    out
}

/// The clock reading (`SystemTime::now`).
#[verifier::external_body]
fn system_now() -> SystemTime {
    SystemTime::now()
}

/// `SystemTime::duration_since(UNIX_EPOCH)`: the time elapsed since the Unix
/// epoch, or nothing when `t` lies before it.
#[verifier::external_body]
fn since_unix_epoch(t: &SystemTime) -> Option<Duration> {
    t.duration_since(UNIX_EPOCH).ok()
}

/// The whole milliseconds of a duration (`Duration::as_millis`).
pub uninterp spec fn duration_millis(d: Duration) -> u128;

/// `Duration::as_millis`: the whole milliseconds of `d`, a function of the
/// duration alone.
#[verifier::external_body]
pub(crate) fn whole_millis(d: &Duration) -> (r: u128)
    ensures
        r == duration_millis(*d),
{
    d.as_millis()
}

/// Milliseconds since the Unix epoch as stored in the history: the low 64 bits
/// of `since` when the clock is past the epoch, 0 when it is before it.
pub fn epoch_millis(since: Option<u128>) -> (r: u64)
    ensures
        r == match since {
            Some(ms) => ms as u64,
            None => 0u64,
        },
{
    match since {
        Some(ms) => ms as u64,
        None => 0,
    }
}

/// Milliseconds since the Unix epoch, or 0 if the clock is before it (see
/// [`epoch_millis`]). The reading itself depends on the clock, so nothing is
/// stated of it.
pub fn now_ms() -> u64 {
    let t = system_now();
    let since = match since_unix_epoch(&t) {
        Some(d) => Some(whole_millis(&d)),
        None => None,
    };
    epoch_millis(since)
}

/// The history file `history.jsonl` in the data directory `dir`; nothing when
/// no data directory could be determined.
pub fn history_path(dir: Option<String>) -> (r: Option<String>)
    ensures
        match dir {
            Some(d) => r matches Some(p) && p@ == joined(d@, "history.jsonl"@),
            None => r is None,
        },
{
    data_file(dir, "history.jsonl")
}

/// The civil (year, month, day) of the day `z` days after 1970-01-01, by
/// Howard Hinnant's `civil_from_days` over the proleptic Gregorian calendar
/// (eras of 400 years, years counted from March).
pub open spec fn civil_from_days_spec(z: int) -> (int, int, int) {
    let z = z + 719_468;
    let era = z / 146_097;
    let doe = z - era * 146_097;
    let yoe = (doe - doe / 1460 + doe / 36_524 - doe / 146_096) / 365;
    let y = yoe + era * 400;
    let doy = doe - (365 * yoe + yoe / 4 - yoe / 100);
    let mp = (5 * doy + 2) / 153;
    let d = doy - (153 * mp + 2) / 5 + 1;
    let m = if mp < 10 {
        mp + 3
    } else {
        mp - 9
    };
    (if m <= 2 {
        y + 1
    } else {
        y
    }, m, d)
}

/// Converts a count of days since the Unix epoch, before or after it, into
/// a (year, month, day) civil date.
pub fn civil_from_days(z: i64) -> (r: (i64, u32, u32))
    requires
        z <= i64::MAX - 719_468,
    ensures
        (r.0 as int, r.1 as int, r.2 as int) == civil_from_days_spec(z as int),
        1 <= r.1 <= 12,
        1 <= r.2 <= days_in_month(r.0 as int, r.1 as int),
{
    proof {
        law_civil_days_step(z as int);
    }
    let z = z + 719_468;
    let era = if z >= 0 {
        z
    } else {
        z - 146_096
    } / 146_097;
    let doe = z - era * 146_097;
    assert(era == z / 146_097);
    assert(0 <= doe < 146_097) by (nonlinear_arith)
        requires
            era == z / 146_097,
            doe == z - era * 146_097,
    ;
    let yoe = (doe - doe / 1460 + doe / 36_524 - doe / 146_096) / 365;
    assert(0 <= yoe <= 399) by (nonlinear_arith)
        requires
            0 <= doe < 146_097,
            yoe == (doe - doe / 1460 + doe / 36_524 - doe / 146_096) / 365,
    ;
    let y = yoe + era * 400;
    let doy = doe - (365 * yoe + yoe / 4 - yoe / 100);
    assert(0 <= doy <= 365) by (nonlinear_arith)
        requires
            0 <= doe < 146_097,
            yoe == (doe - doe / 1460 + doe / 36_524 - doe / 146_096) / 365,
            doy == doe - (365 * yoe + yoe / 4 - yoe / 100),
    ;
    let mp = (5 * doy + 2) / 153;
    let d = (doy - (153 * mp + 2) / 5 + 1) as u32;
    assert(1 <= doy - (153 * mp + 2) / 5 + 1 <= 31) by (nonlinear_arith)
        requires
            0 <= doy <= 365,
            mp == (5 * doy + 2) / 153,
    ;
    let m = if mp < 10 {
        mp + 3
    } else {
        mp - 9
    } as u32;
    (y + if m <= 2 {
        1
    } else {
        0
    }, m, d)
}

/// The decimal digits of `n`.
pub open spec fn decimal(n: nat) -> Seq<char>
    decreases n,
{
    if n < 10 {
        seq![(('0' as u32) + n) as char]
    } else {
        decimal(n / 10).push((('0' as u32) + n % 10) as char)
    }
}

/// The decimal digits of `n`, padded with leading zeros to at least `w`
/// characters (`{:0w}`).
pub open spec fn padded(n: nat, w: nat) -> Seq<char> {
    let ds = decimal(n);
    if ds.len() < w {
        Seq::new((w - ds.len()) as nat, |i: int| '0') + ds
    } else {
        ds
    }
}

/// The UTC text `YYYY-MM-DD HH:MM:SS` of `ms` milliseconds since the epoch:
/// the calendar date that many whole days after 1970-01-01, and the time of
/// day of the remaining seconds.
pub open spec fn format_ts_spec(ms: nat) -> Seq<char> {
    let secs = ms / 1000;
    let days = secs / 86_400;
    let rem = secs % 86_400;
    let (y, mo, d) = date_after_epoch(days);
    padded(y as nat, 4) + seq!['-'] + padded(mo as nat, 2) + seq!['-'] + padded(d as nat, 2)
        + seq![' '] + padded(rem / 3600, 2) + seq![':'] + padded((rem % 3600) / 60, 2) + seq![':']
        + padded(rem % 60, 2)
}

/// Appends the decimal digits of `n`, zero-padded to at least `w`.
pub(crate) fn push_padded(s: &mut String, n: u64, w: usize)
    ensures
        final(s)@ == old(s)@ + padded(n as nat, w as nat),
{
    let mut digits: Vec<char> = Vec::new();
    let mut v = n;
    loop
        invariant_except_break
            decimal(n as nat) == decimal(v as nat) + digits@.reverse(),
        ensures
            decimal(n as nat) == digits@.reverse(),
        decreases v,
    {
        let c = char_of_digit(v % 10);
        let ghost before = digits@;
        digits.push(c);
        proof {
            assert(digits@.reverse() =~= seq![c] + before.reverse());
        }
        if v < 10 {
            proof {
                assert(decimal(v as nat) =~= seq![c]);
                assert(decimal(n as nat) =~= digits@.reverse());
            }
            break;
        }
        proof {
            assert(decimal(v as nat) =~= decimal((v / 10) as nat).push(c));
            assert(decimal((v / 10) as nat) + digits@.reverse() =~= decimal((v / 10) as nat) + (
            seq![c] + before.reverse()));
        }
        v = v / 10;
    }
    let ghost ds = decimal(n as nat);
    let ghost start = s@;
    let mut k: usize = digits.len();
    while k < w
        invariant
            digits@.len() <= k,
            digits@.len() < w ==> k <= w,
            digits@.len() >= w ==> k == digits@.len(),
            ds == digits@.reverse(),
            s@ == start + Seq::new((k - digits@.len()) as nat, |i: int| '0'),
        decreases w - k,
    {
        s.push('0');
        k += 1;
        proof {
            assert(s@ =~= start + Seq::new((k - digits@.len()) as nat, |i: int| '0'));
        }
    }
    let ghost zeros = s@;
    let mut i: usize = digits.len();
    while i > 0
        invariant
            i <= digits@.len(),
            ds == digits@.reverse(),
            s@ == zeros + digits@.reverse().take((digits@.len() - i) as int),
        decreases i,
    {
        i -= 1;
        s.push(digits[i]);
        proof {
            assert(digits@.reverse()[(digits@.len() - i - 1) as int] == digits@[i as int]);
            assert(s@ =~= zeros + digits@.reverse().take((digits@.len() - i) as int));
        }
    }
    proof {
        assert(digits@.reverse().take(digits@.len() as int) =~= digits@.reverse());
        if ds.len() < w {
            assert(zeros =~= start + Seq::new((w - ds.len()) as nat, |i: int| '0'));
        } else {
            assert(zeros =~= start + Seq::<char>::empty());
        }
        assert(s@ =~= start + padded(n as nat, w as nat));
    }
}

/// The character of decimal digit `d`.
fn char_of_digit(d: u64) -> (c: char)
    requires
        d < 10,
    ensures
        c == (('0' as u32) + d) as char,
{
    let c = (48 + d as u8) as char;
    proof {
        assert(('0' as u32) == 48);
    }
    c
}

/// Formats epoch milliseconds as a UTC `YYYY-MM-DD HH:MM:SS` string.
pub fn format_ts(ms: u64) -> (r: String)
    ensures
        r@ == format_ts_spec(ms as nat),
{
    let secs = ms / 1000;
    let days = (secs / 86_400) as i64;
    let rem = secs % 86_400;
    let (h, m, s) = (rem / 3600, (rem % 3600) / 60, rem % 60);
    let (y, mo, d) = civil_from_days(days);
    assert(y >= 0) by (nonlinear_arith)
        requires
            (y as int, mo as int, d as int) == civil_from_days_spec(days as int),
            0 <= days,
    ;
    proof {
        law_civil_from_days_is_the_calendar(days as nat);
    }
    let mut out = String::new();
    push_padded(&mut out, y as u64, 4);
    out.push('-');
    push_padded(&mut out, mo as u64, 2);
    out.push('-');
    push_padded(&mut out, d as u64, 2);
    out.push(' ');
    push_padded(&mut out, h, 2);
    out.push(':');
    push_padded(&mut out, m, 2);
    out.push(':');
    push_padded(&mut out, s, 2);
    proof {
        assert(out@ =~= format_ts_spec(ms as nat));
    }
    out
}

} // verus!
