//! Calendar arithmetic and date parsing: leap years, Unix seconds to
//! civil dates by whole-year and whole-month counting, timestamp
//! formatting, and the human-readable date filters ("today",
//! "30 days ago", ISO dates).

use vstd::prelude::*;

use crate::text::{
    pad_left, parse_u64, str_eq, to_lower, spec_digits_value, spec_ends_with, spec_is_digit,
    spec_pad_left, spec_trim, spec_u64_string, strip_suffix, substring, trim, u64_to_string,
};

verus! {

/// Is `y` a leap year in the Gregorian calendar?
pub open spec fn spec_is_leap_year(y: int) -> bool {
    (y % 4 == 0 && y % 100 != 0) || y % 400 == 0
}

/// Returns `true` for Gregorian leap years.
pub fn is_leap_year(y: u64) -> (r: bool)
    ensures
        r == spec_is_leap_year(y as int),
{
    (y % 4 == 0 && y % 100 != 0) || y % 400 == 0
}

/// Days in year `y`.
pub open spec fn spec_days_in_year(y: int) -> int {
    if spec_is_leap_year(y) {
        366
    } else {
        365
    }
}

/// Counts full years forward from `y`, consuming `days`: the year the
/// day falls in and the remaining day-of-year index.
pub open spec fn spec_year_split(days: int, y: int) -> (int, int)
    decreases days,
{
    if 0 <= days && days >= spec_days_in_year(y) {
        spec_year_split(days - spec_days_in_year(y), y + 1)
    } else {
        (y, days)
    }
}

/// The length of month `m` (1-based) in a year of the given leapness.
pub open spec fn spec_month_len(leap: bool, m: int) -> int {
    if m == 1 {
        31
    } else if m == 2 {
        if leap {
            29
        } else {
            28
        }
    } else if m == 3 {
        31
    } else if m == 4 {
        30
    } else if m == 5 {
        31
    } else if m == 6 {
        30
    } else if m == 7 {
        31
    } else if m == 8 {
        31
    } else if m == 9 {
        30
    } else if m == 10 {
        31
    } else if m == 11 {
        30
    } else {
        31
    }
}

fn month_len(leap: bool, m: u64) -> (r: u64)
    ensures
        r as int == spec_month_len(leap, m as int),
        28 <= r <= 31,
{
    if m == 1 {
        31
    } else if m == 2 {
        if leap {
            29
        } else {
            28
        }
    } else if m == 3 {
        31
    } else if m == 4 {
        30
    } else if m == 5 {
        31
    } else if m == 6 {
        30
    } else if m == 7 {
        31
    } else if m == 8 {
        31
    } else if m == 9 {
        30
    } else if m == 10 {
        31
    } else if m == 11 {
        30
    } else {
        31
    }
}

/// Walks months from `m`, consuming `days`: the month the day falls in
/// and the remaining day-of-month index.
pub open spec fn spec_month_split(days: int, leap: bool, m: int) -> (int, int)
    decreases 12 - m,
{
    if m >= 12 {
        (12, days)
    } else if days < spec_month_len(leap, m) {
        (m, days)
    } else {
        spec_month_split(days - spec_month_len(leap, m), leap, m + 1)
    }
}

/// The (year, month, day-of-month index) triple a Unix timestamp's day
/// count resolves to.
pub open spec fn spec_civil_of_days(days: int) -> (int, int, int) {
    let split = spec_year_split(days, 1970);
    let msplit = spec_month_split(split.1, spec_is_leap_year(split.0), 1);
    (split.0, msplit.0, msplit.1 + 1)
}

/// Resolves a day count since 1970-01-01 into year, month and remaining
/// day index.
fn civil_of_days(days0: u64) -> (r: (u64, u64, u64))
    ensures
        r.0 as int == spec_civil_of_days(days0 as int).0,
        r.1 as int == spec_civil_of_days(days0 as int).1,
        r.2 as int == spec_civil_of_days(days0 as int).2,
        r.2 >= 1,
{
    let mut days = days0;
    let mut year: u64 = 1970;
    loop
        invariant
            spec_year_split(days as int, year as int) == spec_year_split(days0 as int, 1970),
            days <= days0,
            year >= 1970,
            (year - 1970) * 365 + days <= days0,
        ensures
            spec_year_split(days as int, year as int) == spec_year_split(days0 as int, 1970),
            (days as int) < spec_days_in_year(year as int),
        decreases days,
    {
        let in_year: u64 = if is_leap_year(year) {
            366
        } else {
            365
        };
        if days < in_year {
            break ;
        }
        days = days - in_year;
        proof {
            assert((year + 1 - 1970) * 365 + days <= days0);
        }
        year = year + 1;
    }
    proof {
        assert(spec_year_split(days as int, year as int) == (year as int, days as int));
    }
    let leap = is_leap_year(year);
    let ghost day_of_year = days as int;
    let mut month: u64 = 1;
    loop
        invariant
            1 <= month <= 12,
            days < 366,
            spec_month_split(days as int, leap, month as int) == spec_month_split(
                day_of_year,
                leap,
                1,
            ),
        ensures
            spec_month_split(days as int, leap, month as int) == spec_month_split(
                day_of_year,
                leap,
                1,
            ),
            month >= 12 || (days as int) < spec_month_len(leap, month as int),
            1 <= month <= 12,
            days < 366,
        decreases 12 - month,
    {
        let ml = month_len(leap, month);
        if month >= 12 || days < ml {
            break ;
        }
        days = days - ml;
        month = month + 1;
    }
    proof {
        assert(spec_month_split(days as int, leap, month as int) == (month as int, days as int));
    }
    (year, month, days + 1)
}

/// A number zero-padded to `width` digits.
pub open spec fn spec_zero_pad(n: int, width: int) -> Seq<char> {
    spec_pad_left(spec_u64_string(n), width, '0')
}

fn zero_pad(n: u64, width: usize) -> (r: String)
    ensures
        r@ == spec_zero_pad(n as int, width as int),
{
    let digits = u64_to_string(n);
    pad_left(digits.as_str(), width, '0')
}

/// The `YYYY-MM-DD` string of a day triple.
pub open spec fn spec_ymd_string(y: int, m: int, d: int) -> Seq<char> {
    spec_zero_pad(y, 4) + "-"@ + spec_zero_pad(m, 2) + "-"@ + spec_zero_pad(d, 2)
}

/// The `YYYY-MM-DD` string for a Unix timestamp.
pub open spec fn spec_unix_date(secs: int) -> Seq<char> {
    let c = spec_civil_of_days(secs / 86400);
    spec_ymd_string(c.0, c.1, c.2)
}

/// Converts a Unix timestamp (seconds, UTC) to a `YYYY-MM-DD` string.
pub fn unix_secs_to_date(secs: u64) -> (r: String)
    ensures
        r@ == spec_unix_date(secs as int),
{
    let (year, month, day) = civil_of_days(secs / 86400);
    let mut r = zero_pad(year, 4);
    r.append("-");
    let mp = zero_pad(month, 2);
    r.append(mp.as_str());
    r.append("-");
    let dp = zero_pad(day, 2);
    r.append(dp.as_str());
    proof {
        assert(r@ =~= spec_unix_date(secs as int));
    }
    r
}

/// Converts a Unix timestamp to its (year, month, day) triple.
pub fn unix_secs_to_ymd(secs: u64) -> (r: (u64, u64, u64))
    ensures
        r.0 as int == spec_civil_of_days(secs as int / 86400).0,
        r.1 as int == spec_civil_of_days(secs as int / 86400).1,
        r.2 as int == spec_civil_of_days(secs as int / 86400).2,
{
    civil_of_days(secs / 86400)
}

/// The `YYYY-MM-DD HH:MM:SS UTC` string for a Unix timestamp.
pub open spec fn spec_utc_timestamp(secs: int) -> Seq<char> {
    spec_unix_date(secs) + " "@ + spec_zero_pad(secs / 3600 % 24, 2) + ":"@ + spec_zero_pad(
        secs / 60 % 60,
        2,
    ) + ":"@ + spec_zero_pad(secs % 60, 2) + " UTC"@
}

/// Formats a Unix timestamp as `YYYY-MM-DD HH:MM:SS UTC`.
pub fn format_utc_from_secs(secs: u64) -> (r: String)
    ensures
        r@ == spec_utc_timestamp(secs as int),
{
    let mut r = unix_secs_to_date(secs);
    r.append(" ");
    let h = zero_pad(secs / 3600 % 24, 2);
    r.append(h.as_str());
    r.append(":");
    let m = zero_pad(secs / 60 % 60, 2);
    r.append(m.as_str());
    r.append(":");
    let s = zero_pad(secs % 60, 2);
    r.append(s.as_str());
    r.append(" UTC");
    proof {
        assert(r@ =~= spec_utc_timestamp(secs as int));
    }
    r
}

/// Relies on `std::time::SystemTime::now` and
/// `SystemTime::duration_since`: the current Unix time in seconds (zero
/// if the clock reads before the epoch).
#[verifier::external_body]
pub(crate) fn now_unix_secs() -> u64 {
    std::time::SystemTime::now()
        .duration_since(std::time::UNIX_EPOCH)
        .map(|d| d.as_secs())
        .unwrap_or(0)
}

/// Formats the current UTC time as `YYYY-MM-DD HH:MM:SS UTC`.
pub fn format_utc_now() -> (r: String)
    ensures
        exists|now: int| r@ == spec_utc_timestamp(now),
{
    let now = now_unix_secs();
    format_utc_from_secs(now)
}

/// Is `t` the start of an ISO date: at least ten characters, four
/// digits, then a dash?
pub open spec fn spec_iso_like(t: Seq<char>) -> bool {
    &&& t.len() >= 10
    &&& (forall|j: int| 0 <= j < 4 ==> spec_is_digit(#[trigger] t[j]))
    &&& t[4] == '-'
}

/// The day multiplier of a relative-date suffix, with the remaining
/// numeric part (already trimmed of the suffix, not of spaces):
/// "N days ago", "N weeks ago" and "N months ago" in singular or
/// plural.
pub open spec fn spec_relative_parts(lower: Seq<char>) -> Option<(Seq<char>, int)> {
    if spec_ends_with(lower, " days ago"@) {
        Some((lower.take(lower.len() - 9), 1int))
    } else if spec_ends_with(lower, " day ago"@) {
        Some((lower.take(lower.len() - 8), 1int))
    } else if spec_ends_with(lower, " weeks ago"@) {
        Some((lower.take(lower.len() - 10), 7int))
    } else if spec_ends_with(lower, " week ago"@) {
        Some((lower.take(lower.len() - 9), 7int))
    } else if spec_ends_with(lower, " months ago"@) {
        Some((lower.take(lower.len() - 11), 30int))
    } else if spec_ends_with(lower, " month ago"@) {
        Some((lower.take(lower.len() - 10), 30int))
    } else {
        None
    }
}

/// Is the numeric part of a relative date well formed: non-empty after
/// trimming, all digits, and within `u64`?
pub open spec fn spec_amount_ok(part: Seq<char>) -> bool {
    &&& spec_trim(part).len() > 0
    &&& (forall|j: int| 0 <= j < spec_trim(part).len() ==> spec_is_digit(#[trigger] spec_trim(part)[j]))
    &&& spec_digits_value(spec_trim(part)) <= u64::MAX
}

/// The date `days` days before `now`, clamped at the epoch.
pub open spec fn spec_date_days_ago(now: int, days: int) -> Seq<char> {
    if days * 86400 >= now {
        spec_unix_date(0)
    } else {
        spec_unix_date(now - days * 86400)
    }
}

/// Parses a date filter against the moment `now_secs`.
///
/// Accepted: ISO dates (`2024-01-15`, optionally with a time part,
/// truncated to the date), `today`, `yesterday`, and `N days ago` /
/// `N weeks ago` / `N months ago` (singular or plural, a month counted
/// as thirty days). Anything else is an error carrying a message.
pub fn parse_date_filter_at(s: &str, now_secs: u64) -> (r: Result<String, String>)
    ensures
        ({
            let t = spec_trim(s@);
            let lower = crate::text::spec_to_lower(t);
            &&& spec_iso_like(t) ==> (r matches Ok(d) && d@ == t.take(10))
            &&& !spec_iso_like(t) && lower == "today"@ ==> (r matches Ok(d) && d@ == spec_unix_date(now_secs as int))
            &&& !spec_iso_like(t) && lower == "yesterday"@ ==> (r matches Ok(d) && d@ == spec_date_days_ago(now_secs as int, 1))
            &&& !spec_iso_like(t) && lower != "today"@ && lower != "yesterday"@ ==> match spec_relative_parts(
                lower,
            ) {
                Some(parts) => {
                    &&& spec_amount_ok(parts.0) ==> ((r matches Ok(d) && d@
                        == spec_date_days_ago(
                        now_secs as int,
                        spec_digits_value(spec_trim(parts.0)) * parts.1,
                    )) || (r is Err && spec_digits_value(spec_trim(parts.0)) * parts.1
                        > u64::MAX))
                    &&& !spec_amount_ok(parts.0) ==> r is Err
                },
                None => r is Err,
            }
        }),
{
    proof {
        reveal_strlit("today");
        reveal_strlit("yesterday");
    }
    let trimmed = trim(s);
    let t = trimmed.as_str();
    let n = t.unicode_len();
    // ISO 8601: four digits, a dash, at least ten characters in all.
    if n >= 10 {
        let mut digits = true;
        let mut j: usize = 0;
        while j < 4
            invariant
                j <= 4,
                n == t@.len(),
                n >= 10,
                digits == (forall|k: int| 0 <= k < j ==> spec_is_digit(#[trigger] t@[k])),
            decreases 4 - j,
        {
            let c = t.get_char(j);
            if !('0' <= c && c <= '9') {
                digits = false;
            }
            j = j + 1;
        }
        if digits && t.get_char(4) == '-' {
            return Ok(substring(t, 0, 10));
        }
    }
    proof {
        assert(!spec_iso_like(trimmed@));
    }
    let lower = to_lower(t);
    let days_opt: Option<u64> = if str_eq(lower.as_str(), "today") {
        Some(0)
    } else if str_eq(lower.as_str(), "yesterday") {
        Some(1)
    } else {
        match relative_days(lower.as_str()) {
            Ok(d) => Some(d),
            Err(()) => None,
        }
    };
    match days_opt {
        Some(days) => {
            let back_wide: u128 = (days as u128) * 86400;
            let secs: u64 = if back_wide >= now_secs as u128 {
                0
            } else {
                now_secs - (back_wide as u64)
            };
            Ok(unix_secs_to_date(secs))
        },
        None => {
            let mut msg = String::new();
            msg.append("unrecognized date: ");
            msg.append(t);
            Err(msg)
        },
    }
}

/// The day count of a relative-date phrase in `lower`, already
/// lowercased: `Err(())` when the phrase or its number is malformed.
fn relative_days(lower: &str) -> (r: Result<u64, ()>)
    ensures
        match spec_relative_parts(lower@) {
            Some(parts) => {
                &&& spec_amount_ok(parts.0) ==> ((r matches Ok(d) && d as int
                    == spec_digits_value(spec_trim(parts.0)) * parts.1) || (r is Err
                    && spec_digits_value(spec_trim(parts.0)) * parts.1 > u64::MAX))
                &&& !spec_amount_ok(parts.0) ==> r is Err
            },
            None => r is Err,
        },
{
    proof {
        reveal_strlit(" days ago");
        reveal_strlit(" day ago");
        reveal_strlit(" weeks ago");
        reveal_strlit(" week ago");
        reveal_strlit(" months ago");
        reveal_strlit(" month ago");
    }
    // Written out so each suffix has its spec-side counterpart.
    let s1 = strip_suffix(lower, " days ago");
    if let Some(part) = s1 {
        return amount_times(part.as_str(), 1);
    }
    let s2 = strip_suffix(lower, " day ago");
    if let Some(part) = s2 {
        return amount_times(part.as_str(), 1);
    }
    let s3 = strip_suffix(lower, " weeks ago");
    if let Some(part) = s3 {
        return amount_times(part.as_str(), 7);
    }
    let s4 = strip_suffix(lower, " week ago");
    if let Some(part) = s4 {
        return amount_times(part.as_str(), 7);
    }
    let s5 = strip_suffix(lower, " months ago");
    if let Some(part) = s5 {
        return amount_times(part.as_str(), 30);
    }
    let s6 = strip_suffix(lower, " month ago");
    if let Some(part) = s6 {
        return amount_times(part.as_str(), 30);
    }
    Err(())
}

/// Parses the numeric part and multiplies by the unit's day count;
/// `Err(())` when malformed or out of range.
fn amount_times(part: &str, mult: u64) -> (r: Result<u64, ()>)
    requires
        1 <= mult <= 30,
    ensures
        spec_amount_ok(part@) ==> ((r matches Ok(d) && d as int == spec_digits_value(
            spec_trim(part@),
        ) * mult) || (r is Err && spec_digits_value(spec_trim(part@)) * mult > u64::MAX)),
        !spec_amount_ok(part@) ==> r is Err,
{
    let cleaned = trim(part);
    match parse_u64(cleaned.as_str()) {
        Some(n) => {
            if n <= u64::MAX / mult {
                proof {
                    vstd::arithmetic::div_mod::lemma_remainder_lower(u64::MAX as int, mult as int);
                    vstd::arithmetic::mul::lemma_mul_inequality(
                        n as int,
                        u64::MAX as int / mult as int,
                        mult as int,
                    );
                    vstd::arithmetic::mul::lemma_mul_is_commutative(
                        u64::MAX as int / mult as int,
                        mult as int,
                    );
                }
                Ok(n * mult)
            } else {
                proof {
                    vstd::arithmetic::div_mod::lemma_remainder_upper(u64::MAX as int, mult as int);
                    vstd::arithmetic::mul::lemma_mul_inequality(
                        u64::MAX as int / mult as int + 1,
                        n as int,
                        mult as int,
                    );
                    vstd::arithmetic::mul::lemma_mul_is_commutative(
                        u64::MAX as int / mult as int,
                        mult as int,
                    );
                    vstd::arithmetic::mul::lemma_mul_is_distributive_add_other_way(
                        mult as int,
                        u64::MAX as int / mult as int,
                        1,
                    );
                }
                Err(())
            }
        },
        None => Err(()),
    }
}

/// Parses a date filter against the current moment; see
/// [`parse_date_filter_at`] for the accepted forms and the exact result
/// of each.
pub fn parse_date_filter(s: &str) -> (r: Result<String, String>)
    ensures
        spec_iso_like(spec_trim(s@)) ==> (r matches Ok(d) && d@ == spec_trim(s@).take(10)),
        ({
            let lower = crate::text::spec_to_lower(spec_trim(s@));
            !spec_iso_like(spec_trim(s@)) && lower != "today"@ && lower != "yesterday"@
                && spec_relative_parts(lower) is None ==> r is Err
        }),
{
    let now = now_unix_secs();
    parse_date_filter_at(s, now)
}

} // verus!
