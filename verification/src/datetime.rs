//! Timestamps: RFC 3339 text to and from Unix seconds and their display,
//! computed by `chrono`, and the UTC calendar date of Unix seconds.

use vstd::prelude::*;

verus! {

/// Earliest Unix second that an RFC 3339 text can denote (year 0000 with
/// the largest positive offset).
pub open spec fn rfc3339_min_ts() -> int {
    -62167305599
}

/// Latest Unix second that an RFC 3339 text can denote (year 9999 with the
/// largest negative offset).
pub open spec fn rfc3339_max_ts() -> int {
    253402387199
}

/// Unix seconds whose UTC date has a four-digit year (0000 to 9999).
pub open spec fn four_digit_year_ts(ts: int) -> bool {
    -62167219200 <= ts <= 253402300799
}

/// What `DateTime::parse_from_rfc3339` followed by `timestamp()` gives for
/// a text: the Unix seconds, or the text of the parse error.
pub uninterp spec fn rfc3339_parse(s: Seq<char>) -> Result<i64, Seq<char>>;

/// Whether `s` parses as RFC 3339 text denoting the Unix second `t`.
pub open spec fn parses_to(s: Seq<char>, t: i64) -> bool {
    rfc3339_parse(s) == Ok::<i64, Seq<char>>(t)
}

/// What `DateTime::<Utc>::from_timestamp(ts, 0)` followed by `to_rfc3339()`
/// gives.
pub uninterp spec fn rfc3339_render(ts: i64) -> Seq<char>;

/// What the `Display` of `DateTime::<Utc>::from_timestamp(ts, 0)` gives
/// (such as `2024-01-01 00:00:00 UTC`).
pub uninterp spec fn utc_display(ts: i64) -> Seq<char>;

/// The proleptic Gregorian date `(year, month, day)` of the day `z`
/// counted from 1970-01-01 (day 0), by eras of 400 years starting on
/// March 1st.
pub open spec fn civil_from_days(z: int) -> (int, int, int) {
    let za = z + 719468;
    let era = za / 146097;
    let doe = za % 146097;
    let yoe = (doe - doe / 1460 + doe / 36524 - doe / 146096) / 365;
    let doy = doe - (365 * yoe + yoe / 4 - yoe / 100);
    let mp = (5 * doy + 2) / 153;
    let d = doy - (153 * mp + 2) / 5 + 1;
    let m = if mp < 10 {
        mp + 3
    } else {
        mp - 9
    };
    (yoe + era * 400 + if m <= 2 {
        1int
    } else {
        0int
    }, m, d)
}

/// The UTC calendar date `(year, month, day)` of Unix seconds: the date of
/// the day the second falls in.
pub open spec fn utc_date(ts: i64) -> (i32, u32, u32) {
    let (y, m, d) = civil_from_days(ts as int / 86400);
    (y as i32, m as u32, d as u32)
}

/// Parses RFC 3339 text into Unix seconds (`DateTime::parse_from_rfc3339`).
/// Claims: the result is the named parse of the text; a successful parse
/// lies in the range that a four-digit year with an offset of less than a
/// day allows (chrono reads exactly four year digits and offsets up to
/// 23:59).
#[verifier::external_body]
pub fn parse_rfc3339_seconds(s: &str) -> (r: Result<i64, String>)
    ensures
        match r {
            Ok(t) => parses_to(s@, t) && rfc3339_min_ts() <= t <= rfc3339_max_ts(),
            Err(m) => rfc3339_parse(s@) == Err::<i64, Seq<char>>(m@),
        },
{
    match chrono::DateTime::parse_from_rfc3339(s) {
        Ok(dt) => Ok(dt.timestamp()),
        Err(e) => Err(e.to_string()),
    }
}

/// Renders Unix seconds as RFC 3339 text in UTC (`from_timestamp` then
/// `to_rfc3339`). Claims: the result is the named rendering; for a UTC date
/// with a four-digit year, parsing the rendering gives the seconds back.
#[verifier::external_body]
pub fn render_rfc3339(ts: i64) -> (text: String)
    requires
        rfc3339_min_ts() <= ts <= rfc3339_max_ts(),
    ensures
        text@ == rfc3339_render(ts),
        four_digit_year_ts(ts as int) ==> parses_to(text@, ts),
{
    match chrono::DateTime::<chrono::Utc>::from_timestamp(ts, 0) {
        Some(dt) => dt.to_rfc3339(),
        None => String::new(),
    }
}

/// Shows Unix seconds the way chrono's `Display` shows a UTC date and time
/// (`from_timestamp(ts, 0)` then `to_string()`). Claims only that the
/// result is the named text.
#[verifier::external_body]
pub fn display_utc(ts: i64) -> (text: String)
    requires
        rfc3339_min_ts() <= ts <= rfc3339_max_ts(),
    ensures
        text@ == utc_display(ts),
{
    match chrono::DateTime::<chrono::Utc>::from_timestamp(ts, 0) {
        Some(dt) => dt.to_string(),
        None => String::new(),
    }
}

/// The UTC calendar date `(year, month, day)` of Unix seconds (see
/// `utc_date`). The count is shifted by five 400-year eras so that every
/// intermediate quantity is non-negative.
pub fn utc_calendar_date(ts: i64) -> (r: (i32, u32, u32))
    requires
        rfc3339_min_ts() <= ts <= rfc3339_max_ts(),
    ensures
        r == utc_date(ts),
{
    let shifted: u64 = (ts + 63113904000) as u64;
    let za: u64 = shifted / 86400 + 719468;
    proof {
        let z = ts as int / 86400 + 719468;
        assert(shifted as int / 86400 == ts as int / 86400 + 730485);
        assert(za == z + 730485);
        assert(za as int / 146097 == z / 146097 + 5);
        assert(za as int % 146097 == z % 146097);
    }
    let era: u64 = za / 146097;
    let doe: u64 = za % 146097;
    let yoe: u64 = (doe - doe / 1460 + doe / 36524 - doe / 146096) / 365;
    let doy: u64 = doe - (365 * yoe + yoe / 4 - yoe / 100);
    let mp: u64 = (5 * doy + 2) / 153;
    let d: u64 = doy - (153 * mp + 2) / 5 + 1;
    let m: u64 = if mp < 10 {
        mp + 3
    } else {
        mp - 9
    };
    let y: i64 = yoe as i64 + (era as i64) * 400 - 2000 + if m <= 2 {
        1
    } else {
        0
    };
    (y as i32, m as u32, d as u32)
}

} // verus!
