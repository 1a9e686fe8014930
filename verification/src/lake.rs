//! The in-memory steps of the local lake engine that work on time: which
//! records fall in a query's time window, the time by which result rows are
//! ordered, the truncation of `date_trunc` buckets, and the schema types by
//! which record values are read.
//!
//! Times may be written in seconds or in milliseconds: a value above
//! `100_000_000_000` is taken as milliseconds.
use vstd::prelude::*;
use vstd::string::StringExecFns;
use crate::codice::{AttrType, AttributeDescriptor};
use crate::numbers::{parse_i64, parse_int};
use chrono::Datelike;
use crate::sql_parse::entity::{clean_expr_field, clean_field};
use crate::sql_parse::final_expr::has;
use crate::text::{chars_of, eq_chars, find_from_exec, lowercase, same_text, to_lowercase};

verus! {

/// A record field as the time logic reads it: an integer number, a string,
/// or anything else (other numbers, booleans, null, lists, objects).
#[derive(Debug)]
pub enum TimeField {
    Int(i64),
    Text(String),
    Other,
}

/// The integer that a field holds: the number itself, or the text read as
/// an `i64`.
pub open spec fn field_int(f: TimeField) -> Option<int> {
    match f {
        TimeField::Int(n) => Some(n as int),
        TimeField::Text(s) => parse_int(s@),
        TimeField::Other => None,
    }
}

/// The integer that a field holds.
pub fn field_as_i64(f: &TimeField) -> (r: Option<i64>)
    ensures
        match field_int(*f) {
            Some(n) => r matches Some(x) && x == n,
            None => r is None,
        },
{
    match f {
        TimeField::Int(n) => Some(*n),
        TimeField::Text(s) => parse_i64(&chars_of(s.as_str())),
        TimeField::Other => None,
    }
}

/// The field behind an optional reference.
pub open spec fn deref_field(f: Option<&TimeField>) -> Option<TimeField> {
    match f {
        Some(x) => Some(*x),
        None => None,
    }
}

/// The first present field among `fields`, read as an integer: the first
/// present one decides, even when it holds no integer.
pub open spec fn first_present_int(fields: Seq<Option<TimeField>>) -> Option<int>
    decreases fields.len(),
{
    if fields.len() == 0 {
        None
    } else {
        match fields[0] {
            Some(f) => field_int(f),
            None => first_present_int(fields.drop_first()),
        }
    }
}

/// The time of a record: its `timestamp` field if present, else its
/// `created_at` field, read as an integer.
pub fn record_time(timestamp: Option<&TimeField>, created_at: Option<&TimeField>) -> (r: Option<i64>)
    ensures
        match first_present_int(seq![deref_field(timestamp), deref_field(created_at)]) {
            Some(n) => r matches Some(x) && x == n,
            None => r is None,
        },
{
    let ghost fields = seq![deref_field(timestamp), deref_field(created_at)];
    assert(fields.drop_first() =~= seq![deref_field(created_at)]);
    assert(fields.drop_first().drop_first() =~= Seq::<Option<TimeField>>::empty());
    proof {
        reveal_with_fuel(first_present_int, 3);
    }
    match timestamp {
        Some(f) => field_as_i64(f),
        None => match created_at {
            Some(f) => field_as_i64(f),
            None => None,
        },
    }
}

/// A time in seconds: values above `100_000_000_000` are milliseconds.
pub open spec fn in_seconds(t: int) -> int {
    if t > 100_000_000_000 {
        t / 1000
    } else {
        t
    }
}

/// A time in seconds.
pub fn to_seconds(t: i64) -> (r: i64)
    ensures
        r == in_seconds(t as int),
{
    if t > 100_000_000_000 {
        t / 1000
    } else {
        t
    }
}

/// Whether a record with time `record` falls in the window `[start, end]`,
/// all compared in seconds; a record without a time is kept, and so is every
/// record when the window has no bound.
pub open spec fn in_window(record: Option<int>, start: Option<int>, end: Option<int>) -> bool {
    match record {
        None => true,
        Some(r) => {
            &&& (start matches Some(s) ==> in_seconds(r) >= in_seconds(s))
            &&& (end matches Some(e) ==> in_seconds(r) <= in_seconds(e))
        },
    }
}

/// Whether a record with time `record` falls in the window `[start, end]`.
pub fn within_time_range(record: Option<i64>, start: Option<i64>, end: Option<i64>) -> (r: bool)
    ensures
        r == in_window(
            match record {
                Some(x) => Some(x as int),
                None => None,
            },
            match start {
                Some(x) => Some(x as int),
                None => None,
            },
            match end {
                Some(x) => Some(x as int),
                None => None,
            },
        ),
{
    let t = match record {
        None => return true,
        Some(t) => to_seconds(t),
    };
    if let Some(s) = start {
        if t < to_seconds(s) {
            return false;
        }
    }
    if let Some(e) = end {
        if t > to_seconds(e) {
            return false;
        }
    }
    true
}

/// The ordering time of a result row: its `timestamp`, else `created_at`,
/// else `bucket`, else `current_bucket` field (the first one present),
/// read as an integer; 0 when that field holds no integer or none is present.
pub fn extract_ts(
    timestamp: Option<&TimeField>,
    created_at: Option<&TimeField>,
    bucket: Option<&TimeField>,
    current_bucket: Option<&TimeField>,
) -> (r: i64)
    ensures
        r == match first_present_int(
            seq![
                deref_field(timestamp),
                deref_field(created_at),
                deref_field(bucket),
                deref_field(current_bucket),
            ],
        ) {
            Some(n) => n,
            None => 0,
        },
{
    let ghost fields = seq![
        deref_field(timestamp),
        deref_field(created_at),
        deref_field(bucket),
        deref_field(current_bucket),
    ];
    assert(fields.drop_first() =~= seq![fields[1], fields[2], fields[3]]);
    assert(fields.drop_first().drop_first() =~= seq![fields[2], fields[3]]);
    assert(fields.drop_first().drop_first().drop_first() =~= seq![fields[3]]);
    assert(fields.drop_first().drop_first().drop_first().drop_first() =~= Seq::<Option<TimeField>>::empty());
    proof {
        reveal_with_fuel(first_present_int, 5);
    }
    let chosen = match timestamp {
        Some(f) => Some(f),
        None => match created_at {
            Some(f) => Some(f),
            None => match bucket {
                Some(f) => Some(f),
                None => current_bucket,
            },
        },
    };
    match chosen {
        Some(f) => match field_as_i64(f) {
            Some(n) => n,
            None => 0,
        },
        None => 0,
    }
}

/// The calendar units of `date_trunc`.
#[derive(Debug, Clone, Copy, PartialEq, Eq, Structural)]
pub enum TimeUnit {
    Minute,
    Hour,
    Day,
    Week,
    Month,
    Year,
}

/// The earliest second that `chrono` can hold: the first of January of the
/// year -262143, midnight UTC.
pub const EARLIEST_SECOND: i64 = -8_334_601_228_800;

/// The last second that `chrono` can hold: the last second of the year 262142.
pub const LATEST_SECOND: i64 = 8_210_266_876_799;

/// A second that `chrono` can hold as a date and time.
pub open spec fn on_calendar(secs: int) -> bool {
    EARLIEST_SECOND <= secs <= LATEST_SECOND
}

/// The day of the month, counted from 1, of the day `z` days after
/// 1970-01-01 in the proleptic Gregorian calendar: the day is placed in its
/// 400-year era and its year of the era, the year counted from March, and
/// the months of that year take 31, 30, 31, 30, 31, 31, 30, 31, 30, 31, 31
/// and the rest of the days in turn.
pub open spec fn day_of_month(z: int) -> int {
    let shifted = z + 719468;
    let era = shifted / 146097;
    let doe = shifted - era * 146097;
    let yoe = (doe - doe / 1460 + doe / 36524 - doe / 146096) / 365;
    let doy = doe - (365 * yoe + yoe / 4 - yoe / 100);
    let mp = (5 * doy + 2) / 153;
    doy - (153 * mp + 2) / 5 + 1
}

/// The start, in UTC, of the month that contains the second `secs`: the
/// midnight that begins the first day of that day's month.
pub open spec fn month_start(secs: int) -> int {
    let z = secs / 86400;
    (z - (day_of_month(z) - 1)) * 86400
}

/// Every day is the first to the thirty-first of its month.
pub proof fn lemma_day_of_month_range(z: int)
    ensures
        1 <= day_of_month(z) <= 31,
{
    let shifted = z + 719468;
    let era = shifted / 146097;
    let doe = shifted - era * 146097;
    let yoe = (doe - doe / 1460 + doe / 36524 - doe / 146096) / 365;
    let doy = doe - (365 * yoe + yoe / 4 - yoe / 100);
    let x = 5 * doy + 2;
    let mp = x / 153;
    vstd::arithmetic::div_mod::lemma_fundamental_div_mod(x, 153);
    vstd::arithmetic::div_mod::lemma_mod_bound(x, 153);
    let y = 153 * mp + 2;
    vstd::arithmetic::div_mod::lemma_fundamental_div_mod(y, 5);
    vstd::arithmetic::div_mod::lemma_mod_bound(y, 5);
}

/// A month starts at most 31 days before any of its seconds, at midnight,
/// and not after them.
pub proof fn lemma_month_start_bounds(secs: int)
    ensures
        secs - 2_678_400 <= month_start(secs) <= secs,
{
    lemma_day_of_month_range(secs / 86400);
    vstd::arithmetic::div_mod::lemma_fundamental_div_mod(secs, 86400);
    vstd::arithmetic::div_mod::lemma_mod_bound(secs, 86400);
    let z = secs / 86400;
    let d = day_of_month(z);
    assert((z - (d - 1)) * 86400 == z * 86400 - (d - 1) * 86400) by (nonlinear_arith);
    assert(86400 * z == z * 86400) by (nonlinear_arith);
    assert(0 <= (d - 1) * 86400 <= 30 * 86400) by (nonlinear_arith)
        requires
            1 <= d <= 31,
    ;
}

/// The day, counted from 1970-01-01, of the first of January of the year
/// `y` of the proleptic Gregorian calendar: the days of the whole 400-year
/// eras before it and of the years of its era before it, years counted from
/// March, and the 306 days from the first of March to the first of January.
pub open spec fn jan_first(y: int) -> int {
    let y2 = y - 1;
    let era = y2 / 400;
    let yoe = y2 - era * 400;
    era * 146097 + 365 * yoe + yoe / 4 - yoe / 100 + 306 - 719468
}

/// The year of the day `z`, counted from 1970-01-01: the one whose first of
/// January is on or before it and whose successor's is after it.
pub open spec fn year_of_day(z: int) -> int {
    choose|y: int| #[trigger] jan_first(y) <= z < jan_first(y + 1)
}

/// The start, in UTC, of the year that contains the second `secs`: the
/// midnight that begins the first of January of that day's year.
pub open spec fn year_start(secs: int) -> int {
    jan_first(year_of_day(secs / 86400)) * 86400
}

/// `x / d` is `q` when `x` is `q * d` plus a remainder below `d`.
proof fn lemma_div_is(x: int, d: int, q: int)
    requires
        0 < d,
        q * d <= x < q * d + d,
    ensures
        x / d == q,
{
    vstd::arithmetic::div_mod::lemma_fundamental_div_mod_converse_div(x, d, q, x - q * d);
}

/// A year has 365 or 366 days.
pub proof fn lemma_year_length(y: int)
    ensures
        365 <= jan_first(y + 1) - jan_first(y) <= 366,
{
    let y2 = y - 1;
    let era = y2 / 400;
    vstd::arithmetic::div_mod::lemma_fundamental_div_mod(y2, 400);
    vstd::arithmetic::div_mod::lemma_mod_bound(y2, 400);
    let yoe = y2 - era * 400;
    assert(0 <= yoe < 400);
    let q4 = yoe / 4;
    let q100 = yoe / 100;
    vstd::arithmetic::div_mod::lemma_fundamental_div_mod(yoe, 4);
    vstd::arithmetic::div_mod::lemma_mod_bound(yoe, 4);
    vstd::arithmetic::div_mod::lemma_fundamental_div_mod(yoe, 100);
    vstd::arithmetic::div_mod::lemma_mod_bound(yoe, 100);
    if yoe == 399 {
        lemma_div_is(y2 + 1, 400, era + 1);
        assert(q4 == 99 && q100 == 3);
    } else {
        lemma_div_is(y2 + 1, 400, era);
        let n = yoe + 1;
        if n % 4 == 0 {
            lemma_div_is(n, 4, q4 + 1);
        } else {
            lemma_div_is(n, 4, q4);
        }
        if yoe % 100 == 99 {
            lemma_div_is(n, 100, q100 + 1);
            assert(yoe % 4 == 3) by {
                assert(yoe == 100 * q100 + 99);
                lemma_div_is(yoe, 4, 25 * q100 + 24);
            }
        } else {
            lemma_div_is(n, 100, q100);
        }
    }
}

proof fn lemma_year_up(z: int, y: int) -> (r: int)
    requires
        jan_first(y) <= z,
    ensures
        jan_first(r) <= z < jan_first(r + 1),
    decreases z - jan_first(y),
{
    lemma_year_length(y);
    if z < jan_first(y + 1) {
        y
    } else {
        lemma_year_up(z, y + 1)
    }
}

proof fn lemma_year_down(z: int, y: int) -> (r: int)
    requires
        z < jan_first(y + 1),
    ensures
        jan_first(r) <= z < jan_first(r + 1),
    decreases jan_first(y + 1) - z,
{
    lemma_year_length(y);
    if jan_first(y) <= z {
        y
    } else {
        lemma_year_down(z, y - 1)
    }
}

/// Every day lies in its year.
pub proof fn lemma_year_of_day(z: int)
    ensures
        jan_first(year_of_day(z)) <= z < jan_first(year_of_day(z) + 1),
{
    assert(jan_first(1970) == 0);
    let y = if 0 <= z {
        lemma_year_up(z, 1970)
    } else {
        lemma_year_down(z, 1969)
    };
    assert(jan_first(y) <= z < jan_first(y + 1));
}

/// A year starts at most 366 days before any of its seconds, at midnight,
/// and not after them.
pub proof fn lemma_year_start_bounds(secs: int)
    ensures
        secs - 31_622_400 <= year_start(secs) <= secs,
{
    let z = secs / 86400;
    lemma_year_of_day(z);
    let y = year_of_day(z);
    lemma_year_length(y);
    vstd::arithmetic::div_mod::lemma_fundamental_div_mod(secs, 86400);
    vstd::arithmetic::div_mod::lemma_mod_bound(secs, 86400);
    let j = jan_first(y);
    assert(j * 86400 <= z * 86400) by (nonlinear_arith)
        requires
            j <= z,
    ;
    assert((z - 366) * 86400 < j * 86400) by (nonlinear_arith)
        requires
            z - 366 < j,
    ;
    assert(86400 * z == z * 86400) by (nonlinear_arith);
}

/// Calls `chrono::DateTime::from_timestamp(secs, 0)`, moves its date to the
/// first of the month with `with_day(1)`, and takes the timestamp of that
/// day's midnight in UTC: the start of the month, as `month_start` spells it out.
#[verifier::external_body]
fn floor_to_month(secs: i64) -> (r: i64)
    requires
        on_calendar(secs as int),
    ensures
        r == month_start(secs as int),
{
    let date = chrono::DateTime::from_timestamp(secs, 0).unwrap().date_naive();
    match date.with_day(1) {
        Some(first) => first.and_hms_opt(0, 0, 0).unwrap().and_utc().timestamp(),
        None => secs,
    }
}

/// Calls `chrono::DateTime::from_timestamp(secs, 0)`, moves its date to the
/// first day of the year with `with_ordinal(1)`, and takes the timestamp of
/// that day's midnight in UTC: the start of the year, as `year_start` spells
/// it out.
#[verifier::external_body]
fn floor_to_year(secs: i64) -> (r: i64)
    requires
        on_calendar(secs as int),
    ensures
        r == year_start(secs as int),
{
    let date = chrono::DateTime::from_timestamp(secs, 0).unwrap().date_naive();
    match date.with_ordinal(1) {
        Some(first) => first.and_hms_opt(0, 0, 0).unwrap().and_utc().timestamp(),
        None => secs,
    }
}

/// The start of the minute, hour, day or (Monday-based) week that contains
/// the second `secs`, counted from the epoch, a Thursday.
pub open spec fn clock_floor(secs: int, unit: TimeUnit) -> int {
    match unit {
        TimeUnit::Minute => secs - secs % 60,
        TimeUnit::Hour => secs - secs % 3600,
        TimeUnit::Day => secs - secs % 86400,
        TimeUnit::Week => {
            let days = secs / 86400;
            (days - (days + 3) % 7) * 86400
        },
        TimeUnit::Month => month_start(secs),
        TimeUnit::Year => year_start(secs),
    }
}

/// `secs` rounded down to a multiple of `u`, computed on `secs` moved up by
/// the multiple `u * k` of `u` so that only positive numbers are divided.
fn floor_multiple(secs: i64, u: i64, k: i64) -> (r: i64)
    requires
        0 < u <= 86400,
        0 < k,
        8_400_000_000_000 <= u * k <= 8_700_000_000_000,
        on_calendar(secs as int),
    ensures
        r == secs as int - (secs as int) % (u as int),
        secs - u < r <= secs,
{
    let off = u * k;
    let shifted = secs + off;
    let rem = shifted % u;
    proof {
        vstd::arithmetic::div_mod::lemma_mod_multiples_vanish(k as int, secs as int, u as int);
        assert(u * k == k * u) by (nonlinear_arith);
        vstd::arithmetic::div_mod::lemma_mod_bound(secs as int, u as int);
    }
    shifted - rem - off
}

/// The day, counted from the epoch, that contains the second `secs`.
fn day_of(secs: i64) -> (r: i64)
    requires
        on_calendar(secs as int),
    ensures
        r == secs as int / 86400,
        -96_465_294 <= r <= 95_026_237,
{
    let shifted = secs + 8_640_000_000_000;
    proof {
        vstd::arithmetic::div_mod::lemma_hoist_over_denominator(secs as int, 100_000_000, 86400);
        vstd::arithmetic::div_mod::lemma_fundamental_div_mod(secs as int, 86400);
        vstd::arithmetic::div_mod::lemma_mod_bound(secs as int, 86400);
    }
    shifted / 86400 - 100_000_000
}

fn floor_to_unit(secs: i64, unit: TimeUnit) -> (r: i64)
    requires
        on_calendar(secs as int),
    ensures
        r == clock_floor(secs as int, unit),
        secs - 31_622_400 <= r <= secs,
{
    match unit {
        TimeUnit::Minute => floor_multiple(secs, 60, 140_000_000_000),
        TimeUnit::Hour => floor_multiple(secs, 3600, 2_400_000_000),
        TimeUnit::Day => floor_multiple(secs, 86400, 100_000_000),
        TimeUnit::Week => {
            let days = day_of(secs);
            let back = (days + 3 + 98_000_000) % 7;
            proof {
                vstd::arithmetic::div_mod::lemma_mod_multiples_vanish(14_000_000, days + 3, 7);
                vstd::arithmetic::div_mod::lemma_fundamental_div_mod(secs as int, 86400);
                vstd::arithmetic::div_mod::lemma_mod_bound(secs as int, 86400);
            }
            assert(back == (days + 3) % 7);
            assert((days - back) * 86400 == days * 86400 - back * 86400) by (nonlinear_arith);
            (days - back) * 86400
        },
        TimeUnit::Month => {
            proof {
                lemma_month_start_bounds(secs as int);
            }
            floor_to_month(secs)
        },
        TimeUnit::Year => {
            proof {
                lemma_year_start_bounds(secs as int);
            }
            floor_to_year(secs)
        },
    }
}

/// The unit that a `date_trunc` interval names, in any letter case.
pub open spec fn unit_named(interval: Seq<char>) -> Option<TimeUnit> {
    let l = lowercase(interval);
    if l == "minute"@ {
        Some(TimeUnit::Minute)
    } else if l == "hour"@ {
        Some(TimeUnit::Hour)
    } else if l == "day"@ {
        Some(TimeUnit::Day)
    } else if l == "week"@ {
        Some(TimeUnit::Week)
    } else if l == "month"@ {
        Some(TimeUnit::Month)
    } else if l == "year"@ {
        Some(TimeUnit::Year)
    } else {
        None
    }
}

/// A time truncated to the start of its `interval`, in the scale it was
/// given in (milliseconds stay milliseconds); an unknown interval leaves it
/// as it is, to the second.
pub open spec fn truncated(ts: int, interval: Seq<char>) -> int {
    let secs = in_seconds(ts);
    let floored = match unit_named(interval) {
        Some(u) => clock_floor(secs, u),
        None => secs,
    };
    if ts > 100_000_000_000 {
        floored * 1000
    } else {
        floored
    }
}

fn unit_of(interval: &str) -> (r: Option<TimeUnit>)
    ensures
        r == unit_named(interval@),
{
    let low = to_lowercase(interval);
    let l = chars_of(low.as_str());
    if eq_chars(&l, &chars_of("minute")) {
        Some(TimeUnit::Minute)
    } else if eq_chars(&l, &chars_of("hour")) {
        Some(TimeUnit::Hour)
    } else if eq_chars(&l, &chars_of("day")) {
        Some(TimeUnit::Day)
    } else if eq_chars(&l, &chars_of("week")) {
        Some(TimeUnit::Week)
    } else if eq_chars(&l, &chars_of("month")) {
        Some(TimeUnit::Month)
    } else if eq_chars(&l, &chars_of("year")) {
        Some(TimeUnit::Year)
    } else {
        None
    }
}

/// A time that can be truncated to `interval`: `chrono` can hold it, and
/// the start of its week where the week is asked for.
pub open spec fn truncatable(ts: int, interval: Seq<char>) -> bool {
    &&& on_calendar(in_seconds(ts))
    &&& unit_named(interval) == Some(TimeUnit::Week) ==> EARLIEST_SECOND <= clock_floor(
        in_seconds(ts),
        TimeUnit::Week,
    )
}

/// Whether a time can be truncated to `interval`.
pub fn is_truncatable(ts: i64, interval: &str) -> (r: bool)
    ensures
        r == truncatable(ts as int, interval@),
{
    let secs = to_seconds(ts);
    if secs < EARLIEST_SECOND || secs > LATEST_SECOND {
        return false;
    }
    match unit_of(interval) {
        Some(TimeUnit::Week) => floor_to_unit(secs, TimeUnit::Week) >= EARLIEST_SECOND,
        _ => true,
    }
}

/// Truncates a time (in seconds or milliseconds) to the start of its
/// minute, hour, day, week, month or year.
pub fn truncate_timestamp(ts: i64, interval: &str) -> (r: i64)
    requires
        truncatable(ts as int, interval@),
    ensures
        r == truncated(ts as int, interval@),
{
    let secs = to_seconds(ts);
    let floored = match unit_of(interval) {
        Some(u) => floor_to_unit(secs, u),
        None => secs,
    };
    if ts > 100_000_000_000 {
        floored * 1000
    } else {
        floored
    }
}

/// The schema type of each field of an entity's records: the declared
/// attributes, then the system fields `id`, `_tenant` and `tenant_id` as
/// strings and `created_at` as an epoch, a later entry replacing an
/// earlier one of the same name.
pub open spec fn attr_type_map(attrs: Seq<AttributeDescriptor>) -> Map<Seq<char>, AttrType>
    decreases attrs.len(),
{
    if attrs.len() == 0 {
        Map::empty()
    } else {
        attr_type_map(attrs.drop_last()).insert(attrs.last().name@, attrs.last().attr_type)
    }
}

/// The schema types including the system fields.
pub open spec fn record_type_map(attrs: Option<Seq<AttributeDescriptor>>) -> Map<Seq<char>, AttrType> {
    let declared = match attrs {
        Some(a) => attr_type_map(a),
        None => Map::empty(),
    };
    declared.insert("id"@, AttrType::String).insert("_tenant"@, AttrType::String).insert(
        "tenant_id"@,
        AttrType::String,
    ).insert("created_at"@, AttrType::Epoch)
}

/// Field names and their schema types; a name occurs at most once.
#[derive(Debug)]
pub struct AttrTypeMap {
    entries: Vec<(String, AttrType)>,
}

impl View for AttrTypeMap {
    type V = Map<Seq<char>, AttrType>;

    closed spec fn view(&self) -> Map<Seq<char>, AttrType> {
        entries_map(self.entries@)
    }
}

/// The map that a list of entries stands for, a later entry replacing an
/// earlier one.
pub closed spec fn entries_map(entries: Seq<(String, AttrType)>) -> Map<Seq<char>, AttrType>
    decreases entries.len(),
{
    if entries.len() == 0 {
        Map::empty()
    } else {
        entries_map(entries.drop_last()).insert(entries.last().0@, entries.last().1)
    }
}

fn copy_type(t: &AttrType) -> (r: AttrType)
    ensures
        r == *t,
{
    match t {
        AttrType::String => AttrType::String,
        AttrType::Number => AttrType::Number,
        AttrType::Decimal => AttrType::Decimal,
        AttrType::Epoch => AttrType::Epoch,
        AttrType::Boolean => AttrType::Boolean,
        AttrType::Array => AttrType::Array,
        AttrType::Reference => AttrType::Reference,
        AttrType::Uuid => AttrType::Uuid,
        AttrType::Bytes => AttrType::Bytes,
        AttrType::Enum => AttrType::Enum,
        AttrType::Json => AttrType::Json,
        AttrType::Unknown(s) => AttrType::Unknown(s.clone()),
    }
}

impl AttrTypeMap {
    /// The type of field `name`, if it has one.
    pub fn get(&self, name: &str) -> (r: Option<AttrType>)
        ensures
            match self@.get(name@) {
                Some(t) => r == Some(t),
                None => r is None,
            },
    {
        let mut i: usize = self.entries.len();
        proof {
            assert(self.entries@.take(i as int) =~= self.entries@);
        }
        while i > 0
            invariant
                i <= self.entries@.len(),
                forall|k: int| i <= k < self.entries@.len() ==> self.entries@[k].0@ != name@,
                entries_map(self.entries@).get(name@) == entries_map(self.entries@.take(i as int)).get(name@),
            decreases i,
        {
            proof {
                assert(self.entries@.take(i as int).drop_last() =~= self.entries@.take(i - 1));
            }
            if same_text(self.entries[i - 1].0.as_str(), name) {
                return Some(copy_type(&self.entries[i - 1].1));
            }
            i = i - 1;
        }
        proof {
            assert(self.entries@.take(0) =~= Seq::<(String, AttrType)>::empty());
        }
        None
    }

    fn insert(&mut self, name: String, t: AttrType)
        ensures
            final(self)@ == old(self)@.insert(name@, t),
    {
        self.entries.push((name, t));
        proof {
            assert(self.entries@.drop_last() =~= old(self).entries@);
        }
    }
}

/// The schema types of an entity's record fields: its declared attributes
/// (when the schema knows the entity), then the system fields.
pub fn build_attr_type_map(attrs: Option<&Vec<AttributeDescriptor>>) -> (r: AttrTypeMap)
    ensures
        r@ == record_type_map(
            match attrs {
                Some(a) => Some(a@),
                None => None,
            },
        ),
{
    let mut map = AttrTypeMap { entries: Vec::new() };
    if let Some(a) = attrs {
        let mut i: usize = 0;
        while i < a.len()
            invariant
                i <= a@.len(),
                map@ == attr_type_map(a@.take(i as int)),
            decreases a@.len() - i,
        {
            proof {
                assert(a@.take(i + 1).drop_last() =~= a@.take(i as int));
            }
            map.insert(a[i].name.clone(), copy_type(&a[i].attr_type));
            i = i + 1;
        }
        proof {
            assert(a@.take(a@.len() as int) =~= a@);
        }
    }
    map.insert(String::from_str("id"), AttrType::String);
    map.insert(String::from_str("_tenant"), AttrType::String);
    map.insert(String::from_str("tenant_id"), AttrType::String);
    map.insert(String::from_str("created_at"), AttrType::Epoch);
    map
}

/// What a projected column reads from a record.
#[derive(Debug, PartialEq, Eq)]
pub enum ColumnRead {
    /// A `date_trunc` bucket: the time field and the interval it is
    /// truncated to.
    Bucket { field: &'static str, interval: &'static str },
    /// A field, by its cleaned name.
    Field(String),
}

/// The interval that a lower-cased `date_trunc` expression names, `day`
/// when it names none of the others.
pub open spec fn bucket_interval(l: Seq<char>) -> Seq<char> {
    if has(l, "'minute'"@) {
        "minute"@
    } else if has(l, "'hour'"@) {
        "hour"@
    } else if has(l, "'week'"@) {
        "week"@
    } else if has(l, "'month'"@) {
        "month"@
    } else if has(l, "'year'"@) {
        "year"@
    } else {
        "day"@
    }
}

/// The time field that a lower-cased `date_trunc` expression truncates:
/// `created_at` or `event_ts` when it names them, else `timestamp`.
pub open spec fn bucket_field(l: Seq<char>) -> Seq<char> {
    if has(l, "created_at"@) {
        "created_at"@
    } else if has(l, "event_ts"@) {
        "event_ts"@
    } else {
        "timestamp"@
    }
}

/// What the projected expression `expr` reads: a bucket when it calls
/// `date_trunc` (in any letter case), else the field it names.
pub open spec fn column_read_is(r: ColumnRead, expr: Seq<char>) -> bool {
    let l = lowercase(expr);
    if has(l, "date_trunc"@) {
        r matches ColumnRead::Bucket { field, interval } && field@ == bucket_field(l) && interval@ == bucket_interval(l)
    } else {
        r matches ColumnRead::Field(f) && f@ == clean_field(expr)
    }
}

fn contains_text(s: &Vec<char>, pat: &str) -> (r: bool)
    ensures
        r == has(s@, pat@),
{
    let p = chars_of(pat);
    find_from_exec(s, &p, 0).is_some()
}

/// What a projected column reads from each record.
pub fn column_read(expr: &str) -> (r: ColumnRead)
    ensures
        column_read_is(r, expr@),
{
    let low = to_lowercase(expr);
    let l = chars_of(low.as_str());
    if contains_text(&l, "date_trunc") {
        let interval = if contains_text(&l, "'minute'") {
            "minute"
        } else if contains_text(&l, "'hour'") {
            "hour"
        } else if contains_text(&l, "'week'") {
            "week"
        } else if contains_text(&l, "'month'") {
            "month"
        } else if contains_text(&l, "'year'") {
            "year"
        } else {
            "day"
        };
        let field = if contains_text(&l, "created_at") {
            "created_at"
        } else if contains_text(&l, "event_ts") {
            "event_ts"
        } else {
            "timestamp"
        };
        ColumnRead::Bucket { field, interval }
    } else {
        ColumnRead::Field(clean_expr_field(expr))
    }
}

/// The time a bucket is computed from: the integer that the field holds,
/// 0 when it holds none or is absent.
pub open spec fn bucket_time(f: Option<TimeField>) -> int {
    match f {
        Some(x) => match field_int(x) {
            Some(n) => n,
            None => 0,
        },
        None => 0,
    }
}

/// The bucket of a record: its time field truncated to the interval when
/// that time is positive; nothing otherwise.
pub fn bucket_value(raw: Option<&TimeField>, interval: &str) -> (r: Option<i64>)
    requires
        bucket_time(deref_field(raw)) > 0 ==> truncatable(bucket_time(deref_field(raw)), interval@),
    ensures
        r == (if bucket_time(deref_field(raw)) > 0 {
            Some(truncated(bucket_time(deref_field(raw)), interval@) as i64)
        } else {
            None
        }),
{
    let ts: i64 = match raw {
        Some(f) => match field_as_i64(f) {
            Some(n) => n,
            None => 0,
        },
        None => 0,
    };
    if ts > 0 {
        Some(truncate_timestamp(ts, interval))
    } else {
        None
    }
}

} // verus!
