//! The time window of a query: the bounds that its `>=` and `<=` comparisons
//! put on a time column (`timestamp`, `created_at` or a `day` column).
//!
//! The value after the operator is the first quoted text that follows it
//! anywhere, or else the first run of digits that reads as an `i64`. A
//! quoted `YYYY-MM-DD` date stands for the start of that day in UTC for a
//! lower bound and for its last second for an upper bound; other quoted text
//! must read as an integer. Several lower bounds keep the earliest and
//! several upper bounds the latest.
use vstd::prelude::*;
use crate::numbers::{parse_i64, parse_int};
use crate::sql_parse::entity::{digits_value, lemma_find_from_ge, lemma_span_while_all};
use crate::text::{
    chars_of, find_from, find_from_exec, is_digit, lower_seq, lower_vec, slice_vec, span_while,
};

verus! {

/// The Unix time of the start, in UTC, of the day that `s` writes as
/// `%Y-%m-%d`, if it writes one.
pub uninterp spec fn day_start(s: Seq<char>) -> Option<int>;

/// Calls `chrono::NaiveDate::parse_from_str(s, "%Y-%m-%d")`, then
/// `and_hms_opt(0, 0, 0)`, `and_utc()` and `timestamp()`: the start of the
/// written day, named and not spelled out. Every date `chrono` can hold lies
/// well inside ±10^13 seconds of the epoch.
#[verifier::external_body]
fn parse_day_start(s: &str) -> (r: Option<i64>)
    ensures
        r matches Some(t) ==> day_start(s@) == Some(t as int) && -10_000_000_000_000 < t < 10_000_000_000_000,
        r is None ==> day_start(s@) is None,
{
    chrono::NaiveDate::parse_from_str(s, "%Y-%m-%d").ok().and_then(|d| d.and_hms_opt(0, 0, 0)).map(
        |dt| dt.and_utc().timestamp(),
    )
}

/// A bound as written after the operator.
pub enum BoundValue {
    Text(Seq<char>),
    Number(int),
}

/// The text between the first quote of `s` and the next one.
pub open spec fn first_quoted(s: Seq<char>) -> Option<Seq<char>> {
    match find_from(s, seq!['\''], 0) {
        Some(q) => match find_from(s, seq!['\''], q + 1) {
            Some(e) => Some(s.subrange(q + 1, e)),
            None => None,
        },
        None => None,
    }
}

/// ASCII digits.
pub open spec fn digit_pred() -> spec_fn(char) -> bool {
    |c: char| is_digit(c)
}

/// The first run of digits of `s`, from `i` on, that reads as an `i64`; a
/// run that does not fit is passed over together with the character after it.
pub open spec fn first_number_from(s: Seq<char>, i: int) -> Option<int>
    decreases s.len() + 1 - i,
{
    if i < 0 || i >= s.len() {
        None
    } else if is_digit(s[i]) {
        let e = i + span_while(s, i, digit_pred());
        if e > i && digits_value(s.subrange(i, e)) <= i64::MAX {
            Some(digits_value(s.subrange(i, e)) as int)
        } else if i < e <= s.len() {
            first_number_from(s, e + 1)
        } else {
            None
        }
    } else {
        first_number_from(s, i + 1)
    }
}

/// The bound written in `s`: its first quoted text, else its first number.
pub open spec fn bound_value(s: Seq<char>) -> Option<BoundValue> {
    match first_quoted(s) {
        Some(t) => Some(BoundValue::Text(t)),
        None => match first_number_from(s, 0) {
            Some(n) => Some(BoundValue::Number(n)),
            None => None,
        },
    }
}

/// The time that a bound stands for: a number as it is; a date as the first
/// (lower bound) or last (upper bound) second of its day; other text as the
/// integer it writes.
pub open spec fn bound_time(v: BoundValue, upper: bool) -> Option<int> {
    match v {
        BoundValue::Number(n) => Some(n),
        BoundValue::Text(t) => match day_start(t) {
            Some(d) => Some(if upper {
                d + 86_399
            } else {
                d
            }),
            None => parse_int(t),
        },
    }
}

/// The text before the operator names a time column.
pub open spec fn names_time_column(left: Seq<char>) -> bool {
    find_from(left, "timestamp"@, 0) is Some || find_from(left, "created_at"@, 0) is Some || find_from(
        left,
        "day"@,
        0,
    ) is Some
}

/// The comparison operator of a bound.
pub open spec fn bound_operator(upper: bool) -> Seq<char> {
    if upper {
        seq!['<', '=']
    } else {
        seq!['>', '=']
    }
}

/// Keeps the earliest lower bound and the latest upper bound.
pub open spec fn widen(acc: Option<int>, t: int, upper: bool) -> Option<int> {
    match acc {
        None => Some(t),
        Some(a) => Some(if upper {
            if a >= t {
                a
            } else {
                t
            }
        } else {
            if a <= t {
                a
            } else {
                t
            }
        }),
    }
}

/// The bounds found from position `from` of the lower-cased SQL `lw` on,
/// added to `acc`; the values are read from the SQL as written.
pub open spec fn scan_bounds(lw: Seq<char>, sql: Seq<char>, from: int, upper: bool, acc: Option<int>) -> Option<int>
    decreases lw.len() - from,
{
    if from < 0 || from > lw.len() {
        acc
    } else {
        match find_from(lw, bound_operator(upper), from) {
            None => acc,
            Some(p) => {
                proof {
                    lemma_find_from_ge(lw, bound_operator(upper), from);
                }
                let next = if names_time_column(lw.subrange(from, p)) {
                    match bound_value(sql.skip(p + 2)) {
                        Some(v) => match bound_time(v, upper) {
                            Some(t) => widen(acc, t, upper),
                            None => acc,
                        },
                        None => acc,
                    }
                } else {
                    acc
                };
                scan_bounds(lw, sql, p + 2, upper, next)
            },
        }
    }
}

/// The time window of a query: its lower and its upper bound, each if any.
pub open spec fn time_range(sql: Seq<char>) -> (Option<int>, Option<int>) {
    (scan_bounds(lower_seq(sql), sql, 0, false, None), scan_bounds(lower_seq(sql), sql, 0, true, None))
}

/// The text between the first quote of `s[from..]` and the next one.
fn first_quoted_exec(s: &Vec<char>, from: usize) -> (r: Option<Vec<char>>)
    requires
        from <= s@.len(),
    ensures
        match first_quoted(s@.skip(from as int)) {
            Some(t) => r matches Some(v) && v@ == t,
            None => r is None,
        },
{
    let rest = slice_vec(s, from, s.len());
    assert(rest@ =~= s@.skip(from as int));
    let quote = vec!['\''];
    assert(quote@ =~= seq!['\'']);
    match find_from_exec(&rest, &quote, 0) {
        None => None,
        Some(q) => {
            proof {
                lemma_find_from_ge(rest@, quote@, 0);
            }
            match find_from_exec(&rest, &quote, q + 1) {
                None => None,
                Some(e) => {
                    proof {
                        lemma_find_from_ge(rest@, quote@, q + 1);
                    }
                    Some(slice_vec(&rest, q + 1, e))
                },
            }
        },
    }
}

/// The first run of digits of `s`, from `i` on, that reads as an `i64`.
fn first_number_exec(s: &Vec<char>, i: usize) -> (r: Option<i64>)
    requires
        i <= s@.len(),
    ensures
        match first_number_from(s@, i as int) {
            Some(n) => r matches Some(x) && x == n,
            None => r is None,
        },
{
    let mut k: usize = i;
    while k < s.len()
        invariant
            i <= k <= s@.len(),
            first_number_from(s@, i as int) == first_number_from(s@, k as int),
        decreases s@.len() - k,
    {
        if '0' <= s[k] && s[k] <= '9' {
            let ghost p = digit_pred();
            let mut e: usize = k;
            while e < s.len() && '0' <= s[e] && s[e] <= '9'
                invariant
                    k <= e <= s@.len(),
                    span_while(s@, k as int, p) == (e - k) + span_while(s@, e as int, p),
                    p == digit_pred(),
                decreases s@.len() - e,
            {
                assert(p(s@[e as int]));
                e = e + 1;
            }
            let run = slice_vec(s, k, e);
            proof {
                lemma_span_while_all(s@, k as int, p);
                assert(run@ =~= s@.subrange(k as int, k + span_while(s@, k as int, p)));
                assert(crate::numbers::all_digits(run@)) by {
                    assert forall|j: int| 0 <= j < run@.len() implies is_digit(#[trigger] run@[j]) by {
                        assert(p(s@[k + j]));
                    }
                }
                assert(run@.skip(0) =~= run@);
                assert(run@.len() > 0);
                assert(run@[0] == s@[k as int]);
            }
            match parse_i64(&run) {
                Some(n) => {
                    return Some(n);
                },
                None => {
                    assert(first_number_from(s@, k as int) == first_number_from(s@, e + 1));
                    if e == s.len() {
                        assert(first_number_from(s@, e + 1) is None);
                        return None;
                    }
                    k = e + 1;
                },
            }
        } else {
            k = k + 1;
        }
    }
    None
}

/// Whether `pat` occurs in `s`.
fn contains_text(s: &Vec<char>, pat: &Vec<char>) -> (r: bool)
    ensures
        r == (find_from(s@, pat@, 0) is Some),
{
    find_from_exec(s, pat, 0).is_some()
}

/// The bound that one occurrence of the operator, at `p`, contributes.
fn bound_at(lw: &Vec<char>, s: &Vec<char>, from: usize, p: usize, upper: bool) -> (r: Option<i64>)
    requires
        from <= p,
        p + 2 <= lw@.len(),
        lw@.len() == s@.len(),
    ensures
        match (if names_time_column(lw@.subrange(from as int, p as int)) {
            match bound_value(s@.skip(p + 2)) {
                Some(v) => bound_time(v, upper),
                None => None,
            }
        } else {
            None
        }) {
            Some(t) => r matches Some(x) && x == t,
            None => r is None,
        },
{
    assert(p + 2 <= s.len());
    let left = slice_vec(lw, from, p);
    let ts = chars_of("timestamp");
    let ca = chars_of("created_at");
    let dy = chars_of("day");
    if !(contains_text(&left, &ts) || contains_text(&left, &ca) || contains_text(&left, &dy)) {
        return None;
    }
    match first_quoted_exec(s, p + 2) {
        Some(t) => {
            let text = crate::text::string_from_chars(&t);
            match parse_day_start(text.as_str()) {
                Some(d) => Some(if upper {
                    d + 86_399
                } else {
                    d
                }),
                None => parse_i64(&t),
            }
        },
        None => {
            let rest = slice_vec(s, p + 2, s.len());
            assert(rest@ =~= s@.skip(p + 2));
            first_number_exec(&rest, 0)
        },
    }
}

/// The bounds of one kind found in the SQL.
fn scan_bounds_exec(lw: &Vec<char>, s: &Vec<char>, upper: bool) -> (r: Option<i64>)
    requires
        lw@.len() == s@.len(),
    ensures
        match scan_bounds(lw@, s@, 0, upper, None) {
            Some(t) => r matches Some(x) && x == t,
            None => r is None,
        },
{
    let op = if upper {
        vec!['<', '=']
    } else {
        vec!['>', '=']
    };
    assert(op@ =~= bound_operator(upper));
    let mut acc: Option<i64> = None;
    let mut from: usize = 0;
    while from <= lw.len()
        invariant
            lw@.len() == s@.len(),
            op@ == bound_operator(upper),
            scan_bounds(lw@, s@, 0, upper, None) == scan_bounds(
                lw@,
                s@,
                from as int,
                upper,
                match acc {
                    Some(a) => Some(a as int),
                    None => None,
                },
            ),
        decreases lw@.len() + 1 - from,
    {
        match find_from_exec(lw, &op, from) {
            None => {
                return acc;
            },
            Some(p) => {
                proof {
                    lemma_find_from_ge(lw@, op@, from as int);
                }
                let ghost before = match acc {
                    Some(a) => Some(a as int),
                    None => None,
                };
                let ghost found = if names_time_column(lw@.subrange(from as int, p as int)) {
                    match bound_value(s@.skip(p + 2)) {
                        Some(v) => bound_time(v, upper),
                        None => None,
                    }
                } else {
                    None
                };
                let ghost after = match found {
                    Some(t) => widen(before, t, upper),
                    None => before,
                };
                assert(scan_bounds(lw@, s@, from as int, upper, before) == scan_bounds(
                    lw@,
                    s@,
                    p + 2,
                    upper,
                    after,
                ));
                match bound_at(lw, s, from, p, upper) {
                    Some(t) => {
                        acc = match acc {
                            None => Some(t),
                            Some(a) => Some(if upper {
                                if a >= t {
                                    a
                                } else {
                                    t
                                }
                            } else {
                                if a <= t {
                                    a
                                } else {
                                    t
                                }
                            }),
                        };
                    },
                    None => {},
                }
                from = p + 2;
            },
        }
    }
    acc
}

/// The time window of a query: the earliest lower bound and the latest
/// upper bound that its `>=` and `<=` comparisons put on a time column.
pub fn extract_timestamp_range_from_sql(sql: &str) -> (r: (Option<i64>, Option<i64>))
    ensures
        match time_range(sql@).0 {
            Some(t) => r.0 matches Some(x) && x == t,
            None => r.0 is None,
        },
        match time_range(sql@).1 {
            Some(t) => r.1 matches Some(x) && x == t,
            None => r.1 is None,
        },
{
    let s = chars_of(sql);
    let lw = lower_vec(&s);
    (scan_bounds_exec(&lw, &s, false), scan_bounds_exec(&lw, &s, true))
}

} // verus!
