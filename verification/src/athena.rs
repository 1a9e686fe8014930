//! Reading the answer of an Athena query: how long to keep polling for it,
//! and how each cell is read by its column type.
use vstd::prelude::*;
use vstd::string::StringExecFns;
use crate::errors::{DomainError, ErrorCode};
use crate::numbers::{parse_i64, parse_int};
use crate::text::{chars_of, eq_chars, joined, lower_seq, lower_vec, same_text};

verus! {

/// How many times a query's state is asked for before giving up.
pub const MAX_POLLS: usize = 30;

/// What asking for a query's state gave.
#[derive(Debug)]
pub enum PollOutcome {
    /// The call failed, with this text.
    Failed(String),
    /// The state, and the reason of a state change, when reported.
    State { state: Option<String>, reason: Option<String> },
}

/// What to do next.
#[derive(Debug)]
pub enum PollAction {
    /// The query succeeded: read its results.
    Fetch,
    /// Wait this many milliseconds, then ask again.
    Wait(u64),
    /// Give up with this error.
    Fail(DomainError),
    /// Wait this many milliseconds, then give up with this error: the last
    /// attempt found the query still running.
    TimeOut(u64, DomainError),
}

/// Polling progress: the attempts made and the next wait.
#[derive(Debug)]
pub struct AthenaPoll {
    pub attempt: usize,
    pub delay_ms: u64,
}

/// The next wait: twice the last one, at most five seconds.
pub open spec fn next_delay(d: u64) -> u64 {
    if 2 * d <= 5000 {
        (2 * d) as u64
    } else {
        5000
    }
}

/// A poll is in progress: attempts below the limit, a wait of at most five seconds.
pub open spec fn polling(p: AthenaPoll) -> bool {
    p.attempt < MAX_POLLS && p.delay_ms <= 5000
}

/// An error of the analytical engine with this code and detail.
pub open spec fn engine_error(e: DomainError, code: ErrorCode, detail: Seq<char>) -> bool {
    e.code == code && e.detail@ == detail && e.stage@ == Seq::<char>::empty() && !e.retryable && e.context is None
}

/// What a poll decides: a failed call or a failed or cancelled query give
/// up; success fetches; any other state waits, doubling the wait up to five
/// seconds, and after the wait of the last attempt gives up with a timeout.
pub open spec fn poll_next(p: AthenaPoll, outcome: PollOutcome, execution_id: Seq<char>, next: AthenaPoll, action: PollAction) -> bool {
    match outcome {
        PollOutcome::Failed(e) => action matches PollAction::Fail(err) && engine_error(
            err,
            ErrorCode::Aeg002,
            "Poll falló: "@ + e@,
        ),
        PollOutcome::State { state, reason } => {
            let s = match state {
                Some(x) => x@,
                None => Seq::empty(),
            };
            if state is Some && s == "SUCCEEDED"@ {
                action is Fetch
            } else if state is Some && (s == "FAILED"@ || s == "CANCELLED"@) {
                action matches PollAction::Fail(err) && engine_error(
                    err,
                    ErrorCode::Aeg002,
                    "Athena query fallida: "@ + match reason {
                        Some(r) => r@,
                        None => "sin razón"@,
                    },
                )
            } else if p.attempt + 1 >= MAX_POLLS {
                action matches PollAction::TimeOut(wait, err) && wait == p.delay_ms && engine_error(
                    err,
                    ErrorCode::Aeg003,
                    "Athena timeout después de 30 polls — execution_id: "@ + execution_id,
                )
            } else {
                &&& action == PollAction::Wait(p.delay_ms)
                &&& next.attempt == p.attempt + 1
                &&& next.delay_ms == next_delay(p.delay_ms)
            }
        },
    }
}

impl AthenaPoll {
    /// The first attempt, waiting 200 ms when the query is not done.
    pub fn new() -> (r: AthenaPoll)
        ensures
            r.attempt == 0,
            r.delay_ms == 200,
            polling(r),
    {
        AthenaPoll { attempt: 0, delay_ms: 200 }
    }

    /// Takes the state of the query and says what to do next.
    pub fn on_outcome(&mut self, outcome: PollOutcome, execution_id: &str) -> (r: PollAction)
        requires
            polling(*old(self)),
        ensures
            poll_next(*old(self), outcome, execution_id@, *final(self), r),
            r is Wait ==> polling(*final(self)),
    {
        match outcome {
            PollOutcome::Failed(e) => PollAction::Fail(DomainError::new(ErrorCode::Aeg002, joined("Poll falló: ", e.as_str()))),
            PollOutcome::State { state, reason } => {
                let succeeded = match &state {
                    Some(s) => same_text(s.as_str(), "SUCCEEDED"),
                    None => false,
                };
                let failed = match &state {
                    Some(s) => same_text(s.as_str(), "FAILED") || same_text(s.as_str(), "CANCELLED"),
                    None => false,
                };
                if succeeded {
                    PollAction::Fetch
                } else if failed {
                    let why = match &reason {
                        Some(r) => joined("Athena query fallida: ", r.as_str()),
                        None => joined("Athena query fallida: ", "sin razón"),
                    };
                    PollAction::Fail(DomainError::new(ErrorCode::Aeg002, why))
                } else if self.attempt + 1 >= MAX_POLLS {
                    PollAction::TimeOut(
                        self.delay_ms,
                        DomainError::new(
                            ErrorCode::Aeg003,
                            joined("Athena timeout después de 30 polls — execution_id: ", execution_id),
                        ),
                    )
                } else {
                    let wait = self.delay_ms;
                    self.attempt = self.attempt + 1;
                    self.delay_ms = if 2 * self.delay_ms <= 5000 {
                        2 * self.delay_ms
                    } else {
                        5000
                    };
                    PollAction::Wait(wait)
                }
            },
        }
    }
}

/// A cell of an Athena result, read by its column type.
#[derive(Debug)]
pub enum AthenaCell {
    Null,
    Int(i64),
    Bool(bool),
    /// A timestamp or date, as Unix seconds.
    Epoch(i64),
    Text(String),
    /// A decimal column's text, to be read as a floating-point number (or
    /// kept as text when it does not read as one).
    DecimalText(String),
}

/// The integer column types.
pub open spec fn is_int_type(t: Seq<char>) -> bool {
    t == "integer"@ || t == "int"@ || t == "tinyint"@ || t == "smallint"@ || t == "bigint"@
}

/// The decimal column types.
pub open spec fn is_decimal_type(t: Seq<char>) -> bool {
    t == "double"@ || t == "float"@ || t == "real"@ || t == "decimal"@ || t == "numeric"@
}

/// The Unix seconds of `s` read with the `chrono` format `pattern` as a
/// date and time in UTC.
pub uninterp spec fn datetime_in_pattern(s: Seq<char>, pattern: Seq<char>) -> Option<int>;

/// Calls `chrono::NaiveDateTime::parse_from_str(s, pattern)` and takes the
/// `timestamp` of its `and_utc()`: the seconds, named and not spelled out.
#[verifier::external_body]
fn parse_datetime(s: &str, pattern: &str) -> (r: Option<i64>)
    ensures
        match datetime_in_pattern(s@, pattern@) {
            Some(t) => r matches Some(x) && x == t,
            None => r is None,
        },
{
    match chrono::NaiveDateTime::parse_from_str(s, pattern) {
        Ok(dt) => Some(dt.and_utc().timestamp()),
        Err(_) => None,
    }
}

/// The formats that Athena writes times in, tried in order.
pub open spec fn athena_patterns() -> Seq<Seq<char>> {
    seq![
        "%Y-%m-%d %H:%M:%S%.f"@,
        "%Y-%m-%d %H:%M:%S"@,
        "%Y-%m-%dT%H:%M:%S%.f"@,
        "%Y-%m-%dT%H:%M:%S"@,
        "%Y-%m-%d"@,
    ]
}

/// The time of the first format, from `k` on, that reads `s`.
pub open spec fn first_pattern_time(s: Seq<char>, k: int) -> Option<int>
    decreases 5 - k,
{
    if k < 0 || k >= 5 {
        None
    } else {
        match datetime_in_pattern(s, athena_patterns()[k]) {
            Some(t) => Some(t),
            None => first_pattern_time(s, k + 1),
        }
    }
}

/// Reads an Athena timestamp or date as Unix seconds.
pub fn parse_athena_timestamp(s: &str) -> (r: Option<i64>)
    ensures
        match first_pattern_time(s@, 0) {
            Some(t) => r matches Some(x) && x == t,
            None => r is None,
        },
{
    proof {
        reveal_with_fuel(first_pattern_time, 6);
    }
    if let Some(t) = parse_datetime(s, "%Y-%m-%d %H:%M:%S%.f") {
        return Some(t);
    }
    if let Some(t) = parse_datetime(s, "%Y-%m-%d %H:%M:%S") {
        return Some(t);
    }
    if let Some(t) = parse_datetime(s, "%Y-%m-%dT%H:%M:%S%.f") {
        return Some(t);
    }
    if let Some(t) = parse_datetime(s, "%Y-%m-%dT%H:%M:%S") {
        return Some(t);
    }
    parse_datetime(s, "%Y-%m-%d")
}

/// A cell, as numbers and text.
pub enum Cell {
    Null,
    Int(int),
    Bool(bool),
    Epoch(int),
    Text(Seq<char>),
    DecimalText(Seq<char>),
}

impl View for AthenaCell {
    type V = Cell;

    open spec fn view(&self) -> Cell {
        match self {
            AthenaCell::Null => Cell::Null,
            AthenaCell::Int(n) => Cell::Int(*n as int),
            AthenaCell::Bool(b) => Cell::Bool(*b),
            AthenaCell::Epoch(n) => Cell::Epoch(*n as int),
            AthenaCell::Text(s) => Cell::Text(s@),
            AthenaCell::DecimalText(s) => Cell::DecimalText(s@),
        }
    }
}

/// How a cell is read: empty is null; integer columns read an `i64`, and
/// keep the text when it does not read as one; decimal columns are left to
/// be read as floating point; booleans are `true` in any letter case;
/// timestamps and dates read as seconds, else stay text; anything else is text.
pub open spec fn athena_cell(raw: Seq<char>, col_type: Seq<char>) -> Cell {
    let t = lower_seq(col_type);
    if raw.len() == 0 {
        Cell::Null
    } else if is_int_type(t) {
        match parse_int(raw) {
            Some(n) => Cell::Int(n),
            None => Cell::Text(raw),
        }
    } else if is_decimal_type(t) {
        Cell::DecimalText(raw)
    } else if t == "boolean"@ {
        Cell::Bool(lower_seq(raw) == "true"@)
    } else if t == "timestamp"@ || t == "date"@ {
        match first_pattern_time(raw, 0) {
            Some(n) => Cell::Epoch(n),
            None => Cell::Text(raw),
        }
    } else {
        Cell::Text(raw)
    }
}

fn is_one_of(t: &Vec<char>, names: &[&str]) -> (r: bool)
    ensures
        r == exists|i: int| 0 <= i < names@.len() && t@ == (#[trigger] names@[i])@,
{
    let mut i: usize = 0;
    while i < names.len()
        invariant
            i <= names@.len(),
            forall|k: int| 0 <= k < i ==> t@ != (#[trigger] names@[k])@,
        decreases names@.len() - i,
    {
        if eq_chars(t, &chars_of(names[i])) {
            return true;
        }
        i = i + 1;
    }
    false
}

/// Reads one cell of an Athena result by its column type.
pub fn coerce_athena_value(raw: &str, col_type: &str) -> (r: AthenaCell)
    ensures
        r@ == athena_cell(raw@, col_type@),
{
    if raw.is_empty() {
        return AthenaCell::Null;
    }
    let t = lower_vec(&chars_of(col_type));
    let ints: [&str; 5] = ["integer", "int", "tinyint", "smallint", "bigint"];
    let decimals: [&str; 5] = ["double", "float", "real", "decimal", "numeric"];
    assert(ints@ =~= seq!["integer", "int", "tinyint", "smallint", "bigint"]);
    assert(decimals@ =~= seq!["double", "float", "real", "decimal", "numeric"]);
    if is_one_of(&t, &ints) {
        assert(is_int_type(t@) <==> exists|i: int| 0 <= i < ints@.len() && t@ == (#[trigger] ints@[i])@) by {
            if is_int_type(t@) {
                if t@ == "integer"@ { assert(t@ == ints@[0]@); }
                else if t@ == "int"@ { assert(t@ == ints@[1]@); }
                else if t@ == "tinyint"@ { assert(t@ == ints@[2]@); }
                else if t@ == "smallint"@ { assert(t@ == ints@[3]@); }
                else { assert(t@ == ints@[4]@); }
            }
        }
        match parse_i64(&chars_of(raw)) {
            Some(n) => AthenaCell::Int(n),
            None => AthenaCell::Text(raw.to_owned()),
        }
    } else if is_one_of(&t, &decimals) {
        assert(!is_int_type(t@)) by {
            if is_int_type(t@) {
                if t@ == "integer"@ { assert(t@ == ints@[0]@); }
                else if t@ == "int"@ { assert(t@ == ints@[1]@); }
                else if t@ == "tinyint"@ { assert(t@ == ints@[2]@); }
                else if t@ == "smallint"@ { assert(t@ == ints@[3]@); }
                else { assert(t@ == ints@[4]@); }
            }
        }
        AthenaCell::DecimalText(raw.to_owned())
    } else {
        proof {
            if is_int_type(t@) {
                if t@ == "integer"@ { assert(t@ == ints@[0]@); }
                else if t@ == "int"@ { assert(t@ == ints@[1]@); }
                else if t@ == "tinyint"@ { assert(t@ == ints@[2]@); }
                else if t@ == "smallint"@ { assert(t@ == ints@[3]@); }
                else { assert(t@ == ints@[4]@); }
            }
            if is_decimal_type(t@) {
                if t@ == "double"@ { assert(t@ == decimals@[0]@); }
                else if t@ == "float"@ { assert(t@ == decimals@[1]@); }
                else if t@ == "real"@ { assert(t@ == decimals@[2]@); }
                else if t@ == "decimal"@ { assert(t@ == decimals@[3]@); }
                else { assert(t@ == decimals@[4]@); }
            }
        }
        if eq_chars(&t, &chars_of("boolean")) {
            let l = lower_vec(&chars_of(raw));
            AthenaCell::Bool(eq_chars(&l, &chars_of("true")))
        } else if eq_chars(&t, &chars_of("timestamp")) || eq_chars(&t, &chars_of("date")) {
            match parse_athena_timestamp(raw) {
                Some(n) => AthenaCell::Epoch(n),
                None => AthenaCell::Text(raw.to_owned()),
            }
        } else {
            AthenaCell::Text(raw.to_owned())
        }
    }
}

/// A column of a result row and its cell.
pub type CellEntry = (Seq<char>, Cell);

/// Index of the first entry of `acc`, at or after `k`, for column `name`.
pub open spec fn cell_index(acc: Seq<CellEntry>, name: Seq<char>, k: int) -> Option<int>
    decreases acc.len() - k,
{
    if k < 0 || k >= acc.len() {
        None
    } else if acc[k].0 == name {
        Some(k)
    } else {
        cell_index(acc, name, k + 1)
    }
}

/// `acc` with column `name` holding `c`: its entry replaced, or a new one
/// appended, as a map insert does.
pub open spec fn put_cell(acc: Seq<CellEntry>, name: Seq<char>, c: Cell) -> Seq<CellEntry> {
    match cell_index(acc, name, 0) {
        Some(k) => acc.update(k, (name, c)),
        None => acc.push((name, c)),
    }
}

/// No column holds two cells.
pub open spec fn distinct_cells(acc: Seq<CellEntry>) -> bool {
    forall|i: int, j: int| 0 <= i < j < acc.len() ==> (#[trigger] acc[i]).0 != (#[trigger] acc[j]).0
}

proof fn lemma_cell_index(acc: Seq<CellEntry>, name: Seq<char>, k: int)
    requires
        0 <= k,
    ensures
        match cell_index(acc, name, k) {
            Some(i) => k <= i < acc.len() && acc[i].0 == name,
            None => forall|i: int| k <= i < acc.len() ==> (#[trigger] acc[i]).0 != name,
        },
    decreases acc.len() - k,
{
    if k < acc.len() && acc[k].0 != name {
        lemma_cell_index(acc, name, k + 1);
    }
}

proof fn lemma_put_cell_distinct(acc: Seq<CellEntry>, name: Seq<char>, c: Cell)
    requires
        distinct_cells(acc),
    ensures
        distinct_cells(put_cell(acc, name, c)),
{
    lemma_cell_index(acc, name, 0);
    let r = put_cell(acc, name, c);
    match cell_index(acc, name, 0) {
        Some(k) => {
            assert forall|i: int, j: int| 0 <= i < j < r.len() implies (#[trigger] r[i]).0 != (#[trigger] r[j]).0 by {
                assert(r[i].0 == acc[i].0);
                assert(r[j].0 == acc[j].0);
            }
        },
        None => {
            assert forall|i: int, j: int| 0 <= i < j < r.len() implies (#[trigger] r[i]).0 != (#[trigger] r[j]).0 by {
                if j < acc.len() {
                    assert(r[i] == acc[i] && r[j] == acc[j]);
                } else {
                    assert(r[i] == acc[i]);
                    assert(r[j].0 == name);
                }
            }
        },
    }
}

/// The text at position `i` of `names`, empty past its end.
pub open spec fn text_at(names: Seq<String>, i: int) -> Seq<char> {
    if 0 <= i < names.len() {
        names[i]@
    } else {
        Seq::empty()
    }
}

/// The text of a datum, empty when it has none.
pub open spec fn datum_text(d: Option<String>) -> Seq<char> {
    match d {
        Some(s) => s@,
        None => Seq::empty(),
    }
}

/// The cells of a data row: the datum at position `i` read by the type of
/// column `i` and put under that column's name (the empty name past the
/// known columns), a name met again taking the later cell.
pub open spec fn row_cells(names: Seq<String>, types: Seq<String>, data: Seq<Option<String>>) -> Seq<CellEntry>
    decreases data.len(),
{
    if data.len() == 0 {
        Seq::empty()
    } else {
        let i = data.len() - 1;
        put_cell(
            row_cells(names, types, data.drop_last()),
            text_at(names, i),
            athena_cell(datum_text(data[i]), text_at(types, i)),
        )
    }
}

/// A row of an Athena result.
#[derive(Debug)]
pub struct AthenaRow {
    cells: Vec<(String, AthenaCell)>,
}

impl View for AthenaRow {
    type V = Seq<CellEntry>;

    closed spec fn view(&self) -> Seq<CellEntry> {
        self.cells@.map_values(|e: (String, AthenaCell)| (e.0@, e.1@))
    }
}

impl AthenaRow {
    fn new() -> (r: AthenaRow)
        ensures
            r@ == Seq::<CellEntry>::empty(),
    {
        let r = AthenaRow { cells: Vec::new() };
        assert(r@ =~= Seq::<CellEntry>::empty());
        r
    }

    fn position(&self, name: &str) -> (r: Option<usize>)
        ensures
            match r {
                Some(k) => cell_index(self@, name@, 0) == Some(k as int) && k < self@.len(),
                None => cell_index(self@, name@, 0) is None,
            },
    {
        let mut k: usize = 0;
        while k < self.cells.len()
            invariant
                k <= self.cells.len(),
                cell_index(self@, name@, 0) == cell_index(self@, name@, k as int),
            decreases self.cells.len() - k,
        {
            if same_text(self.cells[k].0.as_str(), name) {
                return Some(k);
            }
            k = k + 1;
        }
        None
    }

    /// The cell of a column, if the row has that column.
    pub fn get(&self, name: &str) -> (r: Option<&AthenaCell>)
        ensures
            match cell_index(self@, name@, 0) {
                Some(k) => r matches Some(c) && c@ == self@[k].1,
                None => r is None,
            },
    {
        match self.position(name) {
            Some(k) => Some(&self.cells[k].1),
            None => None,
        }
    }

    /// Each column with its cell, in the order of the columns.
    pub fn cells(&self) -> (r: &Vec<(String, AthenaCell)>)
        ensures
            r@.map_values(|e: (String, AthenaCell)| (e.0@, e.1@)) == self@,
    {
        &self.cells
    }

    fn put(&mut self, name: String, cell: AthenaCell)
        ensures
            final(self)@ == put_cell(old(self)@, name@, cell@),
            distinct_cells(old(self)@) ==> distinct_cells(final(self)@),
    {
        proof {
            if distinct_cells(self@) {
                lemma_put_cell_distinct(self@, name@, cell@);
            }
        }
        match self.position(name.as_str()) {
            Some(k) => {
                let ghost before = self@;
                let ghost entry = (name@, cell@);
                self.cells.set(k, (name, cell));
                assert(self@ =~= before.update(k as int, entry));
            },
            None => {
                let ghost before = self@;
                let ghost entry = (name@, cell@);
                self.cells.push((name, cell));
                assert(self@ =~= before.push(entry));
            },
        }
    }
}

fn text_or_empty(names: &Vec<String>, i: usize) -> (r: String)
    ensures
        r@ == text_at(names@, i as int),
{
    if i < names.len() {
        names[i].clone()
    } else {
        String::new()
    }
}

/// Reads one data row by the result's column names and types.
pub fn read_row(names: &Vec<String>, types: &Vec<String>, data: &Vec<Option<String>>) -> (r: AthenaRow)
    ensures
        r@ == row_cells(names@, types@, data@),
        distinct_cells(r@),
{
    let mut row = AthenaRow::new();
    let mut i: usize = 0;
    assert(data@.take(0) =~= Seq::<Option<String>>::empty());
    while i < data.len()
        invariant
            i <= data@.len(),
            row@ == row_cells(names@, types@, data@.take(i as int)),
            distinct_cells(row@),
        decreases data@.len() - i,
    {
        let raw: &str = match &data[i] {
            Some(t) => t.as_str(),
            None => "",
        };
        let col_type = text_or_empty(types, i);
        let cell = coerce_athena_value(raw, col_type.as_str());
        let name = text_or_empty(names, i);
        proof {
            assert(data@.take(i + 1).drop_last() =~= data@.take(i as int));
            assert(data@.take(i + 1)[i as int] == data@[i as int]);
            reveal_strlit("");
        }
        row.put(name, cell);
        i = i + 1;
    }
    assert(data@.take(data@.len() as int) =~= data@);
    row
}

/// The rows of an Athena result, whose first row repeats the column
/// names and is left out.
pub fn read_result_rows(names: &Vec<String>, types: &Vec<String>, rows: &Vec<Vec<Option<String>>>) -> (r: Vec<AthenaRow>)
    ensures
        r@.len() == if rows@.len() > 0 { rows@.len() - 1 } else { 0 },
        forall|k: int| 0 <= k < r@.len() ==> (#[trigger] r@[k])@ == row_cells(names@, types@, rows@[k + 1]@),
        forall|k: int| 0 <= k < r@.len() ==> distinct_cells((#[trigger] r@[k])@),
{
    let mut out: Vec<AthenaRow> = Vec::new();
    if rows.len() == 0 {
        return out;
    }
    let mut i: usize = 1;
    while i < rows.len()
        invariant
            1 <= i <= rows@.len(),
            out@.len() == i - 1,
            forall|k: int| 0 <= k < out@.len() ==> (#[trigger] out@[k])@ == row_cells(names@, types@, rows@[k + 1]@),
            forall|k: int| 0 <= k < out@.len() ==> distinct_cells((#[trigger] out@[k])@),
        decreases rows@.len() - i,
    {
        out.push(read_row(names, types, &rows[i]));
        i = i + 1;
    }
    out
}

} // verus!
