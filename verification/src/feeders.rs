//! Data feeders: rows of test data handed to virtual users, and the CSV
//! format they are read from.
use vstd::prelude::*;
use rand::seq::SliceRandom;
use crate::string_map::StringMap;
use crate::text::{
    chars_of,
    string_of,
    trim,
    trim_bounds,
    decimal,
    usize_to_decimal,
};

verus! {

/// A row of data (column name to value).
pub type DataRow = StringMap;

/// How a feeder walks through its rows.
#[derive(Debug, Clone, Copy, PartialEq, Eq, Structural)]
pub enum FeederStrategy {
    /// Each call gets the next row; `None` once the rows are used up.
    Sequential,
    /// Each call gets a row chosen at random; never runs out.
    Random,
    /// Each call gets the next row, starting over after the last one.
    Cyclic,
}

impl Default for FeederStrategy {
    fn default() -> (r: Self)
        ensures
            r == FeederStrategy::Cyclic,
    {
        FeederStrategy::Cyclic
    }
}

/// Feeder configuration as written in a scenario.
#[derive(Debug)]
pub enum FeederConfig {
    Csv { name: String, path: String, strategy: FeederStrategy },
    Json { name: String, path: String, strategy: FeederStrategy },
    Jdbc {
        name: String,
        connection_string: String,
        query: String,
        strategy: FeederStrategy,
        username: Option<String>,
        password: Option<String>,
    },
    Redis { name: String, url: String, key_pattern: String, strategy: FeederStrategy, db: i64 },
    Kafka {
        name: String,
        brokers: Vec<String>,
        topic: String,
        group_id: String,
        strategy: FeederStrategy,
        timeout_ms: u64,
    },
}

/// The name a feeder configuration is looked up by.
pub open spec fn config_name(c: FeederConfig) -> Seq<char> {
    match c {
        FeederConfig::Csv { name, .. } => name@,
        FeederConfig::Json { name, .. } => name@,
        FeederConfig::Jdbc { name, .. } => name@,
        FeederConfig::Redis { name, .. } => name@,
        FeederConfig::Kafka { name, .. } => name@,
    }
}

impl FeederConfig {
    /// The feeder name, for lookup in the feeder map.
    pub fn name(&self) -> (r: &str)
        ensures
            r@ == config_name(*self),
    {
        match self {
            FeederConfig::Csv { name, .. } => name.as_str(),
            FeederConfig::Json { name, .. } => name.as_str(),
            FeederConfig::Jdbc { name, .. } => name.as_str(),
            FeederConfig::Redis { name, .. } => name.as_str(),
            FeederConfig::Kafka { name, .. } => name.as_str(),
        }
    }
}

/// Redis database used when a configuration names none.
pub fn default_redis_db() -> (r: i64)
    ensures
        r == 0,
{
    0
}

/// Kafka consumption time-out (ms) used when a configuration names none.
pub fn default_kafka_timeout() -> (r: u64)
    ensures
        r == 5000,
{
    5000
}

/// The kinds of feeder.
#[derive(Debug, Clone, Copy, PartialEq, Eq, Structural)]
pub enum FeederKind {
    Csv,
    Json,
    Jdbc,
    Redis,
    Kafka,
}

/// Why a feeder could not be made.
#[derive(Debug, Clone, PartialEq, Eq)]
pub enum FeederError {
    /// The configuration is for another kind of feeder.
    WrongConfig(FeederKind),
    /// The CSV text has no line at all.
    CsvMissingHeaders,
    /// The CSV header line has no column.
    CsvNoHeaders,
    /// A CSV data line has the wrong number of columns.
    CsvColumnCount { line: usize, found: usize, expected: usize },
    /// The CSV text has no data line.
    CsvNoDataRows,
    /// The JSON text does not parse as an array (the file and the parser's
    /// message).
    JsonSyntax { path: String, detail: String },
    /// The JSON array is empty.
    JsonEmptyArray,
    /// The first JSON element is not an object.
    JsonNotObjects,
    /// A JSON element is not an object.
    JsonElementNotObject { index: usize },
    /// This kind of feeder has no data source yet.
    NotImplemented(FeederKind),
}

/// The configuration label of a feeder kind.
pub open spec fn kind_label(k: FeederKind) -> Seq<char> {
    match k {
        FeederKind::Csv => "CSV"@,
        FeederKind::Json => "JSON"@,
        FeederKind::Jdbc => "JDBC"@,
        FeederKind::Redis => "Redis"@,
        FeederKind::Kafka => "Kafka"@,
    }
}

/// The text of a feeder error.
pub open spec fn feeder_error_text(e: FeederError) -> Seq<char> {
    match e {
        FeederError::WrongConfig(k) => "Invalid feeder config for "@ + kind_label(k),
        FeederError::CsvMissingHeaders => "CSV file is empty or missing headers"@,
        FeederError::CsvNoHeaders => "CSV file has no headers"@,
        FeederError::CsvColumnCount { line, found, expected } => "CSV line "@ + decimal(
            line as nat,
        ) + " has "@ + decimal(found as nat) + " columns, expected "@ + decimal(expected as nat),
        FeederError::CsvNoDataRows => "CSV file has no data rows"@,
        FeederError::JsonSyntax { path, detail } => "Failed to parse JSON file "@ + path@ + ": "@
            + detail@,
        FeederError::JsonEmptyArray => "JSON file contains empty array"@,
        FeederError::JsonNotObjects => "JSON array must contain objects"@,
        FeederError::JsonElementNotObject { index } => "JSON array element "@ + decimal(
            index as nat,
        ) + " is not an object"@,
        FeederError::NotImplemented(k) => match k {
            FeederKind::Jdbc => "JDBC feeder not yet implemented - requires database driver integration"@,
            FeederKind::Redis => "Redis feeder not yet implemented - requires redis client integration"@,
            FeederKind::Kafka => "Kafka feeder not yet implemented - requires rdkafka integration"@,
            _ => kind_label(k) + " feeder not yet implemented"@,
        },
    }
}

fn kind_label_text(k: FeederKind) -> (r: String)
    ensures
        r@ == kind_label(k),
{
    match k {
        FeederKind::Csv => "CSV".to_owned(),
        FeederKind::Json => "JSON".to_owned(),
        FeederKind::Jdbc => "JDBC".to_owned(),
        FeederKind::Redis => "Redis".to_owned(),
        FeederKind::Kafka => "Kafka".to_owned(),
    }
}

impl FeederError {
    /// The error text.
    pub fn message(&self) -> (r: String)
        ensures
            r@ == feeder_error_text(*self),
    {
        match self {
            FeederError::WrongConfig(k) => {
                let mut r = "Invalid feeder config for ".to_owned();
                let l = kind_label_text(*k);
                r.append(l.as_str());
                r
            },
            FeederError::CsvMissingHeaders => "CSV file is empty or missing headers".to_owned(),
            FeederError::CsvNoHeaders => "CSV file has no headers".to_owned(),
            FeederError::CsvColumnCount { line, found, expected } => {
                let mut r = "CSV line ".to_owned();
                r.append(usize_to_decimal(*line).as_str());
                r.append(" has ");
                r.append(usize_to_decimal(*found).as_str());
                r.append(" columns, expected ");
                r.append(usize_to_decimal(*expected).as_str());
                r
            },
            FeederError::CsvNoDataRows => "CSV file has no data rows".to_owned(),
            FeederError::JsonSyntax { path, detail } => {
                let mut r = "Failed to parse JSON file ".to_owned();
                r.append(path.as_str());
                r.append(": ");
                r.append(detail.as_str());
                r
            },
            FeederError::JsonEmptyArray => "JSON file contains empty array".to_owned(),
            FeederError::JsonNotObjects => "JSON array must contain objects".to_owned(),
            FeederError::JsonElementNotObject { index } => {
                let mut r = "JSON array element ".to_owned();
                r.append(usize_to_decimal(*index).as_str());
                r.append(" is not an object");
                r
            },
            FeederError::NotImplemented(k) => match k {
                FeederKind::Jdbc => "JDBC feeder not yet implemented - requires database driver integration".to_owned(),
                FeederKind::Redis => "Redis feeder not yet implemented - requires redis client integration".to_owned(),
                FeederKind::Kafka => "Kafka feeder not yet implemented - requires rdkafka integration".to_owned(),
                _ => {
                    let mut r = kind_label_text(*k);
                    r.append(" feeder not yet implemented");
                    r
                },
            },
        }
    }
}

// ---------------------------------------------------------------------------
// Walking through rows.
/// The rows seen as maps.
pub open spec fn rows_view(data: Seq<StringMap>) -> Seq<Map<Seq<char>, Seq<char>>> {
    data.map_values(|m: StringMap| m@)
}

/// One call of a feeder: with rows `data`, `strategy` and cursor `cursor`,
/// the call may give back `row` and leave the cursor at `next`.
pub open spec fn row_step(
    data: Seq<Map<Seq<char>, Seq<char>>>,
    strategy: FeederStrategy,
    cursor: nat,
    next: nat,
    row: Option<Map<Seq<char>, Seq<char>>>,
) -> bool {
    if data.len() == 0 {
        row is None && next == cursor
    } else {
        match strategy {
            FeederStrategy::Sequential => if cursor < data.len() {
                row == Some(data[cursor as int]) && next == cursor + 1
            } else {
                row is None && next == cursor
            },
            FeederStrategy::Cyclic => {
                &&& next == (cursor + 1) % data.len()
                &&& row == if cursor < data.len() {
                    Some(data[cursor as int])
                } else {
                    None
                }
            },
            FeederStrategy::Random => {
                &&& next == cursor
                &&& exists|i: int| 0 <= i < data.len() && row == Some(data[i])
            },
        }
    }
}

/// `SliceRandom::choose` with the thread-local generator: `None` for no
/// rows, otherwise one of the rows, chosen at random.
#[verifier::external_body]
fn choose_row(data: &[StringMap]) -> (r: Option<&StringMap>)
    ensures
        data@.len() == 0 <==> r is None,
        r matches Some(x) ==> exists|i: int| 0 <= i < data@.len() && data@[i] == *x,
{
    data.choose(&mut rand::thread_rng())
}

/// The row a call hands out and the cursor after it: sequential and cyclic
/// as `row_step` says; random: the row the random choice `chosen` picked.
pub open spec fn picked_row(
    data: Seq<Map<Seq<char>, Seq<char>>>,
    strategy: FeederStrategy,
    cursor: nat,
    chosen: Option<Map<Seq<char>, Seq<char>>>,
) -> (Option<Map<Seq<char>, Seq<char>>>, nat) {
    if data.len() == 0 {
        (None, cursor)
    } else {
        match strategy {
            FeederStrategy::Sequential => if cursor < data.len() {
                (Some(data[cursor as int]), cursor + 1)
            } else {
                (None, cursor)
            },
            FeederStrategy::Cyclic => (
                if cursor < data.len() {
                    Some(data[cursor as int])
                } else {
                    None
                },
                (cursor + 1) % data.len(),
            ),
            FeederStrategy::Random => (chosen, cursor),
        }
    }
}

/// The row for the next call, and the cursor after it; `chosen` is the row
/// the random choice picked (for the random strategy).
fn pick_row(
    data: &Vec<StringMap>,
    strategy: FeederStrategy,
    cursor: usize,
    chosen: Option<&StringMap>,
) -> (r: (Option<StringMap>, usize))
    requires
        chosen matches Some(x) ==> exists|i: int| 0 <= i < data@.len() && data@[i] == *x,
        strategy == FeederStrategy::Random && data@.len() > 0 ==> chosen is Some,
    ensures
        (match r.0 {
            Some(m) => Some(m@),
            None => None,
        }, r.1 as nat) == picked_row(
            rows_view(data@),
            strategy,
            cursor as nat,
            match chosen {
                Some(x) => Some(x@),
                None => None,
            },
        ),
        row_step(
            rows_view(data@),
            strategy,
            cursor as nat,
            r.1 as nat,
            match r.0 {
                Some(m) => Some(m@),
                None => None,
            },
        ),
{
    if data.len() == 0 {
        return (None, cursor);
    }
    match strategy {
        FeederStrategy::Sequential => {
            if cursor >= data.len() {
                (None, cursor)
            } else {
                (Some(data[cursor].clone()), cursor + 1)
            }
        },
        FeederStrategy::Random => {
            match chosen {
                Some(row) => {
                    let r = row.clone();
                    proof {
                        let i = choose|i: int| 0 <= i < data@.len() && data@[i] == *row;
                        assert(rows_view(data@)[i] == r@);
                    }
                    (Some(r), cursor)
                },
                None => (None, cursor),
            }
        },
        FeederStrategy::Cyclic => {
            let row = if cursor < data.len() {
                Some(data[cursor].clone())
            } else {
                None
            };
            let n = data.len();
            proof {
                vstd::arithmetic::div_mod::lemma_add_mod_noop(cursor as int, 1, n as int);
                vstd::arithmetic::div_mod::lemma_mod_bound(cursor as int, n as int);
                if n > 1 {
                    vstd::arithmetic::div_mod::lemma_small_mod(1, n as nat);
                } else {
                    assert((cursor + 1) % 1 == 0) by (nonlinear_arith);
                    assert(((cursor % 1) + 1) % 1 == 0) by (nonlinear_arith);
                }
            }
            (row, (cursor % n + 1) % n)
        },
    }
}

/// Cyclic feeders hand out their rows in order and start over after the
/// last one: over consecutive calls from the first row, call `k` (from 0)
/// gives row `k mod n`.
pub proof fn law_cyclic_wraps_around(
    data: Seq<Map<Seq<char>, Seq<char>>>,
    cursors: Seq<nat>,
    rows: Seq<Option<Map<Seq<char>, Seq<char>>>>,
)
    requires
        data.len() > 0,
        cursors.len() == rows.len() + 1,
        cursors[0] == 0,
        forall|k: int|
            0 <= k < rows.len() ==> row_step(
                data,
                FeederStrategy::Cyclic,
                #[trigger] cursors[k],
                cursors[k + 1],
                rows[k],
            ),
    ensures
        forall|k: int| 0 <= k < rows.len() ==> #[trigger] rows[k] == Some(data[k % (data.len() as int)]),
{
    let n = data.len() as int;
    assert forall|k: int| 0 <= k <= rows.len() implies #[trigger] cursors[k] == k % n by {
        lemma_cyclic_cursor(data, cursors, rows, k);
    }
    assert forall|k: int| 0 <= k < rows.len() implies #[trigger] rows[k] == Some(
        data[k % (data.len() as int)],
    ) by {
        assert(cursors[k] == k % n);
        assert(row_step(data, FeederStrategy::Cyclic, cursors[k], cursors[k + 1], rows[k]));
        vstd::arithmetic::div_mod::lemma_mod_bound(k, n);
    }
}

proof fn lemma_cyclic_cursor(
    data: Seq<Map<Seq<char>, Seq<char>>>,
    cursors: Seq<nat>,
    rows: Seq<Option<Map<Seq<char>, Seq<char>>>>,
    k: int,
)
    requires
        data.len() > 0,
        cursors.len() == rows.len() + 1,
        cursors[0] == 0,
        forall|j: int|
            0 <= j < rows.len() ==> row_step(
                data,
                FeederStrategy::Cyclic,
                #[trigger] cursors[j],
                cursors[j + 1],
                rows[j],
            ),
        0 <= k <= rows.len(),
    ensures
        cursors[k] == k % (data.len() as int),
    decreases k,
{
    let n = data.len() as int;
    if k == 0 {
        vstd::arithmetic::div_mod::lemma_small_mod(0, n as nat);
    } else {
        lemma_cyclic_cursor(data, cursors, rows, k - 1);
        assert(row_step(data, FeederStrategy::Cyclic, cursors[k - 1], cursors[k], rows[k - 1]));
        vstd::arithmetic::div_mod::lemma_add_mod_noop(k - 1, 1, n);
        if n > 1 {
            vstd::arithmetic::div_mod::lemma_small_mod(1, n as nat);
        } else {
            assert(k % 1 == 0) by (nonlinear_arith);
            assert((cursors[k - 1] + 1) % 1 == 0) by (nonlinear_arith);
        }
    }
}

/// Sequential feeders hand out each row once, in order, then nothing: over
/// consecutive calls from the first row, call `k` gives row `k` while there
/// is one, and `None` after.
pub proof fn law_sequential_in_order(
    data: Seq<Map<Seq<char>, Seq<char>>>,
    cursors: Seq<nat>,
    rows: Seq<Option<Map<Seq<char>, Seq<char>>>>,
)
    requires
        cursors.len() == rows.len() + 1,
        cursors[0] == 0,
        forall|k: int|
            0 <= k < rows.len() ==> row_step(
                data,
                FeederStrategy::Sequential,
                #[trigger] cursors[k],
                cursors[k + 1],
                rows[k],
            ),
    ensures
        forall|k: int|
            0 <= k < rows.len() ==> #[trigger] rows[k] == if k < data.len() {
                Some(data[k])
            } else {
                None
            },
{
    assert forall|k: int| 0 <= k <= rows.len() implies #[trigger] cursors[k] == if k < data.len() {
        k
    } else {
        data.len() as int
    } by {
        lemma_sequential_cursor(data, cursors, rows, k);
    }
    assert forall|k: int| 0 <= k < rows.len() implies #[trigger] rows[k] == if k < data.len() {
        Some(data[k])
    } else {
        None
    } by {
        assert(row_step(data, FeederStrategy::Sequential, cursors[k], cursors[k + 1], rows[k]));
    }
}

proof fn lemma_sequential_cursor(
    data: Seq<Map<Seq<char>, Seq<char>>>,
    cursors: Seq<nat>,
    rows: Seq<Option<Map<Seq<char>, Seq<char>>>>,
    k: int,
)
    requires
        cursors.len() == rows.len() + 1,
        cursors[0] == 0,
        forall|j: int|
            0 <= j < rows.len() ==> row_step(
                data,
                FeederStrategy::Sequential,
                #[trigger] cursors[j],
                cursors[j + 1],
                rows[j],
            ),
        0 <= k <= rows.len(),
    ensures
        cursors[k] == if k < data.len() {
            k
        } else {
            data.len() as int
        },
    decreases k,
{
    if k > 0 {
        lemma_sequential_cursor(data, cursors, rows, k - 1);
        assert(row_step(
            data,
            FeederStrategy::Sequential,
            cursors[k - 1],
            cursors[k],
            rows[k - 1],
        ));
    }
}

/// A random feeder with rows never runs out: every call gives one of its
/// rows and leaves the cursor where it was.
pub proof fn law_random_never_runs_out(
    data: Seq<Map<Seq<char>, Seq<char>>>,
    cursor: nat,
    next: nat,
    row: Option<Map<Seq<char>, Seq<char>>>,
)
    requires
        data.len() > 0,
        row_step(data, FeederStrategy::Random, cursor, next, row),
    ensures
        row is Some,
        next == cursor,
        exists|i: int| 0 <= i < data.len() && row == Some(data[i]),
{
}

/// Feeders of data rows.
pub trait Feeder: Send + Sync {
    /// The next data row according to the feeder's strategy; `None` when no
    /// more data is available.
    fn next_row(&mut self) -> Option<DataRow>;

    /// The column names of the rows.
    fn get_headers(&self) -> Vec<String>;

    /// Moves the cursor back to the first row.
    fn reset(&mut self);
}

// ---------------------------------------------------------------------------
// The CSV format.
/// Position of the first `'\n'` of `s` at or after `j`, or the length of `s`.
pub open spec fn nl_from(s: Seq<char>, j: int) -> int
    decreases s.len() - j,
{
    if j < 0 || j >= s.len() {
        s.len() as int
    } else if s[j] == '\n' {
        j
    } else {
        nl_from(s, j + 1)
    }
}

pub proof fn lemma_nl_from(s: Seq<char>, j: int)
    requires
        0 <= j,
    ensures
        j <= s.len() ==> j <= nl_from(s, j) <= s.len(),
        j < s.len() ==> nl_from(s, j) < s.len() ==> s[nl_from(s, j)] == '\n',
        forall|t: int| j <= t < nl_from(s, j) ==> s[t] != '\n',
    decreases s.len() - j,
{
    if j < s.len() && s[j] != '\n' {
        lemma_nl_from(s, j + 1);
    }
}

/// The line of `s` that starts at `j`: up to the next `'\n'`, without a
/// `'\r'` just before that `'\n'` (as `str::lines`).
pub open spec fn line_at(s: Seq<char>, j: int) -> Seq<char> {
    let k = nl_from(s, j);
    let raw = s.subrange(j, k);
    if k < s.len() && raw.len() > 0 && raw.last() == '\r' {
        raw.drop_last()
    } else {
        raw
    }
}

/// Position of the first `','` of `s` at or after `j`, or the length of `s`.
pub open spec fn comma_from(s: Seq<char>, j: int) -> int
    decreases s.len() - j,
{
    if j < 0 || j >= s.len() {
        s.len() as int
    } else if s[j] == ',' {
        j
    } else {
        comma_from(s, j + 1)
    }
}

pub proof fn lemma_comma_from(s: Seq<char>, j: int)
    requires
        0 <= j,
    ensures
        j <= s.len() ==> j <= comma_from(s, j) <= s.len(),
        j < s.len() ==> comma_from(s, j) < s.len() ==> s[comma_from(s, j)] == ',',
        forall|t: int| j <= t < comma_from(s, j) ==> s[t] != ',',
    decreases s.len() - j,
{
    if j < s.len() && s[j] != ',' {
        lemma_comma_from(s, j + 1);
    }
}

/// The pieces of `s` between commas, from position `j` on (as `str::split(',')`).
pub open spec fn pieces_from(s: Seq<char>, j: int) -> Seq<Seq<char>>
    decreases s.len() + 1 - j,
{
    if j < 0 || j > s.len() {
        Seq::empty()
    } else {
        let k = comma_from(s, j);
        proof {
            lemma_comma_from(s, j);
        }
        if k >= s.len() {
            seq![s.subrange(j, s.len() as int)]
        } else {
            seq![s.subrange(j, k)] + pieces_from(s, k + 1)
        }
    }
}

/// The comma-separated fields of `s`, each trimmed.
pub open spec fn csv_fields(s: Seq<char>) -> Seq<Seq<char>> {
    pieces_from(s, 0).map_values(|f: Seq<char>| trim(f))
}

/// The row made of the first `n` columns (a later column with the same name
/// replaces an earlier one).
pub open spec fn row_of(headers: Seq<Seq<char>>, values: Seq<Seq<char>>, n: nat) -> Map<
    Seq<char>,
    Seq<char>,
>
    decreases n,
{
    if n == 0 {
        Map::empty()
    } else {
        row_of(headers, values, (n - 1) as nat).insert(headers[n - 1], values[n - 1])
    }
}

/// Number of line breaks in `s` before position `j`.
pub open spec fn breaks_before(s: Seq<char>, j: int) -> nat
    decreases j,
{
    if j <= 0 {
        0
    } else {
        breaks_before(s, j - 1) + if s[j - 1] == '\n' {
            1nat
        } else {
            0nat
        }
    }
}

/// The data rows of the CSV text `s` from the line that starts at `j` on,
/// under `headers`: blank lines are skipped; the first line with another
/// number of columns than the headers is an error, numbered from 1.
pub open spec fn csv_rows_from(s: Seq<char>, j: int, headers: Seq<Seq<char>>) -> Result<
    Seq<Map<Seq<char>, Seq<char>>>,
    FeederError,
>
    decreases s.len() + 1 - j,
{
    if j < 0 || j >= s.len() {
        Ok(Seq::empty())
    } else {
        let next = nl_from(s, j) + 1;
        proof {
            lemma_nl_from(s, j);
        }
        let t = trim(line_at(s, j));
        if t.len() == 0 {
            csv_rows_from(s, next, headers)
        } else {
            let vals = csv_fields(t);
            if vals.len() != headers.len() {
                Err(
                    FeederError::CsvColumnCount {
                        line: (breaks_before(s, j) + 1) as usize,
                        found: vals.len() as usize,
                        expected: headers.len() as usize,
                    },
                )
            } else {
                match csv_rows_from(s, next, headers) {
                    Ok(rest) => Ok(seq![row_of(headers, vals, headers.len())] + rest),
                    Err(e) => Err(e),
                }
            }
        }
    }
}

/// The headers and rows of the CSV text `s`: the first line names the
/// columns, each further non-blank line is a row.
pub open spec fn parse_csv(s: Seq<char>) -> Result<
    (Seq<Seq<char>>, Seq<Map<Seq<char>, Seq<char>>>),
    FeederError,
> {
    if s.len() == 0 {
        Err(FeederError::CsvMissingHeaders)
    } else {
        let headers = csv_fields(line_at(s, 0));
        if headers.len() == 0 {
            Err(FeederError::CsvNoHeaders)
        } else {
            match csv_rows_from(s, nl_from(s, 0) + 1, headers) {
                Err(e) => Err(e),
                Ok(rows) => if rows.len() == 0 {
                    Err(FeederError::CsvNoDataRows)
                } else {
                    Ok((headers, rows))
                },
            }
        }
    }
}

/// The end of the line of `s` that starts at `j`, and where the next line starts.
fn line_bounds(s: &[char], j: usize) -> (r: (usize, usize))
    requires
        j < s.len(),
    ensures
        r.0 <= s.len(),
        j <= r.0,
        s@.subrange(j as int, r.0 as int) == line_at(s@, j as int),
        r.1 == if nl_from(s@, j as int) < s.len() {
            nl_from(s@, j as int) + 1
        } else {
            s.len() as int
        },
        j < r.1 <= s.len(),
{
    let mut k = j;
    while k < s.len() && s[k] != '\n'
        invariant
            j <= k <= s.len(),
            forall|t: int| j <= t < k ==> s@[t] != '\n',
        decreases s.len() - k,
    {
        k += 1;
    }
    proof {
        lemma_nl_from(s@, j as int);
        if nl_from(s@, j as int) < k {
            assert(s@[nl_from(s@, j as int)] == '\n');
        }
        if k < nl_from(s@, j as int) {
            assert(s@[k as int] == '\n');
        }
    }
    let end = if k < s.len() && k > j && s[k - 1] == '\r' {
        k - 1
    } else {
        k
    };
    proof {
        let raw = s@.subrange(j as int, k as int);
        if k < s.len() && k > j && s@[k - 1] == '\r' {
            assert(raw.drop_last() =~= s@.subrange(j as int, end as int));
        }
    }
    let next = if k < s.len() {
        k + 1
    } else {
        k
    };
    (end, next)
}

/// The comma-separated fields of `s[lo..hi]`, each trimmed.
fn split_fields(s: &[char], lo: usize, hi: usize) -> (r: Vec<String>)
    requires
        lo <= hi <= s.len(),
    ensures
        r@.map_values(|f: String| f@) == csv_fields(s@.subrange(lo as int, hi as int)),
{
    let ghost seg = s@.subrange(lo as int, hi as int);
    let mut out: Vec<String> = Vec::new();
    let mut j = lo;
    loop
        invariant
            lo <= j <= hi <= s.len(),
            seg == s@.subrange(lo as int, hi as int),
            out@.map_values(|f: String| f@) + pieces_from(seg, j - lo).map_values(
                |f: Seq<char>| trim(f),
            ) == csv_fields(seg),
        decreases hi - j,
    {
        let mut k = j;
        while k < hi && s[k] != ','
            invariant
                j <= k <= hi <= s.len(),
                forall|t: int| j <= t < k ==> s@[t] != ',',
            decreases hi - k,
        {
            k += 1;
        }
        proof {
            lemma_comma_from(seg, j - lo);
            let c = comma_from(seg, j - lo);
            if c < k - lo {
                assert(seg[c] == s@[lo + c]);
            }
            if k - lo < c {
                assert(seg[k - lo] == s@[k as int]);
            }
            assert(comma_from(seg, j - lo) == k - lo);
        }
        let (a, b) = trim_bounds(s, j, k);
        let field = string_of(&s[a..b]);
        let ghost before = out@;
        out.push(field);
        proof {
            assert(field@ =~= s@.subrange(a as int, b as int));
            assert(s@.subrange(j as int, k as int) =~= seg.subrange(j - lo, k - lo));
            assert(out@.map_values(|f: String| f@) =~= before.map_values(|f: String| f@).push(
                trim(seg.subrange(j - lo, k - lo)),
            ));
        }
        if k >= hi {
            proof {
                assert(pieces_from(seg, j - lo) == seq![seg.subrange(j - lo, seg.len() as int)]);
                assert(pieces_from(seg, j - lo).map_values(|f: Seq<char>| trim(f)) =~= seq![
                    trim(seg.subrange(j - lo, k - lo)),
                ]);
                assert(out@.map_values(|f: String| f@) =~= out@.map_values(|f: String| f@)
                    + pieces_from(seg, (k + 1) - lo).map_values(|f: Seq<char>| trim(f)));
            }
            return out;
        }
        proof {
            let p = pieces_from(seg, j - lo);
            assert(p == seq![seg.subrange(j - lo, k - lo)] + pieces_from(seg, k + 1 - lo));
            assert(p.map_values(|f: Seq<char>| trim(f)) =~= seq![trim(seg.subrange(j - lo, k - lo))]
                + pieces_from(seg, k + 1 - lo).map_values(|f: Seq<char>| trim(f)));
        }
        j = k + 1;
    }
}

/// The row made of `headers` and `values`, column by column.
fn make_row(headers: &Vec<String>, values: Vec<String>) -> (r: StringMap)
    requires
        headers.len() == values.len(),
    ensures
        r@ == row_of(
            headers@.map_values(|f: String| f@),
            values@.map_values(|f: String| f@),
            headers@.len(),
        ),
{
    let ghost hv = headers@.map_values(|f: String| f@);
    let ghost vv = values@.map_values(|f: String| f@);
    let mut row = StringMap::new();
    let mut i: usize = 0;
    while i < headers.len()
        invariant
            headers.len() == values.len(),
            i <= headers.len(),
            hv == headers@.map_values(|f: String| f@),
            vv == values@.map_values(|f: String| f@),
            row@ == row_of(hv, vv, i as nat),
        decreases headers.len() - i,
    {
        row.insert(headers[i].clone(), values[i].clone());
        i += 1;
    }
    row
}

/// Number of line breaks in `s` before position `j`.
fn count_breaks(s: &[char], j: usize) -> (r: usize)
    requires
        j <= s.len(),
    ensures
        r == breaks_before(s@, j as int),
        r <= j,
{
    let mut n: usize = 0;
    let mut i: usize = 0;
    while i < j
        invariant
            i <= j <= s.len(),
            n == breaks_before(s@, i as int),
            n <= i,
        decreases j - i,
    {
        if s[i] == '\n' {
            n += 1;
        }
        i += 1;
    }
    n
}

/// The data rows of `s` from the line at `start` on (see `csv_rows_from`).
fn csv_rows(s: &[char], start: usize, headers: &Vec<String>) -> (r: Result<
    Vec<StringMap>,
    FeederError,
>)
    requires
        start <= s.len(),
    ensures
        match csv_rows_from(s@, start as int, headers@.map_values(|f: String| f@)) {
            Ok(rows) => r matches Ok(v) && rows_view(v@) == rows,
            Err(e) => r == Err::<Vec<StringMap>, FeederError>(e),
        },
{
    let ghost hv = headers@.map_values(|f: String| f@);
    let ghost goal = csv_rows_from(s@, start as int, hv);
    let mut data: Vec<StringMap> = Vec::new();
    let mut j = start;
    while j < s.len()
        invariant
            start <= j <= s.len(),
            hv == headers@.map_values(|f: String| f@),
            goal == csv_rows_from(s@, start as int, hv),
            goal == match csv_rows_from(s@, j as int, hv) {
                Ok(rest) => Ok(rows_view(data@) + rest),
                Err(e) => Err(e),
            },
        decreases s.len() - j,
    {
        let (end, next) = line_bounds(s, j);
        proof {
            lemma_nl_from(s@, j as int);
            if nl_from(s@, j as int) >= s.len() {
                assert(csv_rows_from(s@, nl_from(s@, j as int) + 1, hv) == csv_rows_from(
                    s@,
                    next as int,
                    hv,
                ));
            }
        }
        let (a, b) = trim_bounds(s, j, end);
        proof {
            assert(s@.subrange(j as int, end as int) == line_at(s@, j as int));
        }
        if a < b {
            let values = split_fields(s, a, b);
            if values.len() != headers.len() {
                let line = count_breaks(s, j) + 1;
                return Err(
                    FeederError::CsvColumnCount {
                        line,
                        found: values.len(),
                        expected: headers.len(),
                    },
                );
            }
            let row = make_row(headers, values);
            let ghost before = data@;
            data.push(row);
            proof {
                assert(rows_view(data@) =~= rows_view(before).push(row@));
                match csv_rows_from(s@, next as int, hv) {
                    Ok(rest) => {
                        assert(rows_view(data@) + rest =~= rows_view(before) + (seq![row@] + rest));
                    },
                    Err(e) => {},
                }
            }
        }
        j = next;
    }
    proof {
        assert(rows_view(data@) + Seq::<Map<Seq<char>, Seq<char>>>::empty() =~= rows_view(data@));
    }
    Ok(data)
}

/// The headers and rows of the CSV text `content` (see `parse_csv`).
pub fn parse_csv_text(content: &str) -> (r: Result<(Vec<String>, Vec<StringMap>), FeederError>)
    ensures
        match parse_csv(content@) {
            Ok((h, rows)) => r matches Ok((hv, v)) && hv@.map_values(|f: String| f@) == h
                && rows_view(v@) == rows,
            Err(e) => r == Err::<(Vec<String>, Vec<StringMap>), FeederError>(e),
        },
{
    let s = chars_of(content);
    if s.len() == 0 {
        return Err(FeederError::CsvMissingHeaders);
    }
    let (end, next) = line_bounds(s.as_slice(), 0);
    proof {
        lemma_nl_from(s@, 0);
        if nl_from(s@, 0) >= s.len() {
            assert(csv_rows_from(s@, nl_from(s@, 0) + 1, Seq::empty()) == csv_rows_from(
                s@,
                next as int,
                Seq::empty(),
            ));
        }
    }
    let headers = split_fields(s.as_slice(), 0, end);
    if headers.len() == 0 {
        return Err(FeederError::CsvNoHeaders);
    }
    let data = csv_rows(s.as_slice(), next, &headers)?;
    if data.len() == 0 {
        return Err(FeederError::CsvNoDataRows);
    }
    Ok((headers, data))
}

/// A random feeder hands out the very row the random choice picked, and
/// leaves its cursor where it was; the other strategies do not consult the
/// choice at all.
pub proof fn law_random_row_is_the_choice(
    data: Seq<Map<Seq<char>, Seq<char>>>,
    cursor: nat,
    chosen: Map<Seq<char>, Seq<char>>,
    other: Option<Map<Seq<char>, Seq<char>>>,
    strategy: FeederStrategy,
)
    requires
        data.len() > 0,
    ensures
        picked_row(data, FeederStrategy::Random, cursor, Some(chosen)) == (Some(chosen), cursor),
        forall|i: int|
            0 <= i < data.len() ==> #[trigger] picked_row(
                data,
                FeederStrategy::Random,
                cursor,
                Some(data[i]),
            ).0 == Some(data[i]),
        strategy != FeederStrategy::Random ==> picked_row(data, strategy, cursor, Some(chosen))
            == picked_row(data, strategy, cursor, other),
{
}

/// Feeder over rows read from a CSV file.
pub struct CsvFeeder {
    pub data: Vec<DataRow>,
    pub strategy: FeederStrategy,
    pub cursor: usize,
    pub headers: Vec<String>,
}

impl CsvFeeder {
    /// The file path and strategy of a CSV feeder configuration.
    pub fn source(config: &FeederConfig) -> (r: Result<(String, FeederStrategy), FeederError>)
        ensures
            match *config {
                FeederConfig::Csv { path, strategy, .. } => r matches Ok((p, st)) && p@ == path@
                    && st == strategy,
                _ => r == Err::<(String, FeederStrategy), FeederError>(
                    FeederError::WrongConfig(FeederKind::Csv),
                ),
            },
    {
        match config {
            FeederConfig::Csv { path, strategy, .. } => Ok((path.clone(), *strategy)),
            _ => Err(FeederError::WrongConfig(FeederKind::Csv)),
        }
    }

    /// A feeder over the CSV text `content`, with its cursor on the first row.
    pub fn from_csv_text(content: &str, strategy: FeederStrategy) -> (r: Result<
        CsvFeeder,
        FeederError,
    >)
        ensures
            match parse_csv(content@) {
                Ok((h, rows)) => r matches Ok(f) && f.headers@.map_values(|x: String| x@) == h
                    && rows_view(f.data@) == rows && f.strategy == strategy && f.cursor == 0,
                Err(e) => r == Err::<CsvFeeder, FeederError>(e),
            },
    {
        let (headers, data) = parse_csv_text(content)?;
        Ok(CsvFeeder { data, strategy, cursor: 0, headers })
    }
}

impl Feeder for CsvFeeder {
    fn next_row(&mut self) -> (r: Option<DataRow>)
        ensures
            row_step(
                rows_view(old(self).data@),
                old(self).strategy,
                old(self).cursor as nat,
                final(self).cursor as nat,
                match r {
                    Some(m) => Some(m@),
                    None => None,
                },
            ),
            final(self).data@ == old(self).data@,
            final(self).strategy == old(self).strategy,
            final(self).headers@ == old(self).headers@,
    {
        let chosen = if self.strategy == FeederStrategy::Random {
            choose_row(self.data.as_slice())
        } else {
            None
        };
        let (row, next) = pick_row(&self.data, self.strategy, self.cursor, chosen);
        self.cursor = next;
        row
    }

    fn get_headers(&self) -> (r: Vec<String>)
        ensures
            r@ == self.headers@,
    {
        self.headers.clone()
    }

    fn reset(&mut self)
        ensures
            final(self).cursor == 0,
            final(self).data@ == old(self).data@,
            final(self).strategy == old(self).strategy,
            final(self).headers@ == old(self).headers@,
    {
        self.cursor = 0;
    }
}

/// Feeder over rows from a SQL query.
pub struct JdbcFeeder {
    pub data: Vec<DataRow>,
    pub strategy: FeederStrategy,
    pub cursor: usize,
    pub headers: Vec<String>,
}

impl JdbcFeeder {
    /// Loads the feeder of a JDBC configuration: the data source is not
    /// connected yet, so this always fails.
    pub fn load(config: &FeederConfig) -> (r: Result<JdbcFeeder, FeederError>)
        ensures
            r == Err::<JdbcFeeder, FeederError>(
                if config is Jdbc {
                    FeederError::NotImplemented(FeederKind::Jdbc)
                } else {
                    FeederError::WrongConfig(FeederKind::Jdbc)
                },
            ),
    {
        match config {
            FeederConfig::Jdbc { .. } => Err(FeederError::NotImplemented(FeederKind::Jdbc)),
            _ => Err(FeederError::WrongConfig(FeederKind::Jdbc)),
        }
    }
}

impl Feeder for JdbcFeeder {
    fn next_row(&mut self) -> (r: Option<DataRow>)
        ensures
            row_step(
                rows_view(old(self).data@),
                old(self).strategy,
                old(self).cursor as nat,
                final(self).cursor as nat,
                match r {
                    Some(m) => Some(m@),
                    None => None,
                },
            ),
            final(self).data@ == old(self).data@,
            final(self).strategy == old(self).strategy,
            final(self).headers@ == old(self).headers@,
    {
        let chosen = if self.strategy == FeederStrategy::Random {
            choose_row(self.data.as_slice())
        } else {
            None
        };
        let (row, next) = pick_row(&self.data, self.strategy, self.cursor, chosen);
        self.cursor = next;
        row
    }

    fn get_headers(&self) -> (r: Vec<String>)
        ensures
            r@ == self.headers@,
    {
        self.headers.clone()
    }

    fn reset(&mut self)
        ensures
            final(self).cursor == 0,
            final(self).data@ == old(self).data@,
            final(self).strategy == old(self).strategy,
            final(self).headers@ == old(self).headers@,
    {
        self.cursor = 0;
    }
}

/// Feeder over rows from Redis keys matching a pattern.
pub struct RedisFeeder {
    pub data: Vec<DataRow>,
    pub strategy: FeederStrategy,
    pub cursor: usize,
    pub headers: Vec<String>,
}

impl RedisFeeder {
    /// Loads the feeder of a Redis configuration: the data source is not
    /// connected yet, so this always fails.
    pub fn load(config: &FeederConfig) -> (r: Result<RedisFeeder, FeederError>)
        ensures
            r == Err::<RedisFeeder, FeederError>(
                if config is Redis {
                    FeederError::NotImplemented(FeederKind::Redis)
                } else {
                    FeederError::WrongConfig(FeederKind::Redis)
                },
            ),
    {
        match config {
            FeederConfig::Redis { .. } => Err(FeederError::NotImplemented(FeederKind::Redis)),
            _ => Err(FeederError::WrongConfig(FeederKind::Redis)),
        }
    }
}

impl Feeder for RedisFeeder {
    fn next_row(&mut self) -> (r: Option<DataRow>)
        ensures
            row_step(
                rows_view(old(self).data@),
                old(self).strategy,
                old(self).cursor as nat,
                final(self).cursor as nat,
                match r {
                    Some(m) => Some(m@),
                    None => None,
                },
            ),
            final(self).data@ == old(self).data@,
            final(self).strategy == old(self).strategy,
            final(self).headers@ == old(self).headers@,
    {
        let chosen = if self.strategy == FeederStrategy::Random {
            choose_row(self.data.as_slice())
        } else {
            None
        };
        let (row, next) = pick_row(&self.data, self.strategy, self.cursor, chosen);
        self.cursor = next;
        row
    }

    fn get_headers(&self) -> (r: Vec<String>)
        ensures
            r@ == self.headers@,
    {
        self.headers.clone()
    }

    fn reset(&mut self)
        ensures
            final(self).cursor == 0,
            final(self).data@ == old(self).data@,
            final(self).strategy == old(self).strategy,
            final(self).headers@ == old(self).headers@,
    {
        self.cursor = 0;
    }
}

/// Feeder over rows from messages of a Kafka topic.
pub struct KafkaFeeder {
    pub data: Vec<DataRow>,
    pub strategy: FeederStrategy,
    pub cursor: usize,
    pub headers: Vec<String>,
}

impl KafkaFeeder {
    /// Loads the feeder of a Kafka configuration: the data source is not
    /// connected yet, so this always fails.
    pub fn load(config: &FeederConfig) -> (r: Result<KafkaFeeder, FeederError>)
        ensures
            r == Err::<KafkaFeeder, FeederError>(
                if config is Kafka {
                    FeederError::NotImplemented(FeederKind::Kafka)
                } else {
                    FeederError::WrongConfig(FeederKind::Kafka)
                },
            ),
    {
        match config {
            FeederConfig::Kafka { .. } => Err(FeederError::NotImplemented(FeederKind::Kafka)),
            _ => Err(FeederError::WrongConfig(FeederKind::Kafka)),
        }
    }
}

impl Feeder for KafkaFeeder {
    fn next_row(&mut self) -> (r: Option<DataRow>)
        ensures
            row_step(
                rows_view(old(self).data@),
                old(self).strategy,
                old(self).cursor as nat,
                final(self).cursor as nat,
                match r {
                    Some(m) => Some(m@),
                    None => None,
                },
            ),
            final(self).data@ == old(self).data@,
            final(self).strategy == old(self).strategy,
            final(self).headers@ == old(self).headers@,
    {
        let chosen = if self.strategy == FeederStrategy::Random {
            choose_row(self.data.as_slice())
        } else {
            None
        };
        let (row, next) = pick_row(&self.data, self.strategy, self.cursor, chosen);
        self.cursor = next;
        row
    }

    fn get_headers(&self) -> (r: Vec<String>)
        ensures
            r@ == self.headers@,
    {
        self.headers.clone()
    }

    fn reset(&mut self)
        ensures
            final(self).cursor == 0,
            final(self).data@ == old(self).data@,
            final(self).strategy == old(self).strategy,
            final(self).headers@ == old(self).headers@,
    {
        self.cursor = 0;
    }
}

} // verus!
