//! The live dashboard's request handling: reading the request line and its
//! query parameters, choosing the endpoint, building query filters and the
//! HTTP response text.
use vstd::prelude::*;
use vstd::utf8::encode_utf8;
use crate::text::{
    chars_of,
    string_of,
    owned,
    str_eq,
    lossy_text,
    utf8_lossy,
    decimal,
    digit_char,
    u64_to_decimal,
    append_char,
    is_white_space,
    char_is_white_space,
};

verus! {

/// The value of a hexadecimal digit byte; 0 for any other byte.
pub open spec fn hex_digit(b: u8) -> u8 {
    if 48 <= b <= 57 {
        (b - 48) as u8
    } else if 97 <= b <= 102 {
        (10 + (b - 97)) as u8
    } else if 65 <= b <= 70 {
        (10 + (b - 65)) as u8
    } else {
        0
    }
}

/// The value of a hexadecimal digit byte (`0-9`, `a-f`, `A-F`); 0 for any
/// other byte.
pub fn hex_val(b: u8) -> (r: u8)
    ensures
        r == hex_digit(b),
        r < 16,
{
    if b >= 48 && b <= 57 {
        b - 48
    } else if b >= 97 && b <= 102 {
        10 + (b - 97)
    } else if b >= 65 && b <= 70 {
        10 + (b - 65)
    } else {
        0
    }
}

/// Query-string decoding of bytes: `+` is a space, `%` followed by two
/// more bytes is the byte of those two hexadecimal digits (a non-digit
/// counts as 0), every other byte stays.
pub open spec fn url_decoded(b: Seq<u8>) -> Seq<u8>
    decreases b.len(),
{
    if b.len() == 0 {
        Seq::empty()
    } else if b[0] == 43 {
        seq![32u8] + url_decoded(b.skip(1))
    } else if b[0] == 37 && 2 < b.len() {
        seq![(hex_digit(b[1]) * 16 + hex_digit(b[2])) as u8] + url_decoded(b.skip(3))
    } else {
        seq![b[0]] + url_decoded(b.skip(1))
    }
}

/// Bytes that query-string decoding leaves as they are.
pub open spec fn plain_bytes(b: Seq<u8>) -> bool {
    forall|i: int| 0 <= i < b.len() ==> b[i] != 37 && b[i] != 43
}

proof fn lemma_decoded_plain_prefix(a: Seq<u8>, b: Seq<u8>)
    requires
        plain_bytes(a),
    ensures
        url_decoded(a + b) == a + url_decoded(b),
    decreases a.len(),
{
    if a.len() > 0 {
        let t = a.skip(1);
        assert((a + b).skip(1) =~= t + b);
        assert((a + b)[0] == a[0]);
        lemma_decoded_plain_prefix(t, b);
        assert(seq![a[0]] + (t + url_decoded(b)) =~= a + url_decoded(b));
    } else {
        assert(a + b =~= b);
        assert(a + url_decoded(b) =~= url_decoded(b));
    }
}

proof fn lemma_scalar_plain(c: char)
    requires
        c != '%',
        c != '+',
    ensures
        plain_bytes(vstd::utf8::encode_scalar(c as u32)),
{
    let v = c as u32;
    assert(v != 37 && v != 43);
    if vstd::utf8::has_width_1_encoding(v) {
        assert((v & 0x7F) as u8 == v as u8) by (bit_vector)
            requires
                v <= 0x7F,
        ;
    } else {
        assert(0x80 | (v & 0x3F) as u8 >= 0x80) by (bit_vector);
        assert(0x80 | ((v >> 6) & 0x3F) as u8 >= 0x80) by (bit_vector);
        assert(0x80 | ((v >> 12) & 0x3F) as u8 >= 0x80) by (bit_vector);
        assert(0xC0 | ((v >> 6) & 0x1F) as u8 >= 0x80) by (bit_vector);
        assert(0xE0 | ((v >> 12) & 0x0F) as u8 >= 0x80) by (bit_vector);
        assert(0xF0 | ((v >> 18) & 0x7) as u8 >= 0x80) by (bit_vector);
    }
}

proof fn lemma_decoded_plain_text(s: Seq<char>)
    requires
        forall|i: int| 0 <= i < s.len() ==> s[i] != '%' && s[i] != '+',
    ensures
        url_decoded(encode_utf8(s)) == encode_utf8(s),
    decreases s.len(),
{
    if s.len() == 0 {
        assert(url_decoded(Seq::<u8>::empty()) == Seq::<u8>::empty());
    } else {
        let rest = s.drop_first();
        assert forall|i: int| 0 <= i < rest.len() implies rest[i] != '%' && rest[i] != '+' by {
            assert(rest[i] == s[i + 1]);
        }
        lemma_decoded_plain_text(rest);
        lemma_scalar_plain(s[0]);
        lemma_decoded_plain_prefix(vstd::utf8::encode_scalar(s[0] as u32), encode_utf8(rest));
    }
}

/// Decodes a query-string value (see `url_decoded`); the bytes are then
/// read as UTF-8, invalid sequences replaced.
pub fn url_decode(s: &str) -> (r: String)
    ensures
        r@ == lossy_text(url_decoded(encode_utf8(s@))),
        (forall|i: int| 0 <= i < s@.len() ==> s@[i] != '%' && s@[i] != '+') ==> r@ == s@,
        vstd::utf8::valid_utf8(url_decoded(encode_utf8(s@))) ==> r@ == vstd::utf8::decode_utf8(
            url_decoded(encode_utf8(s@)),
        ) && encode_utf8(r@) == url_decoded(encode_utf8(s@)),
{
    let bytes = s.as_bytes();
    let n = bytes.len();
    let mut out: Vec<u8> = Vec::new();
    let mut i: usize = 0;
    assert(bytes@.skip(0) =~= bytes@);
    assert(out@ + url_decoded(bytes@) =~= url_decoded(bytes@));
    while i < n
        invariant
            n == bytes@.len(),
            i <= n,
            out@ + url_decoded(bytes@.skip(i as int)) == url_decoded(bytes@),
        decreases n - i,
    {
        let ghost rest = bytes@.skip(i as int);
        let ghost before = out@;
        if bytes[i] == 43 {
            out.push(32);
            proof {
                assert(rest.skip(1) =~= bytes@.skip(i + 1));
                assert(out@ + url_decoded(bytes@.skip(i + 1)) =~= before + url_decoded(rest));
            }
            i += 1;
        } else if bytes[i] == 37 && n - i > 2 {
            let v = hex_val(bytes[i + 1]) * 16 + hex_val(bytes[i + 2]);
            out.push(v);
            proof {
                assert(rest.skip(3) =~= bytes@.skip(i + 3));
                assert(out@ + url_decoded(bytes@.skip(i + 3)) =~= before + url_decoded(rest));
            }
            i += 3;
        } else {
            out.push(bytes[i]);
            proof {
                assert(rest.skip(1) =~= bytes@.skip(i + 1));
                assert(out@ + url_decoded(bytes@.skip(i + 1)) =~= before + url_decoded(rest));
            }
            i += 1;
        }
    }
    proof {
        assert(bytes@.skip(n as int) =~= Seq::<u8>::empty());
        assert(out@ =~= url_decoded(bytes@));
        if forall|i: int| 0 <= i < s@.len() ==> s@[i] != '%' && s@[i] != '+' {
            lemma_decoded_plain_text(s@);
            vstd::utf8::encode_utf8_valid_utf8(s@);
            vstd::utf8::encode_utf8_decode_utf8(s@);
        }
        if vstd::utf8::valid_utf8(out@) {
            vstd::utf8::decode_utf8_encode_utf8(out@);
        }
    }
    utf8_lossy(out.as_slice())
}

/// `s` with each `'` doubled (an SQL string literal's body).
pub open spec fn sql_escaped(s: Seq<char>) -> Seq<char>
    decreases s.len(),
{
    if s.len() == 0 {
        Seq::empty()
    } else if s.last() == '\'' {
        sql_escaped(s.drop_last()) + seq!['\'', '\'']
    } else {
        sql_escaped(s.drop_last()).push(s.last())
    }
}

proof fn lemma_escape_without_quotes(a: Seq<char>)
    requires
        forall|i: int| 0 <= i < a.len() ==> a[i] != '\'',
    ensures
        sql_escaped(a) == a,
    decreases a.len(),
{
    if a.len() > 0 {
        lemma_escape_without_quotes(a.drop_last());
        assert(a.drop_last().push(a.last()) =~= a);
    }
}

/// Escaping doubles each quote and changes nothing else: a text without
/// quotes stays as it is, a quote becomes two quotes, and a text is
/// escaped part by part.
pub proof fn law_sql_escape_doubles_quotes(a: Seq<char>, b: Seq<char>)
    ensures
        sql_escaped(a + b) == sql_escaped(a) + sql_escaped(b),
        sql_escaped(seq!['\'']) == seq!['\'', '\''],
        (forall|i: int| 0 <= i < a.len() ==> a[i] != '\'') ==> sql_escaped(a) == a,
    decreases b.len(),
{
    if forall|i: int| 0 <= i < a.len() ==> a[i] != '\'' {
        lemma_escape_without_quotes(a);
    }
    assert(seq!['\''].drop_last() =~= Seq::<char>::empty());
    assert(seq!['\''].last() == '\'');
    assert(sql_escaped(Seq::<char>::empty()) == Seq::<char>::empty());
    assert(Seq::<char>::empty() + seq!['\'', '\''] =~= seq!['\'', '\'']);
    if b.len() == 0 {
        assert(a + b =~= a);
        assert(sql_escaped(a) + sql_escaped(b) =~= sql_escaped(a));
    } else {
        law_sql_escape_doubles_quotes(a, b.drop_last());
        assert((a + b).drop_last() =~= a + b.drop_last());
        assert((a + b).last() == b.last());
        if b.last() == '\'' {
            assert(sql_escaped(a) + sql_escaped(b) =~= sql_escaped(a) + sql_escaped(b.drop_last())
                + seq!['\'', '\'']);
        } else {
            assert(sql_escaped(a) + sql_escaped(b) =~= (sql_escaped(a) + sql_escaped(
                b.drop_last(),
            )).push(b.last()));
        }
    }
}

fn escape_sql(s: &str) -> (r: String)
    ensures
        r@ == sql_escaped(s@),
{
    let cs = chars_of(s);
    let mut out = String::new();
    let mut i: usize = 0;
    while i < cs.len()
        invariant
            cs@ == s@,
            i <= cs.len(),
            out@ == sql_escaped(cs@.take(i as int)),
        decreases cs.len() - i,
    {
        let c = cs[i];
        if c == '\'' {
            append_char(&mut out, '\'');
            append_char(&mut out, '\'');
        } else {
            append_char(&mut out, c);
        }
        proof {
            assert(cs@.take(i + 1).drop_last() =~= cs@.take(i as int));
            assert(out@ =~= sql_escaped(cs@.take(i + 1)));
        }
        i += 1;
    }
    assert(cs@.take(cs.len() as int) =~= cs@);
    out
}

/// The SQL condition selecting request records, optionally of one scenario
/// and one request name.
pub open spec fn request_filter(scenario: Option<Seq<char>>, request_name: Option<Seq<char>>) -> Seq<
    char,
> {
    let base = "record_type = 'request'"@;
    let with_scenario = match scenario {
        Some(s) => base + " AND scenario = '"@ + sql_escaped(s) + "'"@,
        None => base,
    };
    match request_name {
        Some(r) => with_scenario + " AND request_name = '"@ + sql_escaped(r) + "'"@,
        None => with_scenario,
    }
}

/// The text view of an optional text.
pub open spec fn opt_view(o: Option<String>) -> Option<Seq<char>> {
    match o {
        Some(s) => Some(s@),
        None => None,
    }
}

/// Builds the SQL condition for request records (quotes in the values are
/// doubled).
pub fn build_request_filter(scenario: &Option<String>, request_name: &Option<String>) -> (r:
    String)
    ensures
        r@ == request_filter(opt_view(*scenario), opt_view(*request_name)),
{
    let mut out = owned("record_type = 'request'");
    match scenario {
        Some(s) => {
            out.append(" AND scenario = '");
            out.append(escape_sql(s.as_str()).as_str());
            out.append("'");
        },
        None => {},
    }
    match request_name {
        Some(r) => {
            out.append(" AND request_name = '");
            out.append(escape_sql(r.as_str()).as_str());
            out.append("'");
        },
        None => {},
    }
    out
}

/// The SQL condition for user-state records, of one scenario when one is
/// given (quotes doubled).
pub open spec fn vu_filter(scenario: Option<Seq<char>>) -> Seq<char> {
    match scenario {
        Some(s) => "record_type = 'vu_state'"@ + " AND scenario = '"@ + sql_escaped(s) + "'"@,
        None => "record_type = 'vu_state'"@,
    }
}

/// Builds the SQL condition for user-state records (see `vu_filter`).
pub fn build_vu_filter(scenario: &Option<String>) -> (r: String)
    ensures
        r@ == vu_filter(opt_view(*scenario)),
{
    let mut out = owned("record_type = 'vu_state'");
    match scenario {
        Some(s) => {
            out.append(" AND scenario = '");
            out.append(escape_sql(s.as_str()).as_str());
            out.append("'");
        },
        None => {},
    }
    out
}

/// The decimal notation of an integer, with `-` before a negative one.
pub open spec fn int_text(n: int) -> Seq<char> {
    if n < 0 {
        "-"@ + decimal((-n) as nat)
    } else {
        decimal(n as nat)
    }
}

fn i64_text(n: i64) -> (r: String)
    ensures
        r@ == int_text(n as int),
{
    if n < 0 {
        let m: u64 = if n == i64::MIN {
            9223372036854775808
        } else {
            (-n) as u64
        };
        let mut out = owned("-");
        out.append(u64_to_decimal(m).as_str());
        out
    } else {
        u64_to_decimal(n as u64)
    }
}

/// The segment files of a directory, as a DuckDB table.
pub open spec fn parquet_source(dir: Seq<char>) -> Seq<char> {
    "read_parquet('"@ + dir + "/*.parquet')"@
}

/// The per-second series the dashboard draws.
#[derive(Debug, Clone, Copy, PartialEq, Eq, Structural)]
pub enum SeriesQuery {
    /// Requests per second.
    Rps,
    /// Successes and failures per second.
    ResponsesByStatus,
    /// Errors per second.
    ErrorsPerSec,
    /// Bytes sent and received per second.
    Bandwidth,
    /// Users started and ended per second.
    Vus,
}

/// What a series counts in each second.
pub open spec fn series_columns(kind: SeriesQuery) -> Seq<char> {
    match kind {
        SeriesQuery::Rps => "COUNT(*) AS rps"@,
        SeriesQuery::ResponsesByStatus => "SUM(CASE WHEN status = 'success' THEN 1 ELSE 0 END) as success, SUM(CASE WHEN status = 'error' THEN 1 ELSE 0 END) as fail"@,
        SeriesQuery::ErrorsPerSec => "COUNT(*) as errors"@,
        SeriesQuery::Bandwidth => "SUM(bytes_sent) as bytes_sent, SUM(bytes_received) as bytes_received"@,
        SeriesQuery::Vus => "SUM(CASE WHEN vu_state = 'started' THEN 1 ELSE 0 END) AS arrivals, SUM(CASE WHEN vu_state IN ('completed', 'failed') THEN 1 ELSE 0 END) AS terminations"@,
    }
}

/// The records a series counts: those of the condition, errors only for
/// the error series.
pub open spec fn series_condition(kind: SeriesQuery, filter: Seq<char>) -> Seq<char> {
    match kind {
        SeriesQuery::ErrorsPerSec => filter + " AND status = 'error'"@,
        _ => filter,
    }
}

/// SQL: the number of records of a group for which `condition` holds.
pub open spec fn count_of(condition: Seq<char>) -> Seq<char> {
    "SUM(CASE WHEN "@ + condition + " THEN 1 ELSE 0 END)"@
}

/// SQL: `column` holds the text `value`.
pub open spec fn column_is(column: Seq<char>, value: Seq<char>) -> Seq<char> {
    column + " = '"@ + value + "'"@
}

/// SQL: the sum of `column` over a group.
pub open spec fn sum_of(column: Seq<char>) -> Seq<char> {
    "SUM("@ + column + ")"@
}

/// What each series counts per second: the column `success` counts the
/// records whose status is `success` and the column `fail` those whose
/// status is `error`; `arrivals` counts users that started and
/// `terminations` those that completed or failed; the bandwidth sums the
/// bytes sent and the bytes received under their own names; the error
/// series counts the records of the condition whose status is `error`; the
/// request rate counts every record of the condition.
pub proof fn law_series_count_what_they_name(filter: Seq<char>)
    ensures
        series_columns(SeriesQuery::ResponsesByStatus) == count_of(column_is("status"@, "success"@))
            + " as success, "@ + count_of(column_is("status"@, "error"@)) + " as fail"@,
        series_columns(SeriesQuery::Vus) == count_of(column_is("vu_state"@, "started"@))
            + " AS arrivals, "@ + count_of("vu_state IN ('completed', 'failed')"@)
            + " AS terminations"@,
        series_columns(SeriesQuery::Bandwidth) == sum_of("bytes_sent"@) + " as bytes_sent, "@
            + sum_of("bytes_received"@) + " as bytes_received"@,
        series_columns(SeriesQuery::ErrorsPerSec) == "COUNT(*) as errors"@,
        series_condition(SeriesQuery::ErrorsPerSec, filter) == filter + " AND "@ + column_is(
            "status"@,
            "error"@,
        ),
        series_columns(SeriesQuery::Rps) == "COUNT(*) AS rps"@,
        series_condition(SeriesQuery::Rps, filter) == filter,
        series_condition(SeriesQuery::ResponsesByStatus, filter) == filter,
        series_condition(SeriesQuery::Bandwidth, filter) == filter,
        series_condition(SeriesQuery::Vus, filter) == filter,
{
    reveal_strlit("SUM(CASE WHEN status = 'success' THEN 1 ELSE 0 END) as success, SUM(CASE WHEN status = 'error' THEN 1 ELSE 0 END) as fail");
    reveal_strlit("SUM(CASE WHEN vu_state = 'started' THEN 1 ELSE 0 END) AS arrivals, SUM(CASE WHEN vu_state IN ('completed', 'failed') THEN 1 ELSE 0 END) AS terminations");
    reveal_strlit("SUM(bytes_sent) as bytes_sent, SUM(bytes_received) as bytes_received");
    reveal_strlit(" AND status = 'error'");
    reveal_strlit("SUM(CASE WHEN ");
    reveal_strlit(" THEN 1 ELSE 0 END)");
    reveal_strlit(" = '");
    reveal_strlit("'");
    reveal_strlit("SUM(");
    reveal_strlit(")");
    reveal_strlit("status");
    reveal_strlit("success");
    reveal_strlit("error");
    reveal_strlit("vu_state");
    reveal_strlit("started");
    reveal_strlit("vu_state IN ('completed', 'failed')");
    reveal_strlit(" as success, ");
    reveal_strlit(" as fail");
    reveal_strlit(" AS arrivals, ");
    reveal_strlit(" AS terminations");
    reveal_strlit("bytes_sent");
    reveal_strlit("bytes_received");
    reveal_strlit(" as bytes_sent, ");
    reveal_strlit(" as bytes_received");
    reveal_strlit(" AND ");
    assert(series_columns(SeriesQuery::ResponsesByStatus) =~= count_of(
        column_is("status"@, "success"@),
    ) + " as success, "@ + count_of(column_is("status"@, "error"@)) + " as fail"@);
    assert(series_columns(SeriesQuery::Vus) =~= count_of(column_is("vu_state"@, "started"@))
        + " AS arrivals, "@ + count_of("vu_state IN ('completed', 'failed')"@)
        + " AS terminations"@);
    assert(series_columns(SeriesQuery::Bandwidth) =~= sum_of("bytes_sent"@) + " as bytes_sent, "@
        + sum_of("bytes_received"@) + " as bytes_received"@);
    assert(series_condition(SeriesQuery::ErrorsPerSec, filter) =~= filter + " AND "@ + column_is(
        "status"@,
        "error"@,
    ));
}

/// The SQL of a per-second series over the segment files of `dir`.
pub open spec fn series_sql(kind: SeriesQuery, dir: Seq<char>, filter: Seq<char>) -> Seq<char> {
    "SELECT CAST((timestamp_ms / 1000) AS VARCHAR) AS ts, "@ + series_columns(kind) + " FROM "@
        + parquet_source(dir) + " WHERE "@ + series_condition(kind, filter)
        + " GROUP BY (timestamp_ms / 1000) ORDER BY (timestamp_ms / 1000)"@
}

fn series_columns_text(kind: SeriesQuery) -> (r: &'static str)
    ensures
        r@ == series_columns(kind),
{
    match kind {
        SeriesQuery::Rps => "COUNT(*) AS rps",
        SeriesQuery::ResponsesByStatus => "SUM(CASE WHEN status = 'success' THEN 1 ELSE 0 END) as success, SUM(CASE WHEN status = 'error' THEN 1 ELSE 0 END) as fail",
        SeriesQuery::ErrorsPerSec => "COUNT(*) as errors",
        SeriesQuery::Bandwidth => "SUM(bytes_sent) as bytes_sent, SUM(bytes_received) as bytes_received",
        SeriesQuery::Vus => "SUM(CASE WHEN vu_state = 'started' THEN 1 ELSE 0 END) AS arrivals, SUM(CASE WHEN vu_state IN ('completed', 'failed') THEN 1 ELSE 0 END) AS terminations",
    }
}

/// Builds the SQL of a per-second series (see `series_sql`).
pub fn build_series_sql(kind: SeriesQuery, dir: &str, filter: &str) -> (r: String)
    ensures
        r@ == series_sql(kind, dir@, filter@),
{
    let mut out = owned("SELECT CAST((timestamp_ms / 1000) AS VARCHAR) AS ts, ");
    out.append(series_columns_text(kind));
    let ghost head = out@;
    out.append(" FROM ");
    out.append("read_parquet('");
    out.append(dir);
    out.append("/*.parquet')");
    out.append(" WHERE ");
    let ghost middle = out@;
    out.append(filter);
    match kind {
        SeriesQuery::ErrorsPerSec => out.append(" AND status = 'error'"),
        _ => {},
    }
    let ghost condition = out@.skip(middle.len() as int);
    assert(condition =~= series_condition(kind, filter@));
    out.append(" GROUP BY (timestamp_ms / 1000) ORDER BY (timestamp_ms / 1000)");
    assert(out@ =~= series_sql(kind, dir@, filter@));
    out
}

/// The percentiles over a recent window that the dashboard shows.
#[derive(Debug, Clone, Copy, PartialEq, Eq, Structural)]
pub enum WindowQuery {
    /// Response-time percentiles (50, 90, 95, 99).
    Latency,
    /// Time-to-first-byte, DNS, TCP and TLS percentiles (50, 95, 99 each).
    Timing,
}

/// The continuous quantile `p` of the values of `column` that are set.
pub open spec fn quantile(column: Seq<char>, p: Seq<char>) -> Seq<char> {
    "quantile_cont("@ + column + ", "@ + p + ") FILTER (WHERE "@ + column + " IS NOT NULL)"@
}

/// Quantiles 50, 95 and 99 of a column.
pub open spec fn three_quantiles(column: Seq<char>) -> Seq<char> {
    quantile(column, "0.50"@) + ", "@ + quantile(column, "0.95"@) + ", "@ + quantile(column, "0.99"@)
}

/// The columns of a window query.
pub open spec fn window_columns(kind: WindowQuery) -> Seq<char> {
    match kind {
        WindowQuery::Latency => quantile("response_time_ms"@, "0.50"@) + ", "@ + quantile(
            "response_time_ms"@,
            "0.90"@,
        ) + ", "@ + quantile("response_time_ms"@, "0.95"@) + ", "@ + quantile(
            "response_time_ms"@,
            "0.99"@,
        ),
        WindowQuery::Timing => three_quantiles("ttfb_ms"@) + ", "@ + three_quantiles(
            "dns_lookup_ms"@,
        ) + ", "@ + three_quantiles("tcp_connect_ms"@) + ", "@ + three_quantiles(
            "tls_handshake_ms"@,
        ),
    }
}

/// The SQL of a window query over the segment files of `dir`: the records
/// of the condition at or after `cutoff_ms`.
pub open spec fn window_sql(kind: WindowQuery, dir: Seq<char>, filter: Seq<char>, cutoff_ms: int) -> Seq<char> {
    "SELECT "@ + window_columns(kind) + " FROM "@ + parquet_source(dir) + " WHERE "@ + filter
        + " AND timestamp_ms >= "@ + int_text(cutoff_ms)
}

fn push_quantile(out: &mut String, column: &str, p: &str)
    ensures
        final(out)@ == old(out)@ + quantile(column@, p@),
{
    out.append("quantile_cont(");
    out.append(column);
    out.append(", ");
    out.append(p);
    out.append(") FILTER (WHERE ");
    out.append(column);
    out.append(" IS NOT NULL)");
}

fn push_three_quantiles(out: &mut String, column: &str)
    ensures
        final(out)@ == old(out)@ + three_quantiles(column@),
{
    push_quantile(out, column, "0.50");
    out.append(", ");
    push_quantile(out, column, "0.95");
    out.append(", ");
    push_quantile(out, column, "0.99");
}

fn window_columns_text(kind: WindowQuery) -> (r: String)
    ensures
        r@ == window_columns(kind),
{
    let mut out = String::new();
    match kind {
        WindowQuery::Latency => {
            push_quantile(&mut out, "response_time_ms", "0.50");
            out.append(", ");
            push_quantile(&mut out, "response_time_ms", "0.90");
            out.append(", ");
            push_quantile(&mut out, "response_time_ms", "0.95");
            out.append(", ");
            push_quantile(&mut out, "response_time_ms", "0.99");
        },
        WindowQuery::Timing => {
            push_three_quantiles(&mut out, "ttfb_ms");
            out.append(", ");
            push_three_quantiles(&mut out, "dns_lookup_ms");
            out.append(", ");
            push_three_quantiles(&mut out, "tcp_connect_ms");
            out.append(", ");
            push_three_quantiles(&mut out, "tls_handshake_ms");
        },
    }
    assert(out@ =~= window_columns(kind));
    out
}

/// Builds the SQL of a window query (see `window_sql`).
pub fn build_window_sql(kind: WindowQuery, dir: &str, filter: &str, cutoff_ms: i64) -> (r: String)
    ensures
        r@ == window_sql(kind, dir@, filter@, cutoff_ms as int),
{
    let mut out = owned("SELECT ");
    out.append(window_columns_text(kind).as_str());
    out.append(" FROM ");
    out.append("read_parquet('");
    out.append(dir);
    out.append("/*.parquet')");
    out.append(" WHERE ");
    out.append(filter);
    out.append(" AND timestamp_ms >= ");
    out.append(i64_text(cutoff_ms).as_str());
    assert(out@ =~= window_sql(kind, dir@, filter@, cutoff_ms as int));
    out
}

/// The full text of an HTTP response with the dashboard's headers.
pub open spec fn response_text(status: Seq<char>, content_type: Seq<char>, content: Seq<char>) -> Seq<
    char,
> {
    status + "\r\nContent-Type: "@ + content_type + "\r\nContent-Length: "@ + decimal(
        encode_utf8(content).len(),
    ) + "\r\nAccess-Control-Allow-Origin: *\r\nCache-Control: no-cache\r\n\r\n"@ + content
}

/// Builds an HTTP response: status line, content type, length in bytes,
/// open CORS, no caching, then the content.
pub fn build_response(status: &str, content_type: &str, content: &str) -> (r: String)
    ensures
        r@ == response_text(status@, content_type@, content@),
{
    let mut out = owned(status);
    out.append("\r\nContent-Type: ");
    out.append(content_type);
    out.append("\r\nContent-Length: ");
    out.append(u64_to_decimal(content.as_bytes().len() as u64).as_str());
    out.append("\r\nAccess-Control-Allow-Origin: *\r\nCache-Control: no-cache\r\n\r\n");
    out.append(content);
    out
}

/// The first position at or after `i` where `c` occurs in `s`.
pub open spec fn index_of_from(s: Seq<char>, c: char, i: int) -> Option<int>
    decreases s.len() - i,
{
    if i < 0 || i >= s.len() {
        None
    } else if s[i] == c {
        Some(i)
    } else {
        index_of_from(s, c, i + 1)
    }
}

/// The first position where `c` occurs in `s`.
pub open spec fn index_of(s: Seq<char>, c: char) -> Option<int> {
    index_of_from(s, c, 0)
}

/// Where `index_of_from` finds `c`, and that nothing before it is `c`.
pub proof fn lemma_index_of_from(s: Seq<char>, c: char, i: int)
    requires
        0 <= i,
    ensures
        index_of_from(s, c, i) matches Some(k) ==> i <= k < s.len() && s[k] == c && forall|
            j: int,
        | i <= j < k ==> s[j] != c,
        index_of_from(s, c, i) is None ==> forall|j: int| i <= j < s.len() ==> s[j] != c,
    decreases s.len() - i,
{
    if i < s.len() && s[i] != c {
        lemma_index_of_from(s, c, i + 1);
    }
}

/// The first position at or after `from` where `c` occurs in `s`.
fn find_char(s: &[char], c: char, from: usize) -> (r: Option<usize>)
    requires
        from <= s.len(),
    ensures
        match index_of_from(s@, c, from as int) {
            Some(k) => r == Some(k as usize),
            None => r is None,
        },
{
    let mut i = from;
    while i < s.len()
        invariant
            from <= i <= s.len(),
            index_of_from(s@, c, from as int) == index_of_from(s@, c, i as int),
        decreases s.len() - i,
    {
        if s[i] == c {
            return Some(i);
        }
        i += 1;
    }
    None
}

/// The first line of a text, as `str::lines` gives it: up to the first
/// line feed, without the carriage return before it; `None` for an empty
/// text.
pub open spec fn first_line(s: Seq<char>) -> Option<Seq<char>> {
    if s.len() == 0 {
        None
    } else {
        match index_of(s, '\n') {
            Some(k) => {
                let line = s.take(k);
                if line.len() > 0 && line.last() == '\r' {
                    Some(line.drop_last())
                } else {
                    Some(line)
                }
            },
            None => Some(s),
        }
    }
}

/// Number of white-space characters of `s` from `i` on.
pub open spec fn ws_run(s: Seq<char>, i: int) -> nat
    decreases s.len() - i,
{
    if 0 <= i < s.len() && is_white_space(s[i]) {
        1 + ws_run(s, i + 1)
    } else {
        0
    }
}

/// Number of other characters of `s` from `i` on.
pub open spec fn word_run(s: Seq<char>, i: int) -> nat
    decreases s.len() - i,
{
    if 0 <= i < s.len() && !is_white_space(s[i]) {
        1 + word_run(s, i + 1)
    } else {
        0
    }
}

/// The second white-space separated word of `s` (as
/// `split_whitespace().nth(1)`).
pub open spec fn second_word(s: Seq<char>) -> Option<Seq<char>> {
    let a = ws_run(s, 0) as int;
    let t1 = word_run(s, a) as int;
    if t1 == 0 {
        None
    } else {
        let b = a + t1 + ws_run(s, a + t1);
        let t2 = word_run(s, b) as int;
        if t2 == 0 {
            None
        } else {
            Some(s.subrange(b, b + t2))
        }
    }
}

proof fn lemma_ws_run(s: Seq<char>, i: int, m: int)
    requires
        0 <= i,
        0 <= m,
        i + m <= s.len(),
        forall|t: int| i <= t < i + m ==> is_white_space(s[t]),
        i + m == s.len() || !is_white_space(s[i + m]),
    ensures
        ws_run(s, i) == m,
    decreases m,
{
    if m > 0 {
        lemma_ws_run(s, i + 1, m - 1);
    }
}

proof fn lemma_word_run(s: Seq<char>, i: int, m: int)
    requires
        0 <= i,
        0 <= m,
        i + m <= s.len(),
        forall|t: int| i <= t < i + m ==> !is_white_space(s[t]),
        i + m == s.len() || is_white_space(s[i + m]),
    ensures
        word_run(s, i) == m,
    decreases m,
{
    if m > 0 {
        lemma_word_run(s, i + 1, m - 1);
    }
}

fn skip_ws(s: &[char], from: usize) -> (r: usize)
    requires
        from <= s.len(),
    ensures
        r == from + ws_run(s@, from as int),
        r <= s.len(),
{
    let mut i = from;
    while i < s.len() && char_is_white_space(s[i])
        invariant
            from <= i <= s.len(),
            forall|t: int| from <= t < i ==> is_white_space(s@[t]),
        decreases s.len() - i,
    {
        i += 1;
    }
    proof {
        lemma_ws_run(s@, from as int, i - from);
    }
    i
}

fn skip_word(s: &[char], from: usize) -> (r: usize)
    requires
        from <= s.len(),
    ensures
        r == from + word_run(s@, from as int),
        r <= s.len(),
{
    let mut i = from;
    while i < s.len() && !char_is_white_space(s[i])
        invariant
            from <= i <= s.len(),
            forall|t: int| from <= t < i ==> !is_white_space(s@[t]),
        decreases s.len() - i,
    {
        i += 1;
    }
    proof {
        lemma_word_run(s@, from as int, i - from);
    }
    i
}

/// The path asked for in a request: the second word of its first line,
/// `/` when there is none.
pub open spec fn request_target(req: Seq<char>) -> Seq<char> {
    match first_line(req) {
        Some(l) => match second_word(l) {
            Some(w) => w,
            None => "/"@,
        },
        None => "/"@,
    }
}

fn target_of(req: &[char]) -> (r: Vec<char>)
    ensures
        r@ == request_target(req@),
{
    if req.len() == 0 {
        return chars_of("/");
    }
    proof {
        lemma_index_of_from(req@, '\n', 0);
    }
    let end = match find_char(req, '\n', 0) {
        Some(k) => {
            if k > 0 && req[k - 1] == '\r' {
                k - 1
            } else {
                k
            }
        },
        None => req.len(),
    };
    let ghost line = req@.take(end as int);
    proof {
        match index_of(req@, '\n') {
            Some(k) => {
                if k > 0 && req@[k - 1] == '\r' {
                    assert(req@.take(k).drop_last() =~= line);
                } else {
                    assert(req@.take(k) =~= line);
                }
            },
            None => {
                assert(req@.take(req@.len() as int) =~= req@);
            },
        }
        assert(first_line(req@) == Some(line));
    }
    let l = &req[0..end];
    assert(l@ =~= line);
    let a = skip_ws(l, 0);
    let a1 = skip_word(l, a);
    if a1 == a {
        return chars_of("/");
    }
    let b = skip_ws(l, a1);
    let b1 = skip_word(l, b);
    if b1 == b {
        return chars_of("/");
    }
    let mut w: Vec<char> = Vec::new();
    let mut i = b;
    while i < b1
        invariant
            b <= i <= b1 <= l@.len(),
            w@ == l@.subrange(b as int, i as int),
        decreases b1 - i,
    {
        w.push(l[i]);
        assert(l@.subrange(b as int, i + 1) =~= l@.subrange(b as int, i as int).push(l@[i as int]));
        i += 1;
    }
    w
}

/// A decimal digit character.
pub open spec fn is_digit_char(c: char) -> bool {
    '0' <= c && c <= '9'
}

/// Every character is a decimal digit.
pub open spec fn all_digits(d: Seq<char>) -> bool {
    forall|i: int| 0 <= i < d.len() ==> is_digit_char(#[trigger] d[i])
}

/// The number written by decimal digits.
pub open spec fn digits_num(d: Seq<char>) -> nat
    decreases d.len(),
{
    if d.len() == 0 {
        0
    } else {
        (digits_num(d.drop_last()) * 10 + (d.last() as int - 48)) as nat
    }
}

/// The integer written by `s` as `str::parse::<i64>` reads it: an optional
/// `+` or `-`, then one or more decimal digits; `None` for anything else.
pub open spec fn int_literal(s: Seq<char>) -> Option<int> {
    if s.len() == 0 {
        None
    } else if s[0] == '-' || s[0] == '+' {
        let d = s.skip(1);
        if d.len() > 0 && all_digits(d) {
            Some(
                if s[0] == '-' {
                    -digits_num(d)
                } else {
                    digits_num(d) as int
                },
            )
        } else {
            None
        }
    } else if all_digits(s) {
        Some(digits_num(s) as int)
    } else {
        None
    }
}

/// What `str::parse::<i64>` accepts: a literal whose value fits in `i64`.
pub open spec fn i64_literal(s: Seq<char>) -> Option<int> {
    match int_literal(s) {
        Some(n) => if i64::MIN <= n <= i64::MAX {
            Some(n)
        } else {
            None
        },
        None => None,
    }
}

pub(crate) proof fn lemma_digits_prefix(d: Seq<char>, j: int)
    requires
        0 <= j <= d.len(),
        all_digits(d),
    ensures
        digits_num(d.take(j)) <= digits_num(d),
    decreases d.len() - j,
{
    if j < d.len() {
        lemma_digits_prefix(d, j + 1);
        assert(d.take(j + 1).drop_last() =~= d.take(j));
        assert(is_digit_char(d[j]));
    } else {
        assert(d.take(j) =~= d);
    }
}

/// Parses a decimal `i64` as `str::parse::<i64>` does.
pub fn parse_i64(s: &[char]) -> (r: Option<i64>)
    ensures
        match i64_literal(s@) {
            Some(n) => r == Some(n as i64),
            None => r is None,
        },
{
    let n = s.len();
    if n == 0 {
        return None;
    }
    let neg = s[0] == '-';
    let start: usize = if s[0] == '-' || s[0] == '+' {
        1
    } else {
        0
    };
    if start == n {
        return None;
    }
    let ghost d = s@.skip(start as int);
    let mut mag: u128 = 0;
    let mut i = start;
    while i < n
        invariant
            start <= i <= n,
            n == s@.len(),
            n > 0,
            start == (if s@[0] == '-' || s@[0] == '+' {
                1int
            } else {
                0int
            }),
            d == s@.skip(start as int),
            all_digits(s@.subrange(start as int, i as int)),
            mag == digits_num(s@.subrange(start as int, i as int)),
            mag <= 9223372036854775808,
        decreases n - i,
    {
        let c = s[i];
        proof {
            assert(s@.subrange(start as int, i + 1).drop_last() =~= s@.subrange(
                start as int,
                i as int,
            ));
            assert(d.take(i + 1 - start) =~= s@.subrange(start as int, i + 1));
        }
        proof {
            assert(d[i - start] == c);
            if start == 0 {
                assert(d =~= s@);
            }
        }
        if !('0' <= c && c <= '9') {
            proof {
                assert(!is_digit_char(d[i - start]));
                assert(!all_digits(d));
            }
            return None;
        }
        let digit = (c as u32 - 48) as u128;
        mag = mag * 10 + digit;
        proof {
            assert(mag == digits_num(s@.subrange(start as int, i + 1)));
        }
        if mag > 9223372036854775808 {
            proof {
                if all_digits(d) {
                    lemma_digits_prefix(d, i + 1 - start);
                    assert(digits_num(d) > 9223372036854775808);
                }
            }
            return None;
        }
        i += 1;
    }
    proof {
        assert(s@.subrange(start as int, n as int) =~= d);
        if start == 0 {
            assert(d =~= s@);
        }
    }
    if neg {
        if mag == 9223372036854775808 {
            Some(i64::MIN)
        } else {
            Some(-(mag as i64))
        }
    } else if mag > 9223372036854775807 {
        None
    } else {
        Some(mag as i64)
    }
}

/// The dashboard's endpoints.
#[derive(Debug, Clone, Copy, PartialEq, Eq, Structural)]
pub enum DashboardRoute {
    Index,
    LiveStats,
    Rps,
    LatencyPercentiles,
    ErrorsPerSec,
    ResponsesByStatus,
    Bandwidth,
    TimingPercentiles,
    Vus,
    Metrics,
    NotFound,
}

/// The endpoint serving a path.
pub open spec fn route_for(path: Seq<char>) -> DashboardRoute {
    if path == "/"@ || path == "/index.html"@ {
        DashboardRoute::Index
    } else if path == "/live_stats.json"@ {
        DashboardRoute::LiveStats
    } else if path == "/rps.json"@ {
        DashboardRoute::Rps
    } else if path == "/latency_percentiles.json"@ {
        DashboardRoute::LatencyPercentiles
    } else if path == "/errors_per_sec.json"@ {
        DashboardRoute::ErrorsPerSec
    } else if path == "/responses_by_status.json"@ {
        DashboardRoute::ResponsesByStatus
    } else if path == "/bandwidth.json"@ {
        DashboardRoute::Bandwidth
    } else if path == "/timing_percentiles.json"@ {
        DashboardRoute::TimingPercentiles
    } else if path == "/vus.json"@ {
        DashboardRoute::Vus
    } else if path == "/metrics.json"@ {
        DashboardRoute::Metrics
    } else {
        DashboardRoute::NotFound
    }
}

/// The endpoint serving a path.
pub fn route_of(path: &str) -> (r: DashboardRoute)
    ensures
        r == route_for(path@),
{
    if str_eq(path, "/") || str_eq(path, "/index.html") {
        DashboardRoute::Index
    } else if str_eq(path, "/live_stats.json") {
        DashboardRoute::LiveStats
    } else if str_eq(path, "/rps.json") {
        DashboardRoute::Rps
    } else if str_eq(path, "/latency_percentiles.json") {
        DashboardRoute::LatencyPercentiles
    } else if str_eq(path, "/errors_per_sec.json") {
        DashboardRoute::ErrorsPerSec
    } else if str_eq(path, "/responses_by_status.json") {
        DashboardRoute::ResponsesByStatus
    } else if str_eq(path, "/bandwidth.json") {
        DashboardRoute::Bandwidth
    } else if str_eq(path, "/timing_percentiles.json") {
        DashboardRoute::TimingPercentiles
    } else if str_eq(path, "/vus.json") {
        DashboardRoute::Vus
    } else if str_eq(path, "/metrics.json") {
        DashboardRoute::Metrics
    } else {
        DashboardRoute::NotFound
    }
}

/// The query parameters the dashboard reads: the time window in seconds
/// and optional filters on the request name and the scenario.
pub type QueryView = (int, Option<Seq<char>>, Option<Seq<char>>);

/// A decoded query value (see `url_decode`).
pub open spec fn decoded_value(v: Seq<char>) -> Seq<char> {
    lossy_text(url_decoded(encode_utf8(v)))
}

/// The parameters after reading one `key=value` piece: `window_secs` takes
/// an integer (at least 1), `request_name` and `scenario` a non-empty
/// value; other pieces change nothing.
pub open spec fn apply_param(st: QueryView, piece: Seq<char>) -> QueryView {
    match index_of(piece, '=') {
        None => st,
        Some(e) => {
            let k = piece.take(e);
            let v = piece.skip(e + 1);
            if k == "window_secs"@ {
                match i64_literal(v) {
                    Some(n) => (if n < 1 {
                        1
                    } else {
                        n
                    }, st.1, st.2),
                    None => st,
                }
            } else if k == "request_name"@ {
                if v.len() > 0 {
                    (st.0, Some(decoded_value(v)), st.2)
                } else {
                    st
                }
            } else if k == "scenario"@ {
                if v.len() > 0 {
                    (st.0, st.1, Some(decoded_value(v)))
                } else {
                    st
                }
            } else {
                st
            }
        },
    }
}

/// The parameters after reading the `&`-separated pieces of `q` in order.
pub open spec fn apply_params(st: QueryView, q: Seq<char>) -> QueryView
    decreases q.len(),
{
    match index_of(q, '&') {
        None => apply_param(st, q),
        Some(k) => {
            proof {
                lemma_index_of_from(q, '&', 0);
            }
            apply_params(apply_param(st, q.take(k)), q.skip(k + 1))
        },
    }
}

/// The path of a request target (before the first `?`) and its query
/// (after it), if any.
pub open spec fn split_target(t: Seq<char>) -> (Seq<char>, Option<Seq<char>>) {
    match index_of(t, '?') {
        Some(k) => (t.take(k), Some(t.skip(k + 1))),
        None => (t, None),
    }
}

/// What a dashboard request asks for.
#[derive(Debug)]
pub struct DashboardRequest {
    pub route: DashboardRoute,
    pub window_secs: i64,
    pub request_name: Option<String>,
    pub scenario: Option<String>,
}

/// What the request text `req` asks for: the endpoint of its path, and the
/// parameters of its query, starting from a 180-second window and no
/// filters.
pub open spec fn request_meaning(r: DashboardRequest, req: Seq<char>) -> bool {
    let (path, query) = split_target(request_target(req));
    let start: QueryView = (180, None, None);
    let st = match query {
        Some(q) => apply_params(start, q),
        None => start,
    };
    &&& r.route == route_for(path)
    &&& r.window_secs == st.0
    &&& opt_view(r.request_name) == st.1
    &&& opt_view(r.scenario) == st.2
}

/// Reads one `key=value` piece into the parameters.
fn read_param(
    piece: &[char],
    window: &mut i64,
    request_name: &mut Option<String>,
    scenario: &mut Option<String>,
)
    ensures
        apply_param((*old(window) as int, opt_view(*old(request_name)), opt_view(*old(scenario))), piece@)
            == (*final(window) as int, opt_view(*final(request_name)), opt_view(*final(scenario))),
{
    proof {
        lemma_index_of_from(piece@, '=', 0);
    }
    let e = match find_char(piece, '=', 0) {
        Some(e) => e,
        None => {
            return;
        },
    };
    assert(e < piece.len());
    let key = string_of(&piece[0..e]);
    let v = &piece[e + 1..piece.len()];
    proof {
        assert(key@ =~= piece@.take(e as int));
        assert(v@ =~= piece@.skip(e + 1));
    }
    if str_eq(key.as_str(), "window_secs") {
        match parse_i64(v) {
            Some(n) => {
                *window = if n < 1 {
                    1
                } else {
                    n
                };
            },
            None => {},
        }
    } else if str_eq(key.as_str(), "request_name") {
        if v.len() > 0 {
            let text = string_of(v);
            *request_name = Some(url_decode(text.as_str()));
        }
    } else if str_eq(key.as_str(), "scenario") {
        if v.len() > 0 {
            let text = string_of(v);
            *scenario = Some(url_decode(text.as_str()));
        }
    }
}

/// Reads what a dashboard request asks for from its text.
pub fn parse_request_text(req: &str) -> (r: DashboardRequest)
    ensures
        request_meaning(r, req@),
{
    let cs = chars_of(req);
    let target = target_of(cs.as_slice());
    let t = target.as_slice();
    proof {
        lemma_index_of_from(t@, '?', 0);
    }
    let (path_end, query_start) = match find_char(t, '?', 0) {
        Some(k) => (k, Some(k + 1)),
        None => (t.len(), None),
    };
    let path = string_of(&t[0..path_end]);
    let mut window: i64 = 180;
    let mut request_name: Option<String> = None;
    let mut scenario: Option<String> = None;
    match query_start {
        None => {
            assert(t@.take(t@.len() as int) =~= t@);
        },
        Some(qs) => {
            let ghost q = t@.skip(qs as int);
            let mut start = qs;
            let ghost init: QueryView = (180, None, None);
            loop
                invariant
                    qs <= start <= t.len(),
                    q == t@.skip(qs as int),
                    apply_params(init, q) == apply_params(
                        (window as int, opt_view(request_name), opt_view(scenario)),
                        t@.skip(start as int),
                    ),
                ensures
                    apply_params(init, q) == (
                        window as int,
                        opt_view(request_name),
                        opt_view(scenario),
                    ),
                decreases t.len() + 1 - start,
            {
                let ghost rest = t@.skip(start as int);
                proof {
                    lemma_index_of_from(t@, '&', start as int);
                    lemma_index_of_from(rest, '&', 0);
                }
                match find_char(t, '&', start) {
                    Some(k) => {
                        proof {
                            assert(index_of(rest, '&') == Some(k - start)) by {
                                assert forall|j: int| 0 <= j < k - start implies rest[j] != '&' by {
                                    assert(rest[j] == t@[start + j]);
                                }
                                assert(rest[k - start] == '&');
                                if index_of(rest, '&') != Some(k - start) {
                                    match index_of(rest, '&') {
                                        Some(m) => {
                                            assert(rest[m] == t@[start + m]);
                                        },
                                        None => {},
                                    }
                                }
                            }
                            assert(rest.take(k - start) =~= t@.subrange(start as int, k as int));
                            assert(rest.skip(k - start + 1) =~= t@.skip(k + 1));
                        }
                        read_param(&t[start..k], &mut window, &mut request_name, &mut scenario);
                        start = k + 1;
                    },
                    None => {
                        proof {
                            assert(index_of(rest, '&') is None) by {
                                match index_of(rest, '&') {
                                    Some(m) => {
                                        assert(rest[m] == t@[start + m]);
                                    },
                                    None => {},
                                }
                            }
                            assert(rest =~= t@.subrange(start as int, t@.len() as int));
                        }
                        read_param(
                            &t[start..t.len()],
                            &mut window,
                            &mut request_name,
                            &mut scenario,
                        );
                        break;
                    },
                }
            }
        },
    }
    proof {
        assert(path@ =~= t@.take(path_end as int));
    }
    DashboardRequest { route: route_of(path.as_str()), window_secs: window, request_name, scenario }
}

/// Reads what a dashboard request asks for from the bytes received (read
/// as UTF-8, invalid sequences replaced).
pub fn parse_request(bytes: &[u8]) -> (r: DashboardRequest)
    ensures
        request_meaning(r, lossy_text(bytes@)),
{
    let text = utf8_lossy(bytes);
    parse_request_text(text.as_str())
}

proof fn lemma_digit_char(d: int)
    requires
        0 <= d < 10,
    ensures
        digit_char(d) as int == 48 + d,
        is_digit_char(digit_char(d)),
{
}

proof fn lemma_decimal_digits(n: nat)
    ensures
        all_digits(decimal(n)),
        digits_num(decimal(n)) == n,
        decimal(n).len() > 0,
    decreases n,
{
    lemma_digit_char((n % 10) as int);
    if n < 10 {
        lemma_digit_char(n as int);
        assert(decimal(n).drop_last() =~= Seq::<char>::empty());
        assert(decimal(n).last() == digit_char(n as int));
        assert(digits_num(Seq::<char>::empty()) == 0);
    } else {
        lemma_decimal_digits(n / 10);
        let d = decimal(n / 10);
        assert(decimal(n).last() == digit_char((n % 10) as int));
        vstd::arithmetic::div_mod::lemma_fundamental_div_mod(n as int, 10);
        assert(decimal(n).drop_last() =~= d);
        assert forall|i: int| 0 <= i < decimal(n).len() implies is_digit_char(
            #[trigger] decimal(n)[i],
        ) by {
            if i < d.len() {
                assert(decimal(n)[i] == d[i]);
            }
        }
    }
}

/// The decimal notation of a number that fits in `i64` parses back to it.
pub proof fn law_decimal_parses_back(n: nat)
    requires
        n <= i64::MAX,
    ensures
        i64_literal(decimal(n)) == Some(n as int),
{
    lemma_decimal_digits(n);
    assert(is_digit_char(decimal(n)[0]));
}

} // verus!
