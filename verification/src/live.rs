//! The live report's sources read back: the request and user-state CSV
//! logs, parsed into rows (counts as integers, timings kept as text).
use vstd::prelude::*;
use crate::text::{chars_of, owned, str_eq};
use crate::dashboard::{all_digits, digits_num, is_digit_char, lemma_digits_prefix};

verus! {

/// What reading `bytes` with `csv::ReaderBuilder::new()` (the first line
/// being the header) gives: the records after the header, each as its
/// fields, or the text of the error of the first record that fails.
pub uninterp spec fn csv_records_of(bytes: Seq<u8>) -> Result<Seq<Seq<Seq<char>>>, Seq<char>>;

/// The records as texts.
pub open spec fn records_view(v: Seq<Vec<String>>) -> Seq<Seq<Seq<char>>> {
    v.map_values(|r: Vec<String>| fields_view(r@))
}

/// The fields of a record as texts.
pub open spec fn fields_view(r: Seq<String>) -> Seq<Seq<char>> {
    r.map_values(|f: String| f@)
}

/// `csv::ReaderBuilder::new().from_reader(bytes)`, then `Reader::records`:
/// each record's fields as texts, or the error's text (`Display`); named by
/// `csv_records_of`.
#[verifier::external_body]
fn csv_records(bytes: &[u8]) -> (r: Result<Vec<Vec<String>>, String>)
    ensures
        match (r, csv_records_of(bytes@)) {
            (Ok(v), Ok(s)) => records_view(v@) == s,
            (Err(m), Err(t)) => m@ == t,
            _ => false,
        },
{
    let mut out = Vec::new();
    for record in csv::ReaderBuilder::new().from_reader(bytes).records() {
        match record {
            Ok(rec) => out.push(rec.iter().map(|f| f.to_string()).collect()),
            Err(e) => return Err(e.to_string()),
        }
    }
    Ok(out)
}

/// The number written by `s` as `str::parse::<usize>` reads it: an optional
/// `+`, then one or more decimal digits, the value fitting in `usize`.
pub open spec fn usize_literal(s: Seq<char>) -> Option<nat> {
    let d = if s.len() > 0 && s[0] == '+' {
        s.skip(1)
    } else {
        s
    };
    if d.len() > 0 && all_digits(d) && digits_num(d) <= usize::MAX {
        Some(digits_num(d))
    } else {
        None
    }
}

/// Reads a `usize` as `str::parse::<usize>` does (see `usize_literal`).
pub fn parse_usize(s: &str) -> (r: Option<usize>)
    ensures
        match usize_literal(s@) {
            Some(n) => r == Some(n as usize),
            None => r is None,
        },
{
    let cs = chars_of(s);
    let n = cs.len();
    let start: usize = if n > 0 && cs[0] == '+' {
        1
    } else {
        0
    };
    let ghost d = cs@.skip(start as int);
    proof {
        if start == 0 {
            assert(d =~= cs@);
        }
    }
    if start == n {
        return None;
    }
    let mut mag: usize = 0;
    let mut i = start;
    while i < n
        invariant
            start <= i <= n,
            n == cs@.len(),
            cs@ == s@,
            start < n,
            d == cs@.skip(start as int),
            d == (if s@.len() > 0 && s@[0] == '+' {
                s@.skip(1)
            } else {
                s@
            }),
            all_digits(cs@.subrange(start as int, i as int)),
            mag == digits_num(cs@.subrange(start as int, i as int)),
        decreases n - i,
    {
        let c = cs[i];
        proof {
            assert(cs@.subrange(start as int, i + 1).drop_last() =~= cs@.subrange(
                start as int,
                i as int,
            ));
            assert(d.take(i + 1 - start) =~= cs@.subrange(start as int, i + 1));
            assert(d[i - start] == c);
        }
        if !('0' <= c && c <= '9') {
            proof {
                assert(!is_digit_char(d[i - start]));
                assert(!all_digits(d));
            }
            return None;
        }
        let digit = (c as u32 - 48) as usize;
        let next = match mag.checked_mul(10) {
            Some(m) => m.checked_add(digit),
            None => None,
        };
        proof {
            assert(digits_num(cs@.subrange(start as int, i + 1)) == mag * 10 + digit);
        }
        match next {
            Some(m) => {
                mag = m;
            },
            None => {
                proof {
                    if all_digits(d) {
                        lemma_digits_prefix(d, i + 1 - start);
                        assert(digits_num(d) > usize::MAX);
                    }
                }
                return None;
            },
        }
        i += 1;
    }
    proof {
        assert(cs@.subrange(start as int, n as int) =~= d);
    }
    Some(mag)
}

/// Field `i` of a record, empty when there is none (`get(i)`, or `""`).
pub open spec fn field_text(fields: Seq<Seq<char>>, i: int) -> Seq<char> {
    if 0 <= i < fields.len() {
        fields[i]
    } else {
        Seq::empty()
    }
}

/// Field `i` of a record read as a count, 0 when it is missing or not one.
pub open spec fn field_count(fields: Seq<Seq<char>>, i: int) -> nat {
    match usize_literal(field_text(fields, i)) {
        Some(n) => n,
        None => 0,
    }
}

fn field(rec: &Vec<String>, i: usize) -> (r: String)
    ensures
        r@ == field_text(fields_view(rec@), i as int),
{
    if i < rec.len() {
        owned(rec[i].as_str())
    } else {
        String::new()
    }
}

fn count(rec: &Vec<String>, i: usize) -> (r: usize)
    ensures
        r == field_count(fields_view(rec@), i as int),
{
    let t = field(rec, i);
    match parse_usize(t.as_str()) {
        Some(n) => n,
        None => 0,
    }
}

/// A request read back from the request log; the timings are the texts of
/// their fields (read as numbers by the caller).
#[derive(Debug, Clone)]
pub struct RequestRow {
    pub timestamp: String,
    pub scenario: String,
    pub request_name: String,
    pub user_id: usize,
    pub response_time_ms: String,
    pub status: String,
    pub pass_count: usize,
    pub fail_count: usize,
    pub error_message: String,
    pub bytes_sent: usize,
    pub bytes_received: usize,
    pub dns_lookup_ms: String,
    pub tcp_connect_ms: String,
    pub tls_handshake_ms: String,
    pub time_to_first_byte_ms: String,
    pub content_download_ms: String,
}

/// The request row of a record's fields, in the log's column order.
pub open spec fn request_row_of(r: RequestRow, f: Seq<Seq<char>>) -> bool {
    &&& r.timestamp@ == field_text(f, 0)
    &&& r.scenario@ == field_text(f, 1)
    &&& r.request_name@ == field_text(f, 2)
    &&& r.user_id == field_count(f, 3)
    &&& r.response_time_ms@ == field_text(f, 4)
    &&& r.status@ == field_text(f, 5)
    &&& r.pass_count == field_count(f, 6)
    &&& r.fail_count == field_count(f, 7)
    &&& r.error_message@ == field_text(f, 8)
    &&& r.bytes_sent == field_count(f, 9)
    &&& r.bytes_received == field_count(f, 10)
    &&& r.dns_lookup_ms@ == field_text(f, 11)
    &&& r.tcp_connect_ms@ == field_text(f, 12)
    &&& r.tls_handshake_ms@ == field_text(f, 13)
    &&& r.time_to_first_byte_ms@ == field_text(f, 14)
    &&& r.content_download_ms@ == field_text(f, 15)
}

/// A user-state snapshot read back from the user-state log; the success
/// rate is the text of its field.
#[derive(Debug, Clone)]
pub struct VuStateRow {
    pub timestamp: String,
    pub scenario: String,
    pub total_started: usize,
    pub active: usize,
    pub completed: usize,
    pub failed: usize,
    pub success_rate: String,
}

/// The user-state row of a record's fields, in the log's column order.
pub open spec fn vu_state_row_of(r: VuStateRow, f: Seq<Seq<char>>) -> bool {
    &&& r.timestamp@ == field_text(f, 0)
    &&& r.scenario@ == field_text(f, 1)
    &&& r.total_started == field_count(f, 2)
    &&& r.active == field_count(f, 3)
    &&& r.completed == field_count(f, 4)
    &&& r.failed == field_count(f, 5)
    &&& r.success_rate@ == field_text(f, 6)
}

/// The requests of a request log, one row per record, in order; the CSV
/// reader's error when a record cannot be read.
pub fn request_rows(bytes: &[u8]) -> (r: Result<Vec<RequestRow>, String>)
    ensures
        match csv_records_of(bytes@) {
            Ok(s) => r matches Ok(v) && v@.len() == s.len() && forall|i: int|
                0 <= i < s.len() ==> request_row_of(#[trigger] v@[i], s[i]),
            Err(t) => r matches Err(m) && m@ == t,
        },
{
    let records = csv_records(bytes)?;
    let mut out: Vec<RequestRow> = Vec::new();
    let mut i: usize = 0;
    while i < records.len()
        invariant
            i <= records@.len(),
            out@.len() == i,
            forall|j: int|
                0 <= j < i ==> request_row_of(
                    #[trigger] out@[j],
                    fields_view(records@[j]@),
                ),
        decreases records.len() - i,
    {
        let rec = &records[i];
        let row = RequestRow {
            timestamp: field(rec, 0),
            scenario: field(rec, 1),
            request_name: field(rec, 2),
            user_id: count(rec, 3),
            response_time_ms: field(rec, 4),
            status: field(rec, 5),
            pass_count: count(rec, 6),
            fail_count: count(rec, 7),
            error_message: field(rec, 8),
            bytes_sent: count(rec, 9),
            bytes_received: count(rec, 10),
            dns_lookup_ms: field(rec, 11),
            tcp_connect_ms: field(rec, 12),
            tls_handshake_ms: field(rec, 13),
            time_to_first_byte_ms: field(rec, 14),
            content_download_ms: field(rec, 15),
        };
        out.push(row);
        i += 1;
    }
    Ok(out)
}

/// The snapshots of a user-state log, one row per record, in order; the
/// CSV reader's error when a record cannot be read.
pub fn vu_state_rows(bytes: &[u8]) -> (r: Result<Vec<VuStateRow>, String>)
    ensures
        match csv_records_of(bytes@) {
            Ok(s) => r matches Ok(v) && v@.len() == s.len() && forall|i: int|
                0 <= i < s.len() ==> vu_state_row_of(#[trigger] v@[i], s[i]),
            Err(t) => r matches Err(m) && m@ == t,
        },
{
    let records = csv_records(bytes)?;
    let mut out: Vec<VuStateRow> = Vec::new();
    let mut i: usize = 0;
    while i < records.len()
        invariant
            i <= records@.len(),
            out@.len() == i,
            forall|j: int|
                0 <= j < i ==> vu_state_row_of(
                    #[trigger] out@[j],
                    fields_view(records@[j]@),
                ),
        decreases records.len() - i,
    {
        let rec = &records[i];
        let row = VuStateRow {
            timestamp: field(rec, 0),
            scenario: field(rec, 1),
            total_started: count(rec, 2),
            active: count(rec, 3),
            completed: count(rec, 4),
            failed: count(rec, 5),
            success_rate: field(rec, 6),
        };
        out.push(row);
        i += 1;
    }
    Ok(out)
}

/// Counts over the records of the request log's segment files: requests
/// (all, successful, other) and users (started, finished, still active).
#[derive(Debug, Clone, Copy, PartialEq, Eq, Structural)]
pub struct LiveCounts {
    pub total: usize,
    pub success: usize,
    pub fail: usize,
    pub active_vus: usize,
    pub vus_started: usize,
    pub vus_completed: usize,
}

/// The counts after one more record: a request counts as successful when
/// its status is `success`; a user state `started` starts a user,
/// `completed` or `failed` ends one (the active count not going below 0);
/// other records count nothing.
pub open spec fn live_step(
    c: LiveCounts,
    record_type: Seq<char>,
    status: Option<Seq<char>>,
    vu_state: Option<Seq<char>>,
) -> LiveCounts {
    if record_type == "request"@ {
        if status == Some("success"@) {
            LiveCounts { total: (c.total + 1) as usize, success: (c.success + 1) as usize, ..c }
        } else {
            LiveCounts { total: (c.total + 1) as usize, fail: (c.fail + 1) as usize, ..c }
        }
    } else if record_type == "vu_state"@ {
        match vu_state {
            Some(st) => if st == "started"@ {
                LiveCounts {
                    active_vus: (c.active_vus + 1) as usize,
                    vus_started: (c.vus_started + 1) as usize,
                    ..c
                }
            } else if st == "completed"@ || st == "failed"@ {
                LiveCounts {
                    active_vus: if c.active_vus > 0 {
                        (c.active_vus - 1) as usize
                    } else {
                        0
                    },
                    vus_completed: (c.vus_completed + 1) as usize,
                    ..c
                }
            } else {
                c
            },
            None => c,
        }
    } else {
        c
    }
}

/// Each request record counts once, as a success exactly when its status
/// is `success` and as a failure otherwise, so the total stays the sum of
/// successes and failures; other records leave the request counts alone.
/// A user that starts adds one to the started and to the active users; one
/// that completes or fails adds one to the finished users and takes one
/// from the active users, if any.
pub proof fn law_live_counts_balance(
    c: LiveCounts,
    record_type: Seq<char>,
    status: Option<Seq<char>>,
    vu_state: Option<Seq<char>>,
)
    requires
        c.total == c.success + c.fail,
        c.total < usize::MAX,
        c.active_vus < usize::MAX,
        c.vus_started < usize::MAX,
        c.vus_completed < usize::MAX,
    ensures
        ({
            let n = live_step(c, record_type, status, vu_state);
            &&& n.total == n.success + n.fail
            &&& record_type == "request"@ ==> n.total == c.total + 1 && (n.success == c.success + 1
                <==> status == Some("success"@)) && n.vus_started == c.vus_started
                && n.active_vus == c.active_vus && n.vus_completed == c.vus_completed
            &&& record_type != "request"@ ==> n.total == c.total && n.success == c.success
                && n.fail == c.fail
            &&& record_type == "vu_state"@ && vu_state == Some("started"@) ==> n.vus_started
                == c.vus_started + 1 && n.active_vus == c.active_vus + 1 && n.vus_completed
                == c.vus_completed
            &&& record_type == "vu_state"@ && (vu_state == Some("completed"@) || vu_state == Some(
                "failed"@,
            )) ==> n.vus_completed == c.vus_completed + 1 && n.vus_started == c.vus_started
                && n.active_vus == (if c.active_vus > 0 {
                c.active_vus - 1
            } else {
                0
            })
        }),
{
    reveal_strlit("request");
    reveal_strlit("vu_state");
    reveal_strlit("success");
    reveal_strlit("started");
    reveal_strlit("completed");
    reveal_strlit("failed");
    assert("request"@ != "vu_state"@) by {
        assert("request"@.len() != "vu_state"@.len());
    }
    assert("started"@ != "completed"@) by {
        assert("started"@.len() != "completed"@.len());
    }
    assert("started"@ != "failed"@) by {
        assert("started"@.len() != "failed"@.len());
    }
}

/// The text view of an optional text.
pub open spec fn opt_text(o: Option<&str>) -> Option<Seq<char>> {
    match o {
        Some(s) => Some(s@),
        None => None,
    }
}

impl LiveCounts {
    /// Nothing counted.
    pub fn new() -> (r: Self)
        ensures
            r == (LiveCounts {
                total: 0,
                success: 0,
                fail: 0,
                active_vus: 0,
                vus_started: 0,
                vus_completed: 0,
            }),
    {
        LiveCounts { total: 0, success: 0, fail: 0, active_vus: 0, vus_started: 0, vus_completed: 0 }
    }

    /// Takes in one record: its type, its status and its user state
    /// (`None` where the field is null).
    pub fn count_record(&mut self, record_type: &str, status: Option<&str>, vu_state: Option<&str>)
        requires
            old(self).total < usize::MAX,
            old(self).success < usize::MAX,
            old(self).fail < usize::MAX,
            old(self).active_vus < usize::MAX,
            old(self).vus_started < usize::MAX,
            old(self).vus_completed < usize::MAX,
        ensures
            *final(self) == live_step(*old(self), record_type@, opt_text(status), opt_text(vu_state)),
    {
        if str_eq(record_type, "request") {
            self.total = self.total + 1;
            let ok = match status {
                Some(st) => str_eq(st, "success"),
                None => false,
            };
            if ok {
                self.success = self.success + 1;
            } else {
                self.fail = self.fail + 1;
            }
        } else if str_eq(record_type, "vu_state") {
            match vu_state {
                Some(st) => {
                    if str_eq(st, "started") {
                        self.active_vus = self.active_vus + 1;
                        self.vus_started = self.vus_started + 1;
                    } else if str_eq(st, "completed") || str_eq(st, "failed") {
                        if self.active_vus > 0 {
                            self.active_vus = self.active_vus - 1;
                        }
                        self.vus_completed = self.vus_completed + 1;
                    }
                },
                None => {},
            }
        }
    }
}

} // verus!
