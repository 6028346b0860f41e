//! The request log's segment files: their names, and when the writer
//! writes a batch, starts a new segment or stops.
use vstd::prelude::*;
use crate::text::{chars_of, string_of, owned, append_char, decimal, u64_to_decimal};

verus! {

/// `s` with each space replaced by `_`.
pub open spec fn underscored(s: Seq<char>) -> Seq<char> {
    s.map_values(|c: char| if c == ' ' { '_' } else { c })
}

/// The run's id: the scenario name with spaces replaced by `_`, then `_`
/// and the start time.
pub fn run_id(scenario_name: &str, timestamp: &str) -> (r: String)
    ensures
        r@ == underscored(scenario_name@) + "_"@ + timestamp@,
{
    let cs = chars_of(scenario_name);
    let mut out = String::new();
    let mut i: usize = 0;
    while i < cs.len()
        invariant
            cs@ == scenario_name@,
            i <= cs.len(),
            out@ == underscored(cs@.take(i as int)),
        decreases cs.len() - i,
    {
        let c = cs[i];
        append_char(
            &mut out,
            if c == ' ' {
                '_'
            } else {
                c
            },
        );
        assert(underscored(cs@.take(i + 1)) =~= underscored(cs@.take(i as int)).push(
            if c == ' ' {
                '_'
            } else {
                c
            },
        ));
        i += 1;
    }
    assert(cs@.take(cs.len() as int) =~= cs@);
    out.append("_");
    out.append(timestamp);
    out
}

/// The directory of a run's segments: `{output_dir}/{run_id}/segments`.
pub fn segments_dir(output_dir: &str, run_id: &str) -> (r: String)
    ensures
        r@ == output_dir@ + "/"@ + run_id@ + "/segments"@,
{
    let mut out = owned(output_dir);
    out.append("/");
    out.append(run_id);
    out.append("/segments");
    out
}

/// The final path of a segment: `{dir}/segment_{number}_{time}.parquet`.
pub fn segment_path(dir: &str, number: u64, time: &str) -> (r: String)
    ensures
        r@ == dir@ + "/segment_"@ + decimal(number as nat) + "_"@ + time@ + ".parquet"@,
{
    let mut out = owned(dir);
    out.append("/segment_");
    out.append(u64_to_decimal(number).as_str());
    out.append("_");
    out.append(time);
    out.append(".parquet");
    out
}

/// The path a segment is written to before it is complete.
pub fn temp_path(final_path: &str) -> (r: String)
    ensures
        r@ == final_path@ + ".tmp"@,
{
    let mut out = owned(final_path);
    out.append(".tmp");
    out
}

/// Records buffered before a batch is written.
pub const BATCH_ROWS: usize = 10;

/// Milliseconds after which buffered records are written anyway.
pub const WRITE_INTERVAL_MS: u64 = 1000;

/// Milliseconds after which a new segment is started.
pub const ROTATE_INTERVAL_MS: u64 = 2000;

/// What the writer does after taking in a message.
#[derive(Debug, Clone, Copy, PartialEq, Eq, Structural)]
pub struct WriterStep {
    /// Write the buffered records as a batch.
    pub write_batch: bool,
    /// Close the segment and open the next one.
    pub rotate: bool,
    /// Close the segment and stop.
    pub finish: bool,
}

/// The writer's counters: records buffered, and the number of the open
/// segment.
#[derive(Debug, Clone, Copy, PartialEq, Eq, Structural)]
pub struct SegmentWriter {
    pub buffered: usize,
    pub segment: u64,
}

impl SegmentWriter {
    /// Nothing buffered, and the first segment open.
    pub fn new() -> (r: Self)
        ensures
            r.buffered == 0,
            r.segment == 1,
    {
        SegmentWriter { buffered: 0, segment: 1 }
    }

    /// Takes in a message: a record (request, user state or metric), or a
    /// flush request.  A batch is written when ten records are buffered,
    /// when a second has passed since the last write, or on a flush; after
    /// a write, a new segment is started when two seconds have passed since
    /// the last one (but not on a flush, which closes the segment and
    /// stops).
    pub fn on_message(
        &mut self,
        is_flush: bool,
        since_write_ms: u64,
        since_rotate_ms: u64,
    ) -> (r: WriterStep)
        requires
            old(self).buffered < BATCH_ROWS,
            old(self).segment < u64::MAX,
        ensures
            ({
                let held = if is_flush {
                    old(self).buffered
                } else {
                    (old(self).buffered + 1) as usize
                };
                let write = held >= BATCH_ROWS || since_write_ms >= WRITE_INTERVAL_MS || is_flush;
                let rotate = write && since_rotate_ms >= ROTATE_INTERVAL_MS && !is_flush;
                &&& r.write_batch == write
                &&& r.rotate == rotate
                &&& r.finish == (write && is_flush)
                &&& final(self).buffered == if write {
                    0
                } else {
                    held
                }
                &&& final(self).segment == if rotate {
                    (old(self).segment + 1) as u64
                } else {
                    old(self).segment
                }
            }),
            final(self).buffered < BATCH_ROWS,
    {
        if !is_flush {
            self.buffered = self.buffered + 1;
        }
        let write = self.buffered >= BATCH_ROWS || since_write_ms >= WRITE_INTERVAL_MS || is_flush;
        if !write {
            return WriterStep { write_batch: false, rotate: false, finish: false };
        }
        self.buffered = 0;
        let rotate = since_rotate_ms >= ROTATE_INTERVAL_MS && !is_flush;
        if rotate {
            self.segment = self.segment + 1;
        }
        WriterStep { write_batch: true, rotate, finish: is_flush }
    }
}

} // verus!
