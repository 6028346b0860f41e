//! Reporting: the console reporter's settings, the live report's sources
//! and the dashboard's file locations.
use vstd::prelude::*;

verus! {

#[verifier::external_type_specification]
#[verifier::external_body]
pub struct ExInstant(std::time::Instant);

/// Console reporter settings and the time the test started.
pub struct ConsoleReporter {
    /// Whether live progress is shown.
    pub show_progress: bool,
    /// Seconds between progress updates.
    pub update_interval_secs: u64,
    /// When the test started, once it has.
    pub start_time: Option<std::time::Instant>,
}

impl ConsoleReporter {
    /// Progress shown every 5 seconds.
    pub fn new() -> (r: Self)
        ensures
            r.show_progress,
            r.update_interval_secs == 5,
            r.start_time is None,
    {
        ConsoleReporter { show_progress: true, update_interval_secs: 5, start_time: None }
    }

    /// Custom settings.
    pub fn with_config(show_progress: bool, update_interval_secs: u64) -> (r: Self)
        ensures
            r.show_progress == show_progress,
            r.update_interval_secs == update_interval_secs,
            r.start_time is None,
    {
        ConsoleReporter { show_progress, update_interval_secs, start_time: None }
    }
}

/// Elapsed seconds as minutes and seconds.
pub fn minutes_seconds(elapsed_secs: u64) -> (r: (u64, u64))
    ensures
        r.0 == elapsed_secs / 60,
        r.1 == elapsed_secs % 60,
        r.0 * 60 + r.1 == elapsed_secs,
{
    (elapsed_secs / 60, elapsed_secs % 60)
}

/// Whether a run is over: no user active any more and at least one done.
pub fn run_finished(currently_active: usize, total_completed: usize) -> (r: bool)
    ensures
        r == (currently_active == 0 && total_completed > 0),
{
    currently_active == 0 && total_completed > 0
}

/// Reads the request and user-state logs of a run.
pub struct CsvParser {
    pub requests_csv_path: String,
    pub vu_states_csv_path: String,
}

impl CsvParser {
    pub fn new(requests_csv_path: String, vu_states_csv_path: String) -> (r: Self)
        ensures
            r.requests_csv_path == requests_csv_path,
            r.vu_states_csv_path == vu_states_csv_path,
    {
        CsvParser { requests_csv_path, vu_states_csv_path }
    }
}

/// Where the dashboard's page template is (served at `/`).
pub fn get_dashboard_html_path() -> (r: &'static str)
    ensures
        r@ == "src/engine/reporters/live/templates/live.hbs"@,
{
    "src/engine/reporters/live/templates/live.hbs"
}

/// Where the dashboard's script is (served at `/live.js`).
pub fn get_dashboard_js_path() -> (r: &'static str)
    ensures
        r@ == "src/engine/reporters/live/templates/live.js"@,
{
    "src/engine/reporters/live/templates/live.js"
}

} // verus!
