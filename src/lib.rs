//! Schedule acquisition and synchronization for an event schedule published
//! as an HTML table: row-pair extraction, duration and timestamp parsing,
//! the run model and the decisions of the polling loop.

mod duration;
mod error;
mod extract;
mod host;
mod html;
mod instant;
mod poll;
mod run;
mod text;

pub use duration::{duration_result, duration_seconds, parse_duration};
pub use error::ScheduleError;
pub use extract::{
    body_view, category_platform_of, extract_schedule, first_match, lemma_odd_row_count_fails,
    lemma_one_run_per_pair, rows_view, run_from_cells, run_from_rows, runs_of_pairs, schedule_of,
    separator, split_category_platform,
};
pub use host::short_hostname;
pub use html::{
    is_white_space, run_table_cells, MAX_HTML_BYTES, schedule_from_html, trim_cells, trim_end_at, trim_start_at,
    trim_text, trimmed, trimmed_body,
};
pub use instant::{parse_timestamp, parsed_instant, timestamp_result, Timestamp, MAX_SECONDS};
pub use poll::{
    after_fetch, after_wake, finish_check, is_finished, lemma_changed_run_is_emitted,
    lemma_empty_schedule_stops, lemma_stops_once_last_run_ended,
    lemma_unchanged_schedule_is_not_emitted, Action, Poller, POLL_INTERVAL_SECONDS,
};
pub use run::{end_of, runs_view, same_schedule, Run, RunView};
pub use text::{
    all_digits, decimal_of, digits_value, is_digit, parse_u64, render_line, render_text,
    split_on, split_text, texts, unsigned_part,
};
