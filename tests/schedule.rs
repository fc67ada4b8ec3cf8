use gdq_schedule::{
    extract_schedule, is_finished, parse_duration, parse_timestamp, schedule_from_html, trim_text, parse_u64, render_line,
    render_text, run_from_cells, same_schedule, short_hostname, split_category_platform,
    split_text, Action, Poller, Run, ScheduleError, Timestamp, MAX_SECONDS,
};

fn cells(texts: &[&str]) -> Vec<String> {
    texts.iter().map(|t| t.to_string()).collect()
}

fn two_pair_table() -> Vec<Vec<String>> {
    vec![
        cells(&["2020-01-05T16:30:00+00:00", "Super Mario 64", "Alice", "0:10:00"]),
        cells(&["0:20:00", "Super Mario 64 \u{2014} Any%", "Bob"]),
        cells(&["2020-01-05T16:50:00+00:00", "Celeste", "Carol, Dave", "0:05:00"]),
        cells(&["0:30:00", "Any% \u{2014} PC", "Erin"]),
    ]
}

fn run_at(secs: i64, run_time: u64) -> Run {
    Run {
        game: "Game".to_string(),
        category: "Any%".to_string(),
        platform: "PC".to_string(),
        runners: "Runner".to_string(),
        host: "Host".to_string(),
        setup_time: 0,
        start_time: Timestamp { secs, nanos: 0 },
        run_time,
    }
}

fn at(secs: i64) -> Timestamp {
    Timestamp { secs, nanos: 0 }
}

#[test]
fn duration_hours_minutes_seconds() {
    assert_eq!(parse_duration("1:02:03"), Ok(3723));
    assert_eq!(parse_duration("0:00:00"), Ok(0));
    assert_eq!(parse_duration("+1:00:00"), Ok(3600));
}

#[test]
fn duration_wrong_part_count() {
    assert_eq!(parse_duration("1:2"), Err(ScheduleError::Format));
    assert_eq!(parse_duration("1:00:00:00"), Err(ScheduleError::Format));
    assert_eq!(parse_duration(""), Err(ScheduleError::Format));
}

#[test]
fn duration_non_integer_part() {
    assert_eq!(parse_duration("a:00:00"), Err(ScheduleError::Format));
    assert_eq!(parse_duration("1:-2:00"), Err(ScheduleError::Format));
    assert_eq!(parse_duration("1::00"), Err(ScheduleError::Format));
}

#[test]
fn duration_too_long() {
    assert_eq!(parse_duration("99999999999999999:00:00"), Err(ScheduleError::TimeRange));
    assert_eq!(parse_duration("0:0:18446744073709551615"), Ok(u64::MAX));
}

#[test]
fn unsigned_decimal_reading() {
    assert_eq!(parse_u64("123"), Some(123));
    assert_eq!(parse_u64("+7"), Some(7));
    assert_eq!(parse_u64("007"), Some(7));
    assert_eq!(parse_u64(""), None);
    assert_eq!(parse_u64("+"), None);
    assert_eq!(parse_u64("-1"), None);
    assert_eq!(parse_u64("1 "), None);
    assert_eq!(parse_u64("18446744073709551615"), Some(u64::MAX));
    assert_eq!(parse_u64("18446744073709551616"), None);
}

#[test]
fn split_keeps_empty_pieces() {
    assert_eq!(split_text("a::b", ':'), vec!["a", "", "b"]);
    assert_eq!(split_text("", ':'), vec![""]);
    assert_eq!(split_text("abc", ':'), vec!["abc"]);
}

#[test]
fn render_words_and_lines() {
    assert_eq!(render_line("hello big world"), vec!["hello", "big", "world"]);
    assert_eq!(
        render_text("Super Mario\nAny% glitchless"),
        vec![vec!["Super", "Mario"], vec!["Any%", "glitchless"]]
    );
    assert_eq!(render_text(""), vec![vec![""]]);
}

#[test]
fn category_platform_splits_at_dash() {
    let (category, platform) = split_category_platform("Super Mario \u{2014} Any%").unwrap();
    assert_eq!(category, "Super Mario");
    assert_eq!(platform, "Any%");
}

#[test]
fn category_platform_without_separator() {
    let e = split_category_platform("Super Mario - Any%").unwrap_err();
    assert_eq!(e, ScheduleError::CategoryPlatform);
    assert!(e.is_structural());
    assert_eq!(split_category_platform(""), Err(ScheduleError::CategoryPlatform));
}

#[test]
fn category_platform_first_separator_only() {
    assert_eq!(
        split_category_platform("A \u{2014} B \u{2014} C"),
        Err(ScheduleError::CategoryPlatform)
    );
}

#[test]
fn category_platform_empty_part() {
    assert_eq!(split_category_platform(" \u{2014} X"), Err(ScheduleError::CategoryPlatform));
    assert_eq!(split_category_platform("A \u{2014} "), Err(ScheduleError::CategoryPlatform));
    assert_eq!(split_category_platform(" \u{2014} "), Err(ScheduleError::CategoryPlatform));
    let (category, platform) = split_category_platform("A \u{2014} \u{2014} B").unwrap();
    assert_eq!(category, "A");
    assert_eq!(platform, "\u{2014} B");
}

#[test]
fn end_time_leaves_leap_second() {
    let leap = Timestamp { secs: 1483228799, nanos: 1_500_000_000 };
    let run = Run { start_time: leap, ..run_at(0, 60) };
    assert_eq!(run.end_time(), Ok(Timestamp { secs: 1483228859, nanos: 500_000_000 }));
    let run = Run { start_time: leap, ..run_at(0, 0) };
    assert_eq!(run.end_time(), Ok(leap));
}

#[test]
fn trim_drops_outer_white_space() {
    assert_eq!(trim_text("  a b \n\t"), "a b");
    assert_eq!(trim_text("\u{3000}x\u{a0}"), "x");
    assert_eq!(trim_text(" \n "), "");
    assert_eq!(trim_text(""), "");
    assert_eq!(trim_text("abc"), "abc");
}

fn page(body_rows: &str) -> String {
    format!(
        "<html><body><table id=\"runTable\"><tbody>{}</tbody></table></body></html>",
        body_rows
    )
}

const PAGE_ROWS: &str = "\n<tr><td>2020-01-05T16:30:00+00:00</td><td> Super Mario 64 </td>\
    <td>Alice</td><td>0:10:00</td></tr>\n\
    <tr><td>0:20:00</td><td>Super Mario 64 \u{2014} Any%</td><td>Bob</td></tr>\n\
    <tr><td>2020-01-05T16:50:00+00:00</td><td>Celeste</td><td>Carol</td><td>0:05:00</td></tr>\
    <tr><td> 0:30:00 </td><td>Any% \u{2014} PC</td><td><b>Erin</b></td></tr>\n";

#[test]
fn html_page_to_runs() {
    let runs = schedule_from_html(&page(PAGE_ROWS)).unwrap();
    assert_eq!(runs.len(), 2);
    assert_eq!(runs[0].game, "Super Mario 64");
    assert_eq!(runs[0].start_time, at(1578241800));
    assert_eq!(runs[0].setup_time, 600);
    assert_eq!(runs[1].host, "Erin");
    assert_eq!(runs[1].category, "Any%");
    assert_eq!(runs[1].platform, "PC");
    assert_eq!(runs[1].run_time, 1800);
}

#[test]
fn html_page_without_table() {
    assert_eq!(
        schedule_from_html("<html><body><p>no schedule</p></body></html>"),
        Err(ScheduleError::MissingTable)
    );
}

#[test]
fn html_page_odd_rows() {
    let rows = "<tr><td>2020-01-05T16:30:00+00:00</td><td>G</td><td>R</td><td>0:10:00</td></tr>";
    assert_eq!(schedule_from_html(&page(rows)), Err(ScheduleError::OddRowCount { rows: 1 }));
}

#[test]
fn timestamp_with_offset() {
    assert_eq!(parse_timestamp("2020-01-05T16:30:00+00:00"), Ok(at(1578241800)));
    assert_eq!(parse_timestamp("2020-01-05T17:00:00-05:00"), Ok(at(1578261600)));
    assert_eq!(
        parse_timestamp("2020-01-05T16:30:00.5+00:00"),
        Ok(Timestamp { secs: 1578241800, nanos: 500_000_000 })
    );
}

#[test]
fn timestamp_malformed() {
    assert_eq!(parse_timestamp("not a time"), Err(ScheduleError::TimeFormat));
    assert_eq!(parse_timestamp("2020-01-05"), Err(ScheduleError::TimeFormat));
}

#[test]
fn end_time_is_start_plus_run_time() {
    let run = run_at(1578241800, 3723);
    assert_eq!(run.end_time(), Ok(at(1578245523)));
    let run = Run { start_time: Timestamp { secs: 10, nanos: 7 }, ..run_at(0, 5) };
    assert_eq!(run.end_time(), Ok(Timestamp { secs: 15, nanos: 7 }));
}

#[test]
fn end_time_out_of_range() {
    assert_eq!(run_at(MAX_SECONDS, 0).end_time(), Ok(at(MAX_SECONDS)));
    assert_eq!(run_at(MAX_SECONDS, 1).end_time(), Err(ScheduleError::TimeRange));
    assert_eq!(run_at(0, u64::MAX).end_time(), Err(ScheduleError::TimeRange));
}

#[test]
fn extract_two_pairs_in_order() {
    let runs = extract_schedule(&Some(two_pair_table())).unwrap();
    assert_eq!(runs.len(), 2);
    assert_eq!(runs[0].game, "Super Mario 64");
    assert_eq!(runs[0].category, "Super Mario 64");
    assert_eq!(runs[0].platform, "Any%");
    assert_eq!(runs[0].runners, "Alice");
    assert_eq!(runs[0].host, "Bob");
    assert_eq!(runs[0].setup_time, 600);
    assert_eq!(runs[0].run_time, 1200);
    assert_eq!(runs[0].start_time, at(1578241800));
    assert_eq!(runs[1].game, "Celeste");
    assert_eq!(runs[1].runners, "Carol, Dave");
    assert_eq!(runs[1].category, "Any%");
    assert_eq!(runs[1].platform, "PC");
    assert_eq!(runs[1].host, "Erin");
    assert_eq!(runs[1].setup_time, 300);
    assert_eq!(runs[1].run_time, 1800);
    assert_eq!(runs[1].start_time, at(1578243000));
}

#[test]
fn extract_keeps_multiline_text() {
    let table = vec![
        cells(&["2020-01-05T16:30:00+00:00", "Game\nPart 2", "A  B", "0:00:00"]),
        cells(&["1:00:00", "Cat \u{2014} Plat", "H"]),
    ];
    let runs = extract_schedule(&Some(table)).unwrap();
    assert_eq!(runs[0].game, "Game\nPart 2");
    assert_eq!(runs[0].runners, "A  B");
}

#[test]
fn extract_empty_table() {
    assert_eq!(extract_schedule(&Some(Vec::new())).unwrap().len(), 0);
}

#[test]
fn extract_odd_row_count() {
    let mut table = two_pair_table();
    table.pop();
    let e = extract_schedule(&Some(table)).unwrap_err();
    assert_eq!(e, ScheduleError::OddRowCount { rows: 3 });
    assert!(e.is_structural());
}

#[test]
fn extract_missing_table() {
    assert_eq!(extract_schedule(&None), Err(ScheduleError::MissingTable));
}

#[test]
fn extract_bad_top_row() {
    let mut table = two_pair_table();
    table[2].pop();
    assert_eq!(extract_schedule(&Some(table)), Err(ScheduleError::TopRow { cells: 3 }));
}

#[test]
fn extract_bad_bottom_row() {
    let mut table = two_pair_table();
    table[1].push("extra".to_string());
    assert_eq!(extract_schedule(&Some(table)), Err(ScheduleError::BottomRow { cells: 4 }));
}

#[test]
fn extract_bad_category_platform() {
    let mut table = two_pair_table();
    table[3][1] = "Any% PC".to_string();
    assert_eq!(extract_schedule(&Some(table)), Err(ScheduleError::CategoryPlatform));
}

#[test]
fn extract_bad_durations_and_time() {
    let mut table = two_pair_table();
    table[0][3] = "10 minutes".to_string();
    assert_eq!(extract_schedule(&Some(table)), Err(ScheduleError::Format));
    let mut table = two_pair_table();
    table[3][0] = "0:30".to_string();
    assert_eq!(extract_schedule(&Some(table)), Err(ScheduleError::Format));
    let mut table = two_pair_table();
    table[2][0] = "tomorrow".to_string();
    assert_eq!(extract_schedule(&Some(table)), Err(ScheduleError::TimeFormat));
}

#[test]
fn cells_of_one_pair() {
    let table = two_pair_table();
    let run = run_from_cells(&table[2], &table[3]).unwrap();
    assert_eq!(run.game, "Celeste");
    assert_eq!(run_from_cells(&table[3], &table[2]), Err(ScheduleError::TopRow { cells: 3 }));
}

#[test]
fn schedules_compare_by_all_fields() {
    let a = extract_schedule(&Some(two_pair_table())).unwrap();
    let b = extract_schedule(&Some(two_pair_table())).unwrap();
    assert!(same_schedule(&a, &b));
    assert!(a == b);
    let mut c = extract_schedule(&Some(two_pair_table())).unwrap();
    c[1].host = "Frank".to_string();
    assert!(!same_schedule(&a, &c));
    assert!(!same_schedule(&a, &b[..1].iter().map(|r| r.duplicate()).collect()));
}

#[test]
fn identical_poll_emits_nothing() {
    let mut poller = Poller::new();
    assert_eq!(poller.on_fetched(extract_schedule(&Some(two_pair_table())).unwrap()), Action::Emit);
    assert_eq!(poller.on_fetched(extract_schedule(&Some(two_pair_table())).unwrap()), Action::Wait);
    assert_eq!(poller.schedule().unwrap().len(), 2);
}

#[test]
fn changed_field_emits_new_schedule() {
    let mut poller = Poller::new();
    assert_eq!(poller.on_fetched(extract_schedule(&Some(two_pair_table())).unwrap()), Action::Emit);
    let mut table = two_pair_table();
    table[0][3] = "0:11:00".to_string();
    assert_eq!(poller.on_fetched(extract_schedule(&Some(table)).unwrap()), Action::Emit);
    assert_eq!(poller.schedule().unwrap()[0].setup_time, 660);
    assert_eq!(poller.schedule().unwrap()[1].game, "Celeste");
}

#[test]
fn stops_when_last_run_has_ended() {
    let mut poller = Poller::new();
    poller.on_fetched(vec![run_at(100, 50), run_at(200, 50)]);
    assert_eq!(poller.on_woke(at(250)), Ok(Action::Finish));
    assert_eq!(poller.on_woke(at(1000)), Ok(Action::Finish));
    assert_eq!(poller.on_woke(at(249)), Ok(Action::Fetch));
    assert_eq!(
        poller.on_woke(Timestamp { secs: 249, nanos: 999_999_999 }),
        Ok(Action::Fetch)
    );
}

#[test]
fn empty_schedule_stops_at_once() {
    let mut poller = Poller::new();
    assert_eq!(poller.on_woke(at(0)), Ok(Action::Fetch));
    assert_eq!(poller.on_fetched(Vec::new()), Action::Emit);
    assert_eq!(poller.on_woke(at(i64::MIN)), Ok(Action::Finish));
    assert_eq!(is_finished(&Vec::new(), at(0)), Ok(true));
}

#[test]
fn unrepresentable_end_is_an_error() {
    let runs = vec![run_at(MAX_SECONDS, 10)];
    assert_eq!(is_finished(&runs, at(0)), Err(ScheduleError::TimeRange));
    let mut poller = Poller::new();
    poller.on_fetched(runs);
    assert_eq!(poller.on_woke(at(0)), Err(ScheduleError::TimeRange));
}

#[test]
fn end_to_end_two_pairs_in_the_past() {
    let now = at(1578300000);
    let mut poller = Poller::new();
    let mut emitted: Vec<usize> = Vec::new();
    let mut fetches = 0;
    let mut action = Action::Fetch;
    loop {
        match action {
            Action::Fetch => {
                fetches += 1;
                action = poller.on_fetched(extract_schedule(&Some(two_pair_table())).unwrap());
            }
            Action::Emit => {
                emitted.push(poller.schedule().unwrap().len());
                action = poller.on_woke(now).unwrap();
            }
            Action::Wait => action = poller.on_woke(now).unwrap(),
            Action::Finish => break,
        }
    }
    assert_eq!(emitted, vec![2]);
    assert_eq!(fetches, 1);
}

#[test]
fn end_to_end_refetch_then_stop() {
    let mut poller = Poller::new();
    assert_eq!(poller.on_fetched(extract_schedule(&Some(two_pair_table())).unwrap()), Action::Emit);
    assert_eq!(poller.schedule().unwrap().len(), 2);
    // the last run ends at 16:50 + 30 min = 1578244800
    assert_eq!(poller.on_woke(at(1578244799)), Ok(Action::Fetch));
    assert_eq!(poller.on_fetched(extract_schedule(&Some(two_pair_table())).unwrap()), Action::Wait);
    assert_eq!(poller.on_woke(at(1578244800)), Ok(Action::Finish));
}

#[test]
fn hostname_before_first_dot() {
    assert_eq!(short_hostname("box.example.org"), Ok("box".to_string()));
    assert_eq!(short_hostname("plain"), Ok("plain".to_string()));
    assert_eq!(short_hostname(""), Err(ScheduleError::EmptyHostname));
}
