use vstd::prelude::*;
use crate::duration::{duration_result, parse_duration};
use crate::error::ScheduleError;
use crate::instant::{parse_timestamp, timestamp_result};
use crate::run::{runs_view, Run, RunView};
use crate::text::texts;

verus! {

/// The separator between category and platform: an em dash between spaces.
pub open spec fn separator() -> Seq<char> {
    seq![' ', '\u{2014}', ' ']
}

/// The first position at or after `from` where `sep` occurs in `s`.
pub open spec fn first_match(s: Seq<char>, sep: Seq<char>, from: int) -> Option<int>
    decreases s.len() - from,
{
    if from < 0 || sep.len() == 0 || from + sep.len() > s.len() {
        None
    } else if s.subrange(from, from + sep.len()) == sep {
        Some(from)
    } else {
        first_match(s, sep, from + 1)
    }
}

/// Category and platform: the text before and after the separator, where
/// the separator splits the text into exactly two non-empty parts.
pub open spec fn category_platform_of(s: Seq<char>) -> Option<(Seq<char>, Seq<char>)> {
    match first_match(s, separator(), 0) {
        Some(i) => if i > 0 && i + 3 < s.len() && first_match(s, separator(), i + 3) is None {
            Some((s.subrange(0, i), s.subrange(i + 3, s.len() as int)))
        } else {
            None
        },
        None => None,
    }
}

/// The first position at or after `from` where the separator occurs.
fn find_separator(text: &str, from: usize) -> (r: Option<usize>)
    requires
        from <= text@.len(),
    ensures
        match r {
            Some(i) => first_match(text@, separator(), from as int) == Some(i as int) && i + 3
                <= text@.len(),
            None => first_match(text@, separator(), from as int) is None,
        },
{
    let n = text.unicode_len();
    let mut i: usize = from;
    while n >= 3 && i <= n - 3
        invariant
            n == text@.len(),
            from <= i,
            first_match(text@, separator(), from as int) == first_match(
                text@,
                separator(),
                i as int,
            ),
        decreases n - i,
    {
        let a = text.get_char(i);
        let b = text.get_char(i + 1);
        let c = text.get_char(i + 2);
        let ghost window = text@.subrange(i as int, i + 3);
        if a == ' ' && b == '\u{2014}' && c == ' ' {
            assert(window =~= separator());
            return Some(i);
        }
        assert(window[0] == a && window[1] == b && window[2] == c);
        assert(window != separator()) by {
            if window == separator() {
                assert(separator()[0] == ' ' && separator()[1] == '\u{2014}' && separator()[2]
                    == ' ');
            }
        }
        i = i + 1;
    }
    assert(first_match(text@, separator(), i as int) is None);
    None
}

/// Splits combined category/platform text at its separator; a structural
/// error unless that gives exactly two non-empty parts.
pub fn split_category_platform(text: &str) -> (r: Result<(String, String), ScheduleError>)
    ensures
        match category_platform_of(text@) {
            Some(p) => r is Ok && r->Ok_0.0@ == p.0 && r->Ok_0.1@ == p.1,
            None => r == Err::<(String, String), ScheduleError>(ScheduleError::CategoryPlatform),
        },
{
    let n = text.unicode_len();
    let i = match find_separator(text, 0) {
        Some(i) => i,
        None => return Err(ScheduleError::CategoryPlatform),
    };
    if i == 0 || i + 3 >= n {
        return Err(ScheduleError::CategoryPlatform);
    }
    if find_separator(text, i + 3).is_some() {
        return Err(ScheduleError::CategoryPlatform);
    }
    let category = String::from_str(text.substring_char(0, i));
    let platform = String::from_str(text.substring_char(i + 3, n));
    Ok((category, platform))
}

/// The run that a top row and a bottom row of cell texts describe, or the
/// first reason, in reading order, why they describe none.
pub open spec fn run_from_rows(top: Seq<Seq<char>>, bottom: Seq<Seq<char>>) -> Result<
    RunView,
    ScheduleError,
> {
    if top.len() != 4 {
        Err(ScheduleError::TopRow { cells: top.len() as usize })
    } else if bottom.len() != 3 {
        Err(ScheduleError::BottomRow { cells: bottom.len() as usize })
    } else {
        match category_platform_of(bottom[1]) {
            None => Err(ScheduleError::CategoryPlatform),
            Some(cp) => match duration_result(top[3]) {
                Err(e) => Err(e),
                Ok(setup) => match timestamp_result(top[0]) {
                    Err(e) => Err(e),
                    Ok(start) => match duration_result(bottom[0]) {
                        Err(e) => Err(e),
                        Ok(run_time) => Ok(
                            RunView {
                                game: top[1],
                                category: cp.0,
                                platform: cp.1,
                                runners: top[2],
                                host: bottom[2],
                                setup_time: setup,
                                start_time: start,
                                run_time,
                            },
                        ),
                    },
                },
            },
        }
    }
}

/// The runs of the first `k` row pairs, or the first error among them.
pub open spec fn runs_of_pairs(rows: Seq<Seq<Seq<char>>>, k: nat) -> Result<
    Seq<RunView>,
    ScheduleError,
>
    decreases k,
{
    if k == 0 {
        Ok(Seq::empty())
    } else {
        match runs_of_pairs(rows, (k - 1) as nat) {
            Err(e) => Err(e),
            Ok(prev) => match run_from_rows(rows[2 * k - 2], rows[2 * k - 1]) {
                Err(e) => Err(e),
                Ok(r) => Ok(prev.push(r)),
            },
        }
    }
}

/// The schedule that a table body describes; `None` stands for a document
/// without the schedule table or without its body.
pub open spec fn schedule_of(body: Option<Seq<Seq<Seq<char>>>>) -> Result<
    Seq<RunView>,
    ScheduleError,
> {
    match body {
        None => Err(ScheduleError::MissingTable),
        Some(rows) => if rows.len() % 2 == 1 {
            Err(ScheduleError::OddRowCount { rows: rows.len() as usize })
        } else {
            runs_of_pairs(rows, rows.len() / 2)
        },
    }
}

/// The cell texts of each row.
pub open spec fn rows_view(rows: Seq<Vec<String>>) -> Seq<Seq<Seq<char>>> {
    rows.map_values(|row: Vec<String>| texts(row@))
}

pub open spec fn body_view(body: Option<Vec<Vec<String>>>) -> Option<Seq<Seq<Seq<char>>>> {
    match body {
        Some(rows) => Some(rows_view(rows@)),
        None => None,
    }
}

/// Builds the run that a top row and a bottom row describe.
pub fn run_from_cells(top: &Vec<String>, bottom: &Vec<String>) -> (r: Result<Run, ScheduleError>)
    ensures
        match run_from_rows(texts(top@), texts(bottom@)) {
            Ok(v) => r is Ok && r->Ok_0@ == v,
            Err(e) => r == Err::<Run, ScheduleError>(e),
        },
{
    if top.len() != 4 {
        return Err(ScheduleError::TopRow { cells: top.len() });
    }
    if bottom.len() != 3 {
        return Err(ScheduleError::BottomRow { cells: bottom.len() });
    }
    assert(texts(bottom@)[1] == bottom@[1]@ && texts(bottom@)[0] == bottom@[0]@
        && texts(bottom@)[2] == bottom@[2]@);
    assert(texts(top@)[0] == top@[0]@ && texts(top@)[1] == top@[1]@ && texts(top@)[2]
        == top@[2]@ && texts(top@)[3] == top@[3]@);
    let (category, platform) = match split_category_platform(bottom[1].as_str()) {
        Ok(p) => p,
        Err(e) => return Err(e),
    };
    let setup_time = match parse_duration(top[3].as_str()) {
        Ok(d) => d,
        Err(e) => return Err(e),
    };
    let start_time = match parse_timestamp(top[0].as_str()) {
        Ok(t) => t,
        Err(e) => return Err(e),
    };
    let run_time = match parse_duration(bottom[0].as_str()) {
        Ok(d) => d,
        Err(e) => return Err(e),
    };
    Ok(
        Run {
            game: top[1].clone(),
            category,
            platform,
            runners: top[2].clone(),
            host: bottom[2].clone(),
            setup_time,
            start_time,
            run_time,
        },
    )
}

/// Turns the rows of the schedule table's body, each given by the trimmed
/// texts of its cells, into runs: one run for each consecutive pair of a top
/// row and a bottom row, in order.
pub fn extract_schedule(body: &Option<Vec<Vec<String>>>) -> (r: Result<Vec<Run>, ScheduleError>)
    ensures
        match schedule_of(body_view(*body)) {
            Ok(runs) => r is Ok && runs_view(r->Ok_0@) == runs,
            Err(e) => r == Err::<Vec<Run>, ScheduleError>(e),
        },
{
    let rows = match body {
        Some(rows) => rows,
        None => return Err(ScheduleError::MissingTable),
    };
    let ghost rv = rows_view(rows@);
    if rows.len() % 2 == 1 {
        return Err(ScheduleError::OddRowCount { rows: rows.len() });
    }
    let pairs = rows.len() / 2;
    let mut out: Vec<Run> = Vec::new();
    let mut k: usize = 0;
    assert(runs_view(out@) =~= Seq::<RunView>::empty());
    assert(pairs * 2 == rows@.len());
    assert(body_view(*body) == Some(rv));
    while k < pairs
        invariant
            k <= pairs,
            pairs * 2 == rows@.len(),
            pairs * 2 <= usize::MAX,
            rv == rows_view(rows@),
            body_view(*body) == Some(rv),
            runs_of_pairs(rv, k as nat) == Ok::<Seq<RunView>, ScheduleError>(runs_view(out@)),
        decreases pairs - k,
    {
        let ghost prev = out@;
        assert(rv[2 * k] == texts(rows@[2 * k]@));
        assert(rv[2 * k + 1] == texts(rows@[2 * k + 1]@));
        let run = match run_from_cells(&rows[2 * k], &rows[2 * k + 1]) {
            Ok(run) => run,
            Err(e) => {
                proof {
                    assert(run_from_rows(rv[2 * k], rv[2 * k + 1]) == Err::<RunView, ScheduleError>(e));
                    assert(runs_of_pairs(rv, (k + 1) as nat) == Err::<Seq<RunView>, ScheduleError>(e));
                    lemma_error_persists(rv, (k + 1) as nat, pairs as nat);
                }
                return Err(e);
            },
        };
        out.push(run);
        assert(runs_view(out@) =~= runs_view(prev).push(run@));
        k = k + 1;
    }
    assert(schedule_of(body_view(*body)) == runs_of_pairs(rv, pairs as nat));
    Ok(out)
}

/// Once a pair fails, every longer prefix of pairs fails with the same error.
proof fn lemma_error_persists(rows: Seq<Seq<Seq<char>>>, k: nat, n: nat)
    requires
        k <= n,
        runs_of_pairs(rows, k) is Err,
    ensures
        runs_of_pairs(rows, n) == runs_of_pairs(rows, k),
    decreases n - k,
{
    if k < n {
        lemma_error_persists(rows, k, (n - 1) as nat);
    }
}

/// Order is kept and nothing is dropped or added: a table that extracts
/// holds one run for each pair of rows, the run at position `k` built from
/// rows `2k` and `2k + 1`.
pub proof fn lemma_one_run_per_pair(rows: Seq<Seq<Seq<char>>>)
    requires
        schedule_of(Some(rows)) is Ok,
    ensures
        rows.len() % 2 == 0,
        schedule_of(Some(rows))->Ok_0.len() == rows.len() / 2,
        forall|k: int|
            0 <= k < rows.len() / 2 ==> run_from_rows(rows[2 * k], rows[2 * k + 1]) == Ok::<
                RunView,
                ScheduleError,
            >(#[trigger] schedule_of(Some(rows))->Ok_0[k]),
{
    lemma_pairs_in_order(rows, rows.len() / 2);
}

/// A table body with an odd number of rows describes no whole runs: it fails
/// with a structural error.
pub proof fn lemma_odd_row_count_fails(rows: Seq<Seq<Seq<char>>>)
    requires
        rows.len() % 2 == 1,
    ensures
        schedule_of(Some(rows)) == Err::<Seq<RunView>, ScheduleError>(
            ScheduleError::OddRowCount { rows: rows.len() as usize },
        ),
        schedule_of(Some(rows))->Err_0.spec_is_structural(),
{
}

proof fn lemma_pairs_in_order(rows: Seq<Seq<Seq<char>>>, n: nat)
    requires
        runs_of_pairs(rows, n) is Ok,
    ensures
        runs_of_pairs(rows, n)->Ok_0.len() == n,
        forall|k: int|
            0 <= k < n ==> run_from_rows(rows[2 * k], rows[2 * k + 1]) == Ok::<
                RunView,
                ScheduleError,
            >(#[trigger] runs_of_pairs(rows, n)->Ok_0[k]),
    decreases n,
{
    if n > 0 {
        lemma_pairs_in_order(rows, (n - 1) as nat);
        let prev = runs_of_pairs(rows, (n - 1) as nat)->Ok_0;
        assert forall|k: int| 0 <= k < n implies run_from_rows(rows[2 * k], rows[2 * k + 1])
            == Ok::<RunView, ScheduleError>(#[trigger] runs_of_pairs(rows, n)->Ok_0[k]) by {
            if k < n - 1 {
                assert(runs_of_pairs(rows, n)->Ok_0[k] == prev[k]);
            }
        }
    }
}

} // verus!
