use vstd::prelude::*;
use crate::error::ScheduleError;
use crate::text::{decimal_of, split_on, split_text, parse_u64, texts, lemma_split_on_nonempty};

verus! {

/// The seconds that `H:MM:SS`-shaped text stands for, before any bound on
/// the result: `None` unless it has exactly three colon-separated parts that
/// each read as an unsigned decimal number.
pub open spec fn duration_seconds(s: Seq<char>) -> Option<int> {
    let parts = split_on(s, ':');
    if parts.len() == 3 && decimal_of(parts[0]) is Some && decimal_of(parts[1]) is Some
        && decimal_of(parts[2]) is Some {
        Some(
            decimal_of(parts[0])->0 * 3600 + decimal_of(parts[1])->0 * 60 + decimal_of(
                parts[2],
            )->0,
        )
    } else {
        None
    }
}

/// What parsing a duration gives: its seconds, a format error, or a range
/// error where the seconds do not fit in 64 bits.
pub open spec fn duration_result(s: Seq<char>) -> Result<u64, ScheduleError> {
    match duration_seconds(s) {
        None => Err(ScheduleError::Format),
        Some(v) => if v <= u64::MAX {
            Ok(v as u64)
        } else {
            Err(ScheduleError::TimeRange)
        },
    }
}

/// Parses `hours:minutes:seconds` into a number of seconds.
pub fn parse_duration(text: &str) -> (r: Result<u64, ScheduleError>)
    ensures
        r == duration_result(text@),
{
    let parts = split_text(text, ':');
    proof {
        lemma_split_on_nonempty(text@, ':');
    }
    if parts.len() != 3 {
        return Err(ScheduleError::Format);
    }
    assert(texts(parts@)[0] == parts@[0]@);
    assert(texts(parts@)[1] == parts@[1]@);
    assert(texts(parts@)[2] == parts@[2]@);
    let hours = match parse_u64(parts[0].as_str()) {
        Some(v) => v,
        None => return Err(ScheduleError::Format),
    };
    let minutes = match parse_u64(parts[1].as_str()) {
        Some(v) => v,
        None => return Err(ScheduleError::Format),
    };
    let seconds = match parse_u64(parts[2].as_str()) {
        Some(v) => v,
        None => return Err(ScheduleError::Format),
    };
    let total = (hours as u128) * 3600 + (minutes as u128) * 60 + (seconds as u128);
    if total > u64::MAX as u128 {
        Err(ScheduleError::TimeRange)
    } else {
        Ok(total as u64)
    }
}

} // verus!
