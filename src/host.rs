use vstd::prelude::*;
use crate::error::ScheduleError;
use crate::text::{split_on, split_text, texts, lemma_split_on_nonempty};

verus! {

/// The host label shown while loading: the host name up to its first `.`.
pub fn short_hostname(name: &str) -> (r: Result<String, ScheduleError>)
    ensures
        name@.len() == 0 ==> r == Err::<String, ScheduleError>(ScheduleError::EmptyHostname),
        name@.len() > 0 ==> r is Ok && r->Ok_0@ == split_on(name@, '.')[0],
{
    if name.unicode_len() == 0 {
        return Err(ScheduleError::EmptyHostname);
    }
    let mut parts = split_text(name, '.');
    proof {
        lemma_split_on_nonempty(name@, '.');
        assert(texts(parts@)[0] == parts@[0]@);
    }
    Ok(parts.swap_remove(0))
}

} // verus!
