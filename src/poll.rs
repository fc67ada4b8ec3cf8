use vstd::prelude::*;
use crate::error::ScheduleError;
use crate::instant::Timestamp;
use crate::run::{end_of, runs_view, same_schedule, Run, RunView};

verus! {

/// Seconds to wait between two polls of the schedule.
pub const POLL_INTERVAL_SECONDS: u64 = 60;

/// What the loop around a `Poller` does next.
#[derive(Clone, Copy, Debug, PartialEq, Eq, Structural)]
pub enum Action {
    /// Fetch and extract the schedule, then hand it to `on_fetched`.
    Fetch,
    /// Write the poller's current schedule out, then wait one interval and
    /// call `on_woke`.
    Emit,
    /// Write nothing; wait one interval and call `on_woke`.
    Wait,
    /// The event is over: stop polling.
    Finish,
}

/// Whether a schedule is over at `now`: an empty one always is; otherwise its
/// last run must end at or before `now`, and an end that cannot be computed
/// is an error.
pub open spec fn finish_check(runs: Seq<RunView>, now: Timestamp) -> Result<bool, ScheduleError> {
    if runs.len() == 0 {
        Ok(true)
    } else {
        match end_of(runs.last()) {
            None => Err(ScheduleError::TimeRange),
            Some(end) => Ok(end.spec_at_or_before(now)),
        }
    }
}

/// The schedule kept and the action taken when a freshly extracted schedule
/// arrives: the first one, or one that differs from the kept one, replaces it
/// and is emitted; an equal one is dropped and nothing is emitted.
pub open spec fn after_fetch(current: Option<Seq<RunView>>, fresh: Seq<RunView>) -> (
    Option<Seq<RunView>>,
    Action,
) {
    match current {
        Some(c) => if c == fresh {
            (current, Action::Wait)
        } else {
            (Some(fresh), Action::Emit)
        },
        None => (Some(fresh), Action::Emit),
    }
}

/// The action taken on waking at `now`: stop where the kept schedule is
/// over, fetch again where it is not or where nothing is kept yet.
pub open spec fn after_wake(current: Option<Seq<RunView>>, now: Timestamp) -> Result<
    Action,
    ScheduleError,
> {
    match current {
        None => Ok(Action::Fetch),
        Some(c) => match finish_check(c, now) {
            Ok(true) => Ok(Action::Finish),
            Ok(false) => Ok(Action::Fetch),
            Err(e) => Err(e),
        },
    }
}

/// Decides whether a schedule is over at `now`.
pub fn is_finished(runs: &Vec<Run>, now: Timestamp) -> (r: Result<bool, ScheduleError>)
    ensures
        r == finish_check(runs_view(runs@), now),
{
    if runs.len() == 0 {
        return Ok(true);
    }
    let last = &runs[runs.len() - 1];
    assert(runs_view(runs@).last() == last@);
    match last.end_time() {
        Ok(end) => Ok(end.at_or_before(now)),
        Err(e) => Err(e),
    }
}

/// The decisions of the synchronization loop. It keeps the schedule last
/// emitted; the loop around it performs the fetching, writing and waiting.
pub struct Poller {
    current: Option<Vec<Run>>,
}

impl Poller {
    /// The schedule kept, if any.
    pub closed spec fn kept(&self) -> Option<Seq<RunView>> {
        match self.current {
            Some(v) => Some(runs_view(v@)),
            None => None,
        }
    }

    /// A poller that keeps nothing yet; its loop starts with `Action::Fetch`.
    pub fn new() -> (r: Poller)
        ensures
            r.kept() is None,
    {
        Poller { current: None }
    }

    /// Takes a freshly extracted schedule.
    pub fn on_fetched(&mut self, fresh: Vec<Run>) -> (r: Action)
        ensures
            (final(self).kept(), r) == after_fetch(old(self).kept(), runs_view(fresh@)),
    {
        let unchanged = match &self.current {
            Some(c) => same_schedule(c, &fresh),
            None => false,
        };
        if unchanged {
            Action::Wait
        } else {
            self.current = Some(fresh);
            Action::Emit
        }
    }

    /// Decides, on waking at `now`, whether polling goes on.
    pub fn on_woke(&self, now: Timestamp) -> (r: Result<Action, ScheduleError>)
        ensures
            r == after_wake(self.kept(), now),
    {
        match &self.current {
            None => Ok(Action::Fetch),
            Some(c) => match is_finished(c, now) {
                Ok(true) => Ok(Action::Finish),
                Ok(false) => Ok(Action::Fetch),
                Err(e) => Err(e),
            },
        }
    }

    /// The schedule kept, to be written out on `Action::Emit`.
    pub fn schedule(&self) -> (r: Option<&Vec<Run>>)
        ensures
            match r {
                Some(v) => self.kept() == Some(runs_view(v@)),
                None => self.kept() is None,
            },
    {
        match &self.current {
            Some(v) => Some(v),
            None => None,
        }
    }
}

/// A schedule equal to the one kept, however it was built, is not emitted
/// again and leaves the kept schedule as it was.
pub proof fn lemma_unchanged_schedule_is_not_emitted(kept: Seq<RunView>, fresh: Seq<RunView>)
    requires
        kept == fresh,
    ensures
        after_fetch(Some(kept), fresh) == (Some(kept), Action::Wait),
{
}

/// A schedule that differs from the kept one in any one field of any one run
/// is emitted once, whole, and replaces the kept one.
pub proof fn lemma_changed_run_is_emitted(kept: Seq<RunView>, fresh: Seq<RunView>, i: int)
    requires
        kept.len() == fresh.len(),
        0 <= i < kept.len(),
        kept[i] != fresh[i],
        forall|j: int| 0 <= j < kept.len() && j != i ==> kept[j] == fresh[j],
    ensures
        after_fetch(Some(kept), fresh) == (Some(fresh), Action::Emit),
{
    assert(kept != fresh);
}

/// A kept schedule whose last run ends at or before `now` stops the loop
/// without another fetch; one whose last run ends after `now` fetches again.
pub proof fn lemma_stops_once_last_run_ended(kept: Seq<RunView>, now: Timestamp)
    requires
        kept.len() > 0,
        end_of(kept.last()) is Some,
    ensures
        end_of(kept.last())->0.spec_at_or_before(now) ==> after_wake(Some(kept), now) == Ok::<
            Action,
            ScheduleError,
        >(Action::Finish),
        !end_of(kept.last())->0.spec_at_or_before(now) ==> after_wake(Some(kept), now) == Ok::<
            Action,
            ScheduleError,
        >(Action::Fetch),
{
}

/// An empty schedule is over at any time.
pub proof fn lemma_empty_schedule_stops(now: Timestamp)
    ensures
        after_wake(Some(Seq::<RunView>::empty()), now) == Ok::<Action, ScheduleError>(
            Action::Finish,
        ),
{
}

} // verus!
