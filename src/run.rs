use vstd::prelude::*;
use crate::error::ScheduleError;
use crate::instant::Timestamp;

verus! {

/// One scheduled activity of the event.
#[derive(Debug)]
pub struct Run {
    pub game: String,
    pub category: String,
    pub platform: String,
    pub runners: String,
    pub host: String,
    /// Seconds between the end of the previous run and the start of this one.
    pub setup_time: u64,
    pub start_time: Timestamp,
    /// The run's expected length in seconds.
    pub run_time: u64,
}

/// What a `Run` holds, with its texts as character sequences.
pub struct RunView {
    pub game: Seq<char>,
    pub category: Seq<char>,
    pub platform: Seq<char>,
    pub runners: Seq<char>,
    pub host: Seq<char>,
    pub setup_time: u64,
    pub start_time: Timestamp,
    pub run_time: u64,
}

impl View for Run {
    type V = RunView;

    open spec fn view(&self) -> RunView {
        RunView {
            game: self.game@,
            category: self.category@,
            platform: self.platform@,
            runners: self.runners@,
            host: self.host@,
            setup_time: self.setup_time,
            start_time: self.start_time,
            run_time: self.run_time,
        }
    }
}

/// When a run ends: its start moved by its run time, where representable.
pub open spec fn end_of(r: RunView) -> Option<Timestamp> {
    r.start_time.spec_plus_seconds(r.run_time)
}

/// The views of the runs of a schedule, in order.
pub open spec fn runs_view(v: Seq<Run>) -> Seq<RunView> {
    v.map_values(|r: Run| r@)
}

impl Run {
    /// The end of the run, `start_time + run_time`; a range error where that
    /// instant is not representable.
    pub fn end_time(&self) -> (r: Result<Timestamp, ScheduleError>)
        ensures
            match end_of(self@) {
                Some(t) => r == Ok::<Timestamp, ScheduleError>(t),
                None => r == Err::<Timestamp, ScheduleError>(ScheduleError::TimeRange),
            },
    {
        self.start_time.plus_seconds(self.run_time)
    }

    /// A copy of the run with the same fields.
    pub fn duplicate(&self) -> (r: Run)
        ensures
            r@ == self@,
    {
        Run {
            game: self.game.clone(),
            category: self.category.clone(),
            platform: self.platform.clone(),
            runners: self.runners.clone(),
            host: self.host.clone(),
            setup_time: self.setup_time,
            start_time: self.start_time,
            run_time: self.run_time,
        }
    }
}

impl PartialEq for Run {
    fn eq(&self, other: &Run) -> (r: bool)
        ensures
            r == (self@ == other@),
    {
        self.game == other.game && self.category == other.category && self.platform
            == other.platform && self.runners == other.runners && self.host == other.host
            && self.setup_time == other.setup_time && self.start_time == other.start_time
            && self.run_time == other.run_time
    }
}

impl vstd::std_specs::cmp::PartialEqSpecImpl for Run {
    open spec fn obeys_eq_spec() -> bool {
        true
    }

    open spec fn eq_spec(&self, other: &Run) -> bool {
        self@ == other@
    }
}

/// Whether two schedules hold equal runs in the same order.
pub fn same_schedule(a: &Vec<Run>, b: &Vec<Run>) -> (r: bool)
    ensures
        r == (runs_view(a@) == runs_view(b@)),
{
    if a.len() != b.len() {
        proof {
            assert(runs_view(a@).len() != runs_view(b@).len());
        }
        return false;
    }
    let mut i: usize = 0;
    while i < a.len()
        invariant
            i <= a@.len(),
            a@.len() == b@.len(),
            forall|j: int| 0 <= j < i ==> a@[j]@ == b@[j]@,
        decreases a.len() - i,
    {
        if !(a[i] == b[i]) {
            proof {
                assert(runs_view(a@)[i as int] != runs_view(b@)[i as int]);
            }
            return false;
        }
        i = i + 1;
    }
    proof {
        assert(runs_view(a@) =~= runs_view(b@));
    }
    true
}

} // verus!
