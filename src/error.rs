use vstd::prelude::*;

verus! {

/// Why a schedule could not be extracted, parsed or used.
#[derive(Clone, Copy, Debug, PartialEq, Eq, Structural)]
pub enum ScheduleError {
    /// The schedule table or its body of rows is absent.
    MissingTable,
    /// The body holds an odd number of rows, so not whole runs.
    OddRowCount { rows: usize },
    /// A top row does not hold exactly four cells.
    TopRow { cells: usize },
    /// A bottom row does not hold exactly three cells.
    BottomRow { cells: usize },
    /// The category/platform text does not split into exactly two non-empty
    /// parts at its separator.
    CategoryPlatform,
    /// A duration is not three colon-separated unsigned integers.
    Format,
    /// A start time is not a timestamp in the site's format.
    TimeFormat,
    /// A time value lies outside the representable range.
    TimeRange,
    /// The host name is empty.
    EmptyHostname,
}

impl ScheduleError {
    /// Whether the error comes from the shape of the document.
    pub open spec fn spec_is_structural(self) -> bool {
        match self {
            ScheduleError::MissingTable => true,
            ScheduleError::OddRowCount { .. } => true,
            ScheduleError::TopRow { .. } => true,
            ScheduleError::BottomRow { .. } => true,
            ScheduleError::CategoryPlatform => true,
            _ => false,
        }
    }

    #[verifier::when_used_as_spec(spec_is_structural)]
    pub fn is_structural(self) -> (r: bool)
        ensures
            r == self.spec_is_structural(),
    {
        match self {
            ScheduleError::MissingTable => true,
            ScheduleError::OddRowCount { .. } => true,
            ScheduleError::TopRow { .. } => true,
            ScheduleError::BottomRow { .. } => true,
            ScheduleError::CategoryPlatform => true,
            _ => false,
        }
    }
}

} // verus!
