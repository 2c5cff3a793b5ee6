use std::str::FromStr;
use vstd::prelude::*;
use vstd::string::*;

verus! {

/// The earliest instant the scheduler works with, in seconds since the Unix
/// epoch: the epoch itself, the first second of 1970.
pub const EARLIEST_INSTANT: i64 = 0;

/// The latest instant the scheduler works with, in seconds since the Unix
/// epoch: the last second of the year 2100. Cron schedules are evaluated
/// over the years 1970 to 2100.
pub const LATEST_INSTANT: i64 = 4_133_980_799;

/// Whether `expression` is a well-formed cron expression: seconds, minutes,
/// hours, day of month, month, day of week and, optionally, year.
pub uninterp spec fn cron_parses(expression: Seq<char>) -> bool;

/// The instant, in UTC, that the cron evaluator gives as the next one after
/// `after` at which the schedule written as `expression` is due; none if it
/// finds the schedule never due again.
pub uninterp spec fn cron_next_after(expression: Seq<char>, after: i64) -> Option<i64>;

/// Asks `cron::Schedule::from_str` whether `expression` parses. Trusted: the
/// answer depends on the expression alone.
#[verifier::external_body]
fn expression_parses(expression: &str) -> (parses: bool)
    ensures
        parses == cron_parses(expression@),
{
    cron::Schedule::from_str(expression).is_ok()
}

/// Takes the first item of `cron::Schedule::after`, for the schedule that
/// `expression` parses to and the UTC instant `after`. Trusted: the instant
/// returned depends on the two arguments alone and lies strictly after
/// `after`, since the search starts one second later.
#[verifier::external_body]
fn next_occurrence(expression: &str, after: i64) -> (next: Option<i64>)
    requires
        cron_parses(expression@),
        EARLIEST_INSTANT <= after <= LATEST_INSTANT,
    ensures
        next == cron_next_after(expression@, after),
        next matches Some(t) ==> t > after,
{
    let schedule = cron::Schedule::from_str(expression).ok()?;
    let start = chrono::DateTime::<chrono::Utc>::from_timestamp(after, 0)?;
    schedule.after(&start).next().map(|t| t.timestamp())
}

/// Whether `instant` lies in the range the scheduler works with.
pub open spec fn in_range(instant: i64) -> bool {
    EARLIEST_INSTANT <= instant <= LATEST_INSTANT
}

/// The next instant after `after` at which `expression` is due. There is
/// none for an instant out of range.
pub open spec fn next_due(expression: Seq<char>, after: i64) -> Option<i64> {
    if !in_range(after) {
        None
    } else if cron_next_after(expression, after) is Some && cron_next_after(
        expression,
        after,
    )->Some_0 > after {
        cron_next_after(expression, after)
    } else {
        None
    }
}

/// A cron schedule: an expression that is known to parse.
pub struct Schedule {
    expression: String,
}

impl View for Schedule {
    type V = Seq<char>;

    closed spec fn view(&self) -> Seq<char> {
        self.expression@
    }
}

impl Schedule {
    #[verifier::type_invariant]
    spec fn parses(&self) -> bool {
        cron_parses(self.expression@)
    }

    /// Parses a cron expression. Fails exactly on an expression that is not
    /// well formed.
    pub fn parse(expression: &str) -> (schedule: Option<Schedule>)
        ensures
            schedule is Some <==> cron_parses(expression@),
            schedule matches Some(s) ==> s@ == expression@,
    {
        if expression_parses(expression) {
            Some(Schedule { expression: expression.to_owned() })
        } else {
            None
        }
    }

    /// The expression this schedule was parsed from.
    pub fn source(&self) -> (expression: &str)
        ensures
            expression@ == self@,
            cron_parses(expression@),
    {
        proof {
            use_type_invariant(self);
        }
        self.expression.as_str()
    }

    /// The next instant strictly after `after` at which the schedule is due.
    pub fn next_after(&self, after: i64) -> (next: Option<i64>)
        ensures
            next == next_due(self@, after),
    {
        if after < EARLIEST_INSTANT || after > LATEST_INSTANT {
            return None;
        }
        proof {
            use_type_invariant(self);
        }
        next_occurrence(self.expression.as_str(), after)
    }
}

impl Clone for Schedule {
    fn clone(&self) -> (copy: Self)
        ensures
            copy@ == self@,
    {
        proof {
            use_type_invariant(self);
        }
        Schedule { expression: self.expression.clone() }
    }
}

/// A due instant always lies after the instant that was asked about.
pub proof fn lemma_next_due_is_later(expression: Seq<char>, after: i64)
    ensures
        next_due(expression, after) matches Some(t) ==> t > after,
{
}

} // verus!
