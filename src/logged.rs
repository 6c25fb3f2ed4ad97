use vstd::prelude::*;
use std::collections::VecDeque;
use crate::convert::IntoProblem;
use crate::failed::queue_of;
use crate::problem::ProblemView;

verus! {

/// The level a record is to be logged at.
#[derive(Clone, Copy, Debug, PartialEq, Eq, Structural)]
pub enum LogLevel {
    Warn,
    Error,
}

/// A message to hand to the logger, at a level.
#[derive(Debug)]
pub struct LogRecord {
    pub level: LogLevel,
    pub message: String,
}

/// The message logged for a problem that the program continues past.
pub open spec fn continuing_text(problem: ProblemView) -> Seq<char> {
    "Continuing with error: "@ + problem.rendered()
}

/// `r` is the value of `res`, or the record to log at `level` for its error.
pub open spec fn logged_outcome<O, E: IntoProblem>(res: Result<O, E>, level: LogLevel, r: Result<O, LogRecord>) -> bool {
    match res {
        Ok(v) => r == Ok::<O, LogRecord>(v),
        Err(e) => r matches Err(rec) && rec.level == level && rec.message@ == continuing_text(
            e.problem_view(),
        ),
    }
}

fn log_outcome<O, E: IntoProblem>(res: Result<O, E>, level: LogLevel) -> (r: Result<O, LogRecord>)
    ensures
        logged_outcome(res, level, r),
{
    match res {
        Ok(v) => Ok(v),
        Err(e) => {
            let mut message = String::from_str("Continuing with error: ");
            e.into_problem().write_to(&mut message);
            Err(LogRecord { level, message })
        },
    }
}

/// Lets a program go on past an error that is not critical: gives the value,
/// or the record that reports the error to the logger.
pub trait OkOrLog<O> {
    fn ok_or_log_warn(self) -> Result<O, LogRecord>;

    fn ok_or_log_error(self) -> Result<O, LogRecord>;
}

impl<O, E: IntoProblem> OkOrLog<O> for Result<O, E> {
    /// `Ok(v)` gives `v`; `Err(e)` gives `"Continuing with error: <e>"` to
    /// log as a warning.
    fn ok_or_log_warn(self) -> (r: Result<O, LogRecord>)
        ensures
            logged_outcome(self, LogLevel::Warn, r),
    {
        log_outcome(self, LogLevel::Warn)
    }

    /// `Ok(v)` gives `v`; `Err(e)` gives `"Continuing with error: <e>"` to
    /// log as an error.
    fn ok_or_log_error(self) -> (r: Result<O, LogRecord>)
        ensures
            logged_outcome(self, LogLevel::Error, r),
    {
        log_outcome(self, LogLevel::Error)
    }
}

/// Results handed out one at a time, each as its value or as a warning to
/// log; dropping the warnings after logging them skips the failed items.
pub struct ProblemWarnLoggingIter<O, E> {
    items: VecDeque<Result<O, E>>,
}

impl<O, E: IntoProblem> ProblemWarnLoggingIter<O, E> {
    /// The results not yet handed out.
    pub closed spec fn remaining(&self) -> Seq<Result<O, E>> {
        self.items@
    }

    /// The next result, as its value or a warning; `None` when all have been
    /// handed out.
    pub fn next(&mut self) -> (r: Option<Result<O, LogRecord>>)
        ensures
            old(self).remaining().len() == 0 ==> r is None && final(self).remaining() == old(self).remaining(),
            old(self).remaining().len() > 0 ==> {
                &&& final(self).remaining() == old(self).remaining().drop_first()
                &&& r matches Some(x) && logged_outcome(old(self).remaining()[0], LogLevel::Warn, x)
            },
    {
        match self.items.pop_front() {
            Some(res) => Some(log_outcome(res, LogLevel::Warn)),
            None => None,
        }
    }
}

/// Results handed out one at a time, each as its value or as an error record
/// to log; dropping the records after logging them skips the failed items.
pub struct ProblemErrorLoggingIter<O, E> {
    items: VecDeque<Result<O, E>>,
}

impl<O, E: IntoProblem> ProblemErrorLoggingIter<O, E> {
    /// The results not yet handed out.
    pub closed spec fn remaining(&self) -> Seq<Result<O, E>> {
        self.items@
    }

    /// The next result, as its value or an error record; `None` when all have
    /// been handed out.
    pub fn next(&mut self) -> (r: Option<Result<O, LogRecord>>)
        ensures
            old(self).remaining().len() == 0 ==> r is None && final(self).remaining() == old(self).remaining(),
            old(self).remaining().len() > 0 ==> {
                &&& final(self).remaining() == old(self).remaining().drop_first()
                &&& r matches Some(x) && logged_outcome(old(self).remaining()[0], LogLevel::Error, x)
            },
    {
        match self.items.pop_front() {
            Some(res) => Some(log_outcome(res, LogLevel::Error)),
            None => None,
        }
    }
}

/// Turns a sequence of results into one of values and records to log.
pub trait OkOrLogIter<O, E>: Sized {
    fn ok_or_log_warn(self) -> ProblemWarnLoggingIter<O, E>;

    fn ok_or_log_error(self) -> ProblemErrorLoggingIter<O, E>;
}

impl<O, E: IntoProblem> OkOrLogIter<O, E> for Vec<Result<O, E>> {
    fn ok_or_log_warn(self) -> (r: ProblemWarnLoggingIter<O, E>)
        ensures
            r.remaining() == self@,
    {
        ProblemWarnLoggingIter { items: queue_of(self) }
    }

    fn ok_or_log_error(self) -> (r: ProblemErrorLoggingIter<O, E>)
        ensures
            r.remaining() == self@,
    {
        ProblemErrorLoggingIter { items: queue_of(self) }
    }
}

} // verus!
