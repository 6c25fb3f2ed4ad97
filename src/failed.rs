use vstd::prelude::*;
use std::collections::VecDeque;
use crate::convert::IntoProblem;
use crate::problem::{Problem, ProblemView};

verus! {

/// The message a program aborts with when it failed to do `description`
/// because of `problem`.
pub open spec fn failure_text(description: Seq<char>, problem: ProblemView) -> Seq<char> {
    "Failed to "@ + description + " due to: "@ + problem.rendered()
}

/// The message a program aborts with when it failed to do `description` and
/// there is no problem to report.
pub open spec fn missing_text(description: Seq<char>) -> Seq<char> {
    "Failed to "@ + description
}

/// `r` is the value of `res`, or the abort message for its error.
pub open spec fn failed_to_outcome<O, E: IntoProblem>(
    res: Result<O, E>,
    description: Seq<char>,
    r: Result<O, String>,
) -> bool {
    match res {
        Ok(v) => r == Ok::<O, String>(v),
        Err(e) => r matches Err(m) && m@ == failure_text(description, e.problem_view()),
    }
}

/// The abort message for `problem`: `"Failed to <description> due to:
/// <problem>"`.
pub fn failure_message(description: &str, problem: &Problem) -> (r: String)
    ensures
        r@ == failure_text(description@, problem@),
{
    let mut out = String::from_str("Failed to ");
    out.append(description);
    out.append(" due to: ");
    problem.write_to(&mut out);
    out
}

/// Ends the good path of a program: gives the value, or the message that the
/// program is to abort with, for errors that are not bugs.
pub trait FailedTo<O> {
    fn or_failed_to(self, message: &str) -> Result<O, String>;
}

impl<O, E: IntoProblem> FailedTo<O> for Result<O, E> {
    /// `Ok(v)` gives `v`; `Err(e)` gives `"Failed to <message> due to: <e>"`.
    fn or_failed_to(self, message: &str) -> (r: Result<O, String>)
        ensures
            failed_to_outcome(self, message@, r),
    {
        match self {
            Ok(v) => Ok(v),
            Err(e) => Err(failure_message(message, &e.into_problem())),
        }
    }
}

impl<O> FailedTo<O> for Option<O> {
    /// `Some(v)` gives `v`; `None` gives `"Failed to <message>"`.
    fn or_failed_to(self, message: &str) -> (r: Result<O, String>)
        ensures
            match self {
                Some(v) => r == Ok::<O, String>(v),
                None => r matches Err(m) && m@ == missing_text(message@),
            },
    {
        match self {
            Some(v) => Ok(v),
            None => {
                let mut out = String::from_str("Failed to ");
                out.append(message);
                Err(out)
            },
        }
    }
}

/// The report of a panic: `"thread '<name>' panicked at <location> with:
/// <payload>"` (without `at <location>` where the location is unknown), then the backtrace of the panic site under a `"--- Panicked"`
/// line where there is one. A thread without a name shows as `<unnamed>`.
pub open spec fn panic_text(
    thread_name: Option<&str>,
    location: Option<&str>,
    payload: Seq<char>,
    backtrace: Option<String>,
) -> Seq<char> {
    "thread '"@ + (match thread_name {
        Some(name) => name@,
        None => "<unnamed>"@,
    }) + (match location {
        Some(place) => "' panicked at "@ + place@ + " with: "@ + payload,
        None => "' panicked with: "@ + payload,
    }) + (match backtrace {
        Some(b) => "\n--- Panicked\n"@ + b@,
        None => Seq::empty(),
    })
}

/// Renders the report of a panic from what the panic hook learnt of it.
pub fn format_panic(
    thread_name: Option<&str>,
    location: Option<&str>,
    payload: &str,
    backtrace: Option<String>,
) -> (r: String)
    ensures
        r@ == panic_text(thread_name, location, payload@, backtrace),
{
    let mut out = String::from_str("thread '");
    match thread_name {
        Some(name) => out.append(name),
        None => out.append("<unnamed>"),
    }
    match location {
        Some(place) => {
            out.append("' panicked at ");
            out.append(place);
            out.append(" with: ");
            out.append(payload);
        },
        None => {
            out.append("' panicked with: ");
            out.append(payload);
        },
    }
    match &backtrace {
        Some(b) => {
            out.append("\n--- Panicked\n");
            out.append(b.as_str());
        },
        None => {},
    }
    out
}

/// The items of `items`, in order, as a queue to take them from.
pub(crate) fn queue_of<T>(items: Vec<T>) -> (q: VecDeque<T>)
    ensures
        q@ == items@,
{
    let ghost all = items@;
    let mut rest = items;
    let mut q: VecDeque<T> = VecDeque::new();
    while rest.len() > 0
        invariant
            rest@ + q@ == all,
        decreases rest@.len(),
    {
        let ghost before = q@;
        let ghost r = rest@;
        let x = rest.pop().unwrap();
        q.push_front(x);
        assert(rest@ + q@ =~= r.drop_last() + (seq![r.last()] + before));
        assert(r =~= r.drop_last().push(r.last()));
        assert(rest@ + q@ =~= r + before);
    }
    assert(q@ =~= all);
    q
}

/// Results handed out one at a time, each unwrapped, or turned into the abort
/// message for its error.
pub struct ProblemIter<O, E> {
    items: VecDeque<Result<O, E>>,
    message: String,
}

impl<O, E: IntoProblem> ProblemIter<O, E> {
    /// The results not yet handed out.
    pub closed spec fn remaining(&self) -> Seq<Result<O, E>> {
        self.items@
    }

    /// What the program was doing, for the abort message.
    pub closed spec fn description(&self) -> Seq<char> {
        self.message@
    }

    /// The next result: its value, or the abort message for its error;
    /// `None` when all have been handed out.
    pub fn next(&mut self) -> (r: Option<Result<O, String>>)
        ensures
            final(self).description() == old(self).description(),
            old(self).remaining().len() == 0 ==> r is None && final(self).remaining() == old(self).remaining(),
            old(self).remaining().len() > 0 ==> {
                &&& final(self).remaining() == old(self).remaining().drop_first()
                &&& r matches Some(x) && failed_to_outcome(old(self).remaining()[0], old(self).description(), x)
            },
    {
        match self.items.pop_front() {
            Some(res) => Some(res.or_failed_to(self.message.as_str())),
            None => None,
        }
    }
}

/// Unwraps a sequence of results one by one, with the abort message for the
/// first error.
pub trait FailedToIter<O, E>: Sized {
    fn or_failed_to(self, message: &str) -> ProblemIter<O, E>;
}

impl<O, E: IntoProblem> FailedToIter<O, E> for Vec<Result<O, E>> {
    fn or_failed_to(self, message: &str) -> (r: ProblemIter<O, E>)
        ensures
            r.remaining() == self@,
            r.description() == message@,
    {
        ProblemIter { items: queue_of(self), message: String::from_str(message) }
    }
}

} // verus!
