use vstd::prelude::*;
use crate::cause::Cause;
use crate::problem::{Problem, ProblemView};

verus! {

/// Values that can stand as the cause of a `Problem`: the conversion used
/// wherever an error is handed on as a problem.
pub trait IntoProblem: Sized {
    /// The problem that this value converts to.
    spec fn problem_view(&self) -> ProblemView;

    /// Converts into a `Problem`; no backtrace is captured on the way.
    fn into_problem(self) -> (p: Problem)
        ensures
            p@ == self.problem_view(),
    ;
}

impl IntoProblem for Problem {
    open spec fn problem_view(&self) -> ProblemView {
        self@
    }

    fn into_problem(self) -> (p: Problem) {
        self
    }
}

impl IntoProblem for Cause {
    open spec fn problem_view(&self) -> ProblemView {
        ProblemView::of_cause(self@)
    }

    fn into_problem(self) -> (p: Problem) {
        Problem::from_error(self, false)
    }
}

impl IntoProblem for String {
    open spec fn problem_view(&self) -> ProblemView {
        ProblemView::of_cause(seq![self@])
    }

    fn into_problem(self) -> (p: Problem) {
        Problem::from_message(self.as_str(), false)
    }
}

impl<'a> IntoProblem for &'a str {
    open spec fn problem_view(&self) -> ProblemView {
        ProblemView::of_cause(seq![self@])
    }

    fn into_problem(self) -> (p: Problem) {
        Problem::from_message(self, false)
    }
}

// The conversions below let `?` turn a cause or a message into a `Problem`,
// as `into_problem` does. Their results are stated on each `from`; no spec
// function can build a `Problem`, which holds `String`s, so `from_spec` is
// left unstated.

impl From<Cause> for Problem {
    fn from(error: Cause) -> (p: Problem)
        ensures
            p@ == ProblemView::of_cause(error@),
    {
        error.into_problem()
    }
}

impl vstd::std_specs::convert::FromSpecImpl<Cause> for Problem {
    open spec fn obeys_from_spec() -> bool {
        false
    }

    open spec fn from_spec(v: Cause) -> Problem {
        arbitrary()
    }
}

impl From<String> for Problem {
    fn from(message: String) -> (p: Problem)
        ensures
            p@ == ProblemView::of_cause(seq![message@]),
    {
        message.into_problem()
    }
}

impl vstd::std_specs::convert::FromSpecImpl<String> for Problem {
    open spec fn obeys_from_spec() -> bool {
        false
    }

    open spec fn from_spec(v: String) -> Problem {
        arbitrary()
    }
}

impl<'a> From<&'a str> for Problem {
    fn from(message: &'a str) -> (p: Problem)
        ensures
            p@ == ProblemView::of_cause(seq![message@]),
    {
        message.into_problem()
    }
}

impl<'a> vstd::std_specs::convert::FromSpecImpl<&'a str> for Problem {
    open spec fn obeys_from_spec() -> bool {
        false
    }

    open spec fn from_spec(v: &'a str) -> Problem {
        arbitrary()
    }
}

/// `r` is `Ok` with the value of `Ok`, and `Err` with a problem converted
/// from the error of `Err`.
pub open spec fn problem_mapped<O, E: IntoProblem>(res: Result<O, E>, r: Result<O, Problem>) -> bool {
    match res {
        Ok(v) => r == Ok::<O, Problem>(v),
        Err(e) => r matches Err(p) && p@ == e.problem_view(),
    }
}

/// `r` is `Ok` with the value of `Ok`, `Err` with a problem converted from
/// the error of `Err(Some(_))`, and `Err` with `fallback` for `Err(None)`.
pub open spec fn problem_mapped_or<O, E: IntoProblem>(
    res: Result<O, Option<E>>,
    fallback: ProblemView,
    r: Result<O, Problem>,
) -> bool {
    match res {
        Ok(v) => r == Ok::<O, Problem>(v),
        Err(Some(e)) => r matches Err(p) && p@ == e.problem_view(),
        Err(None) => r matches Err(p) && p@ == fallback,
    }
}

/// A message taken as a problem renders as the message itself.
pub proof fn lemma_message_problem_renders(message: &str)
    ensures
        message.problem_view().rendered() == message@,
{
    assert(message.problem_view().rendered() =~= message@);
}

/// Fallback rendering: with a message as the fallback, `map_problem_or`
/// turns `Err(None)` into a problem that renders exactly as that message, and
/// `Err(Some(x))` into one that renders as `x` does.
pub proof fn lemma_map_problem_or_renders<O, E: IntoProblem>(
    res: Result<O, Option<E>>,
    fallback: &str,
    r: Result<O, Problem>,
)
    requires
        res is Err,
        problem_mapped_or(res, fallback.problem_view(), r),
    ensures
        r matches Err(p) && p@.rendered() == match res {
            Err(Some(x)) => x.problem_view().rendered(),
            _ => fallback@,
        },
{
    lemma_message_problem_renders(fallback);
}

/// Maps a type containing an error to the same type containing a `Problem`.
pub trait MapProblem {
    type ProblemCarrier;

    fn map_problem(self) -> Self::ProblemCarrier;
}

impl<O, E: IntoProblem> MapProblem for Result<O, E> {
    type ProblemCarrier = Result<O, Problem>;

    /// Converts the error, if any, into a `Problem`.
    fn map_problem(self) -> (r: Result<O, Problem>)
        ensures
            problem_mapped(self, r),
    {
        match self {
            Ok(v) => Ok(v),
            Err(e) => Err(e.into_problem()),
        }
    }
}

/// Maps a type whose error may be missing to one containing a `Problem`,
/// using a given problem where the error is missing.
pub trait MapProblemOr {
    type ProblemCarrier;

    fn map_problem_or<P: IntoProblem>(self, problem: P) -> Self::ProblemCarrier;

    fn map_problem_or_else<F, P>(self, problem: F) -> Self::ProblemCarrier
        where
            F: FnOnce() -> P,
            P: IntoProblem,
        requires
            problem.requires(()),
    ;
}

impl<O, E: IntoProblem> MapProblemOr for Result<O, Option<E>> {
    type ProblemCarrier = Result<O, Problem>;

    /// `Err(None)` becomes `problem`; `Err(Some(e))` becomes `e` converted.
    fn map_problem_or<P: IntoProblem>(self, problem: P) -> (r: Result<O, Problem>)
        ensures
            problem_mapped_or(self, problem.problem_view(), r),
    {
        match self {
            Ok(v) => Ok(v),
            Err(Some(e)) => Err(e.into_problem()),
            Err(None) => Err(problem.into_problem()),
        }
    }

    /// As `map_problem_or`, but the problem for `Err(None)` is made by
    /// calling `problem`, only on that path.
    fn map_problem_or_else<F, P>(self, problem: F) -> (r: Result<O, Problem>)
        where
            F: FnOnce() -> P,
            P: IntoProblem,
        ensures
            match self {
                Ok(v) => r == Ok::<O, Problem>(v),
                Err(Some(e)) => r matches Err(p) && p@ == e.problem_view(),
                Err(None) => exists|q: P|
                    problem.ensures((), q) && (r matches Err(p) && p@ == q.problem_view()),
            },
    {
        match self {
            Ok(v) => Ok(v),
            Err(Some(e)) => Err(e.into_problem()),
            Err(None) => {
                let q = problem();
                Err(q.into_problem())
            },
        }
    }
}

/// Turns a missing value into a `Problem`.
pub trait OkOrProblem<O> {
    fn ok_or_problem<P: IntoProblem>(self, problem: P) -> Result<O, Problem>;

    fn ok_or_problem_with<F, P>(self, problem: F) -> Result<O, Problem>
        where
            F: FnOnce() -> P,
            P: IntoProblem,
        requires
            problem.requires(()),
    ;
}

impl<O> OkOrProblem<O> for Option<O> {
    /// `Some(v)` becomes `Ok(v)`; `None` becomes `problem`.
    fn ok_or_problem<P: IntoProblem>(self, problem: P) -> (r: Result<O, Problem>)
        ensures
            match self {
                Some(v) => r == Ok::<O, Problem>(v),
                None => r matches Err(p) && p@ == problem.problem_view(),
            },
    {
        match self {
            Some(v) => Ok(v),
            None => Err(problem.into_problem()),
        }
    }

    /// As `ok_or_problem`, but the problem is made by calling `problem`, only
    /// for `None`.
    fn ok_or_problem_with<F, P>(self, problem: F) -> (r: Result<O, Problem>)
        where
            F: FnOnce() -> P,
            P: IntoProblem,
        ensures
            match self {
                Some(v) => r == Ok::<O, Problem>(v),
                None => exists|q: P|
                    problem.ensures((), q) && (r matches Err(p) && p@ == q.problem_view()),
            },
    {
        match self {
            Some(v) => Ok(v),
            None => {
                let q = problem();
                Err(q.into_problem())
            },
        }
    }
}

} // verus!
