use vstd::prelude::*;
use crate::convert::IntoProblem;
use crate::problem::Problem;

verus! {

/// `r` is `res` with `message` added to the context of its problem, if any.
pub open spec fn annotated<O>(res: Result<O, Problem>, message: Seq<char>, r: Result<O, Problem>) -> bool {
    match res {
        Ok(v) => r == Ok::<O, Problem>(v),
        Err(p) => r matches Err(q) && q@ == p@.with_context(message),
    }
}

/// Converts to a `Problem` where needed and adds a context annotation.
pub trait ProblemWhile {
    type WithContext;

    /// Adds `message` as the most recent annotation.
    fn problem_while(self, message: &str) -> Self::WithContext;

    /// Adds the message that `message` makes, calling it only where there is
    /// a problem to annotate.
    fn problem_while_with<F>(self, message: F) -> Self::WithContext
        where
            F: FnOnce() -> String,
        requires
            message.requires(()),
    ;
}

impl ProblemWhile for Problem {
    type WithContext = Problem;

    fn problem_while(self, message: &str) -> (r: Problem)
        ensures
            r@ == self@.with_context(message@),
    {
        let mut p = self;
        p.push_context(String::from_str(message));
        p
    }

    fn problem_while_with<F>(self, message: F) -> (r: Problem)
        where
            F: FnOnce() -> String,
        ensures
            exists|m: String| message.ensures((), m) && r@ == self@.with_context(m@),
    {
        let m = message();
        let mut p = self;
        p.push_context(m);
        p
    }
}

impl<O, E: IntoProblem> ProblemWhile for Result<O, E> {
    type WithContext = Result<O, Problem>;

    fn problem_while(self, message: &str) -> (r: Result<O, Problem>)
        ensures
            match self {
                Ok(v) => r == Ok::<O, Problem>(v),
                Err(e) => r matches Err(p) && p@ == e.problem_view().with_context(message@),
            },
    {
        match self {
            Ok(v) => Ok(v),
            Err(e) => Err(e.into_problem().problem_while(message)),
        }
    }

    fn problem_while_with<F>(self, message: F) -> (r: Result<O, Problem>)
        where
            F: FnOnce() -> String,
        ensures
            match self {
                Ok(v) => r == Ok::<O, Problem>(v),
                Err(e) => exists|m: String|
                    message.ensures((), m) && (r matches Err(p) && p@ == e.problem_view().with_context(m@)),
            },
    {
        match self {
            Ok(v) => Ok(v),
            Err(e) => Err(e.into_problem().problem_while_with(message)),
        }
    }
}

/// Runs `body` and adds `message` to the context of the problem it fails
/// with, if it fails.
pub fn in_context_of<O, B>(message: &str, body: B) -> (r: Result<O, Problem>)
    where
        B: FnOnce() -> Result<O, Problem>,
    requires
        body.requires(()),
    ensures
        exists|res: Result<O, Problem>| body.ensures((), res) && annotated(res, message@, r),
{
    let res = body();
    let ghost before = res;
    let r = res.problem_while(message);
    assert(annotated(before, message@, r));
    r
}

/// Runs `body`; where it fails, calls `message` and adds what it returns to
/// the context of the problem.
pub fn in_context_of_with<O, F, B>(message: F, body: B) -> (r: Result<O, Problem>)
    where
        F: FnOnce() -> String,
        B: FnOnce() -> Result<O, Problem>,
    requires
        message.requires(()),
        body.requires(()),
    ensures
        exists|res: Result<O, Problem>|
            body.ensures((), res) && match res {
                Ok(v) => r == Ok::<O, Problem>(v),
                Err(p) => exists|m: String|
                    message.ensures((), m) && (r matches Err(q) && q@ == p@.with_context(m@)),
            },
{
    let res = body();
    res.problem_while_with(message)
}

} // verus!
