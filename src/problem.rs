use vstd::prelude::*;
use crate::cause::{chain_text, Cause};
use crate::trace::{format_backtrace, is_capture};

verus! {

/// What a `Problem` holds, as mathematical values.
pub struct ProblemView {
    /// The messages of the underlying error, outermost first.
    pub cause: Seq<Seq<char>>,
    /// The context annotations, in the order they were added.
    pub context: Seq<Seq<char>>,
    /// The backtrace captured when the problem was made, if any.
    pub backtrace: Option<Seq<char>>,
}

/// `"while cN, while c(N-1), ..., while c1"` for `context == [c1, ..., cN]`:
/// the annotation added last comes first.
pub open spec fn while_list(context: Seq<Seq<char>>) -> Seq<char>
    decreases context.len(),
{
    if context.len() == 0 {
        Seq::empty()
    } else if context.len() == 1 {
        "while "@ + context[0]
    } else {
        while_list(context.subrange(1, context.len() as int)) + ", while "@ + context[0]
    }
}

/// The part of the rendering that comes before the cause.
pub open spec fn context_text(context: Seq<Seq<char>>) -> Seq<char> {
    if context.len() == 0 {
        Seq::empty()
    } else {
        while_list(context) + " got error caused by: "@
    }
}

/// The part of the rendering that comes after the cause.
pub open spec fn backtrace_text(backtrace: Option<Seq<char>>) -> Seq<char> {
    match backtrace {
        Some(b) => "\n--- Cause\n"@ + b,
        None => Seq::empty(),
    }
}

impl ProblemView {
    /// The text a problem renders as.
    pub open spec fn rendered(self) -> Seq<char> {
        context_text(self.context) + chain_text(self.cause) + backtrace_text(self.backtrace)
    }

    /// The same problem with one more annotation.
    pub open spec fn with_context(self, message: Seq<char>) -> ProblemView {
        ProblemView { context: self.context.push(message), ..self }
    }

    /// A problem made from a cause alone.
    pub open spec fn of_cause(cause: Seq<Seq<char>>) -> ProblemView {
        ProblemView { cause, context: Seq::empty(), backtrace: None }
    }
}

/// `p` with each of `messages` added in turn, as a chain of `problem_while`
/// calls adds them.
pub open spec fn annotated_with(p: ProblemView, messages: Seq<Seq<char>>) -> ProblemView
    decreases messages.len(),
{
    if messages.len() == 0 {
        p
    } else {
        annotated_with(p, messages.drop_last()).with_context(messages.last())
    }
}

proof fn lemma_annotated_with_context(p: ProblemView, messages: Seq<Seq<char>>)
    ensures
        annotated_with(p, messages) == (ProblemView { context: p.context + messages, ..p }),
    decreases messages.len(),
{
    if messages.len() > 0 {
        lemma_annotated_with_context(p, messages.drop_last());
        assert(p.context + messages =~= (p.context + messages.drop_last()).push(messages.last()));
    }
}

proof fn lemma_while_list_starts_with_newest(context: Seq<Seq<char>>)
    requires
        context.len() > 0,
    ensures
        while_list(context).len() >= 6 + context.last().len(),
        while_list(context).subrange(0, 6 + context.last().len() as int) == "while "@ + context.last(),
    decreases context.len(),
{
    reveal_strlit("while ");
    if context.len() > 1 {
        let rest = context.subrange(1, context.len() as int);
        lemma_while_list_starts_with_newest(rest);
        assert(rest.last() == context.last());
        let w = while_list(rest);
        let tail = ", while "@ + context[0];
        assert((w + tail).subrange(0, 6 + context.last().len() as int) =~= w.subrange(0, 6 + context.last().len() as int));
    } else {
        assert(context.last() == context[0]);
        assert(("while "@ + context[0]).subrange(0, 6 + context.last().len() as int) =~= "while "@ + context[0]);
    }
}

/// Context rendering: a problem made from the message `m`, with no
/// backtrace, then annotated with `messages` one after another, renders as
/// `m` alone when there are none; otherwise it starts with `"while "` and the
/// annotation added last, and ends with `" got error caused by: "` and `m`.
pub proof fn lemma_context_chain(m: Seq<char>, messages: Seq<Seq<char>>)
    ensures
        ({
            let text = annotated_with(ProblemView::of_cause(seq![m]), messages).rendered();
            &&& messages.len() == 0 ==> text == m
            &&& messages.len() > 0 ==> {
                &&& text == while_list(messages) + " got error caused by: "@ + m
                &&& text.len() >= 6 + messages.last().len()
                &&& text.subrange(0, 6 + messages.last().len() as int) == "while "@ + messages.last()
            }
        }),
{
    let p = ProblemView::of_cause(seq![m]);
    lemma_annotated_with_context(p, messages);
    let q = annotated_with(p, messages);
    assert(q.context =~= messages);
    assert(chain_text(seq![m]) == m);
    if messages.len() == 0 {
        assert(q.rendered() =~= m);
    } else {
        lemma_while_list_starts_with_newest(messages);
        let w = while_list(messages);
        let rest = " got error caused by: "@ + m;
        assert(q.rendered() =~= w + rest);
        assert((w + rest).subrange(0, 6 + messages.last().len() as int) =~= w.subrange(0, 6 + messages.last().len() as int));
    }
}

/// Round trip of a plain message: a problem made from a message alone, with
/// no backtrace (what `from_message` makes when capture is off), renders as
/// that message.
pub proof fn lemma_message_round_trip(message: &str, p: Problem)
    requires
        p@ == ProblemView::of_cause(seq![message@]),
    ensures
        p@.rendered() == message@,
{
    assert(p@.rendered() =~= message@);
}

/// Rendering is repeatable: the text is a function of the problem's view
/// alone, and `to_string` takes the problem by shared reference, so two
/// renderings of one problem are the same text.
pub proof fn lemma_render_repeatable(p: &Problem, first: Seq<char>, second: Seq<char>)
    requires
        first == p@.rendered(),
        second == p@.rendered(),
    ensures
        first == second,
{
}

/// An error, the context it was met in, and optionally the backtrace of the
/// place where it became a `Problem`.
#[derive(Debug)]
pub struct Problem {
    error: Cause,
    context: Vec<String>,
    backtrace: Option<String>,
}

impl View for Problem {
    type V = ProblemView;

    closed spec fn view(&self) -> ProblemView {
        ProblemView {
            cause: self.error@,
            context: self.context@.map_values(|s: String| s@),
            backtrace: match self.backtrace {
                Some(b) => Some(b@),
                None => None,
            },
        }
    }
}

impl Problem {
    /// A problem caused by `error`, with a backtrace when `backtrace_enabled`.
    pub fn from_error(error: Cause, backtrace_enabled: bool) -> (r: Problem)
        ensures
            r@.cause == error@,
            r@.context == Seq::<Seq<char>>::empty(),
            is_capture(r@.backtrace, backtrace_enabled),
    {
        let r = Problem { error, context: Vec::new(), backtrace: format_backtrace(backtrace_enabled) };
        assert(r@.context =~= Seq::<Seq<char>>::empty());
        r
    }

    /// A problem caused by a plain message.
    pub fn from_message(message: &str, backtrace_enabled: bool) -> (r: Problem)
        ensures
            r@.cause == seq![message@],
            r@.context == Seq::<Seq<char>>::empty(),
            is_capture(r@.backtrace, backtrace_enabled),
    {
        Problem::from_error(Cause::new(message), backtrace_enabled)
    }

    /// A problem whose cause is the rendered chain of `error`, taken as one
    /// message; `error` itself is left to the caller.
    pub fn from_error_message(error: &Cause, backtrace_enabled: bool) -> (r: Problem)
        ensures
            r@.cause == seq![chain_text(error@)],
            r@.context == Seq::<Seq<char>>::empty(),
            is_capture(r@.backtrace, backtrace_enabled),
    {
        let message = error.to_string();
        Problem::from_error(Cause::new(message.as_str()), backtrace_enabled)
    }

    /// The backtrace captured with this problem, if any.
    pub fn backtrace(&self) -> (r: Option<&str>)
        ensures
            match r {
                Some(b) => self@.backtrace == Some(b@),
                None => self@.backtrace is None,
            },
    {
        match &self.backtrace {
            Some(b) => Some(b.as_str()),
            None => None,
        }
    }

    /// Adds an annotation, as the most recent one.
    pub(crate) fn push_context(&mut self, message: String)
        ensures
            final(self)@ == old(self)@.with_context(message@),
    {
        self.context.push(message);
        assert(final(self)@.context =~= old(self)@.context.push(message@));
    }

    /// Appends the rendering to `out`.
    pub fn write_to(&self, out: &mut String)
        ensures
            final(out)@ == old(out)@ + self@.rendered(),
    {
        let ghost start = out@;
        let ghost ctx = self@.context;
        let n = self.context.len();
        if n > 0 {
            out.append("while ");
            out.append(self.context[n - 1].as_str());
            assert(ctx.subrange(n - 1, n as int) =~= seq![ctx[n - 1]]);
            let mut i: usize = n - 1;
            while i > 0
                invariant
                    0 <= i < n,
                    n == ctx.len(),
                    ctx == self@.context,
                    out@ == start + while_list(ctx.subrange(i as int, n as int)),
                decreases i,
            {
                out.append(", while ");
                out.append(self.context[i - 1].as_str());
                let ghost next = ctx.subrange(i - 1, n as int);
                assert(next.subrange(1, next.len() as int) =~= ctx.subrange(i as int, n as int));
                i = i - 1;
            }
            assert(ctx.subrange(0, n as int) =~= ctx);
            out.append(" got error caused by: ");
        }
        self.error.write_to(out);
        match &self.backtrace {
            Some(b) => {
                out.append("\n--- Cause\n");
                out.append(b.as_str());
            },
            None => {},
        }
        assert(out@ =~= start + self@.rendered());
    }

    /// The rendering: `"while <newest>, ..., while <oldest> got error caused
    /// by: <cause>"`, or the cause alone without context, followed by the
    /// backtrace under a `"--- Cause"` line where there is one.
    pub fn to_string(&self) -> (r: String)
        ensures
            r@ == self@.rendered(),
    {
        let mut out = String::new();
        self.write_to(&mut out);
        out
    }
}

} // verus!
