//! Counting the word `"while "` in the rendering of a problem's context.

use vstd::prelude::*;
use crate::problem::{annotated_with, while_list, ProblemView};

verus! {

/// How many times `pattern` occurs in `s`, overlapping occurrences included.
pub open spec fn occurrences(s: Seq<char>, pattern: Seq<char>) -> nat
    decreases s.len(),
{
    if pattern.len() == 0 || s.len() < pattern.len() {
        0
    } else {
        (if s.subrange(0, pattern.len() as int) == pattern {
            1nat
        } else {
            0nat
        }) + occurrences(s.drop_first(), pattern)
    }
}

/// No occurrence of `pattern` in `a + b` starts in `a` and ends in `b`.
pub open spec fn no_straddle(a: Seq<char>, b: Seq<char>, pattern: Seq<char>) -> bool {
    forall|i: int|
        0 <= i < a.len() && a.len() < i + pattern.len() <= a.len() + b.len() ==> #[trigger] (a + b).subrange(
            i,
            i + pattern.len(),
        ) != pattern
}

proof fn lemma_occurrences_concat(a: Seq<char>, b: Seq<char>, pattern: Seq<char>)
    requires
        pattern.len() > 0,
        no_straddle(a, b, pattern),
    ensures
        occurrences(a + b, pattern) == occurrences(a, pattern) + occurrences(b, pattern),
    decreases a.len(),
{
    let n = pattern.len() as int;
    if a.len() == 0 {
        assert(a + b =~= b);
    } else {
        let ab = a + b;
        let rest = a.drop_first();
        assert(ab.drop_first() =~= rest + b);
        assert forall|i: int|
            0 <= i < rest.len() && rest.len() < i + n <= rest.len() + b.len() implies #[trigger] (rest + b).subrange(
                i,
                i + n,
            ) != pattern by {
            assert((rest + b).subrange(i, i + n) =~= ab.subrange(i + 1, i + 1 + n));
        }
        lemma_occurrences_concat(rest, b, pattern);
        if ab.len() >= n {
            if a.len() >= n {
                assert(ab.subrange(0, n) =~= a.subrange(0, n));
            } else {
                let start: int = 0;
                assert((a + b).subrange(start, start + pattern.len()) != pattern);
                assert(ab.subrange(0, n) =~= (a + b).subrange(start, start + pattern.len()));
                assert(occurrences(rest, pattern) == 0);
            }
        }
    }
}

proof fn lemma_no_w(s: Seq<char>)
    requires
        forall|i: int| 0 <= i < s.len() ==> s[i] != 'w',
    ensures
        occurrences(s, "while "@) == 0,
    decreases s.len(),
{
    reveal_strlit("while ");
    if s.len() >= 6 {
        assert(s.subrange(0, 6)[0] != "while "@[0]);
        lemma_no_w(s.drop_first());
    }
}

/// The last five characters of `a` are no `w`: no `"while "` starts there.
proof fn lemma_straddle_after_tail(a: Seq<char>, b: Seq<char>)
    requires
        forall|i: int| 0 <= i < a.len() && a.len() - 5 <= i ==> a[i] != 'w',
    ensures
        no_straddle(a, b, "while "@),
{
    reveal_strlit("while ");
    assert forall|i: int|
        0 <= i < a.len() && a.len() < i + 6 <= a.len() + b.len() implies #[trigger] (a + b).subrange(i, i + 6)
            != "while "@ by {
        assert((a + b).subrange(i, i + 6)[0] == a[i]);
    }
}

/// `b` starts with a character that `"while "` holds nowhere but maybe first.
proof fn lemma_straddle_before_head(a: Seq<char>, b: Seq<char>)
    requires
        b.len() > 0,
        b[0] != 'h' && b[0] != 'i' && b[0] != 'l' && b[0] != 'e' && b[0] != ' ',
    ensures
        no_straddle(a, b, "while "@),
{
    reveal_strlit("while ");
    assert forall|i: int|
        0 <= i < a.len() && a.len() < i + 6 <= a.len() + b.len() implies #[trigger] (a + b).subrange(i, i + 6)
            != "while "@ by {
        let d = a.len() - i;
        assert((a + b).subrange(i, i + 6)[d] == b[0]);
    }
}

proof fn lemma_while_word()
    ensures
        occurrences("while "@, "while "@) == 1,
        occurrences(", while "@, "while "@) == 1,
        occurrences(" got error caused by: "@, "while "@) == 0,
{
    reveal_strlit("while ");
    reveal_strlit(", while ");
    reveal_strlit(" got error caused by: ");
    let w = "while "@;
    assert(w.subrange(0, 6) =~= w);
    assert(occurrences(w.drop_first(), w) == 0);
    assert(", while "@ =~= seq![',', ' '] + w);
    assert(seq![',', ' '][0] == ',');
    lemma_no_w(seq![',', ' ']);
    lemma_straddle_after_tail(seq![',', ' '], w);
    lemma_occurrences_concat(seq![',', ' '], w, w);
    lemma_no_w(" got error caused by: "@);
}

/// `s` ends with `suffix`.
pub open spec fn ends_with(s: Seq<char>, suffix: Seq<char>) -> bool {
    s.len() >= suffix.len() && s.subrange(s.len() - suffix.len(), s.len() as int) == suffix
}

proof fn lemma_straddle_before_space(a: Seq<char>, b: Seq<char>)
    requires
        b.len() > 0,
        b[0] == ' ',
        !ends_with(a, "while"@),
    ensures
        no_straddle(a, b, "while "@),
{
    reveal_strlit("while ");
    reveal_strlit("while");
    assert forall|i: int|
        0 <= i < a.len() && a.len() < i + 6 <= a.len() + b.len() implies #[trigger] (a + b).subrange(i, i + 6)
            != "while "@ by {
        let d = a.len() - i;
        let window = (a + b).subrange(i, i + 6);
        assert(window[d] == b[0]);
        if d == 5 && window == "while "@ {
            assert(a.subrange(a.len() - 5, a.len() as int) =~= window.subrange(0, 5));
            assert(window.subrange(0, 5) =~= "while"@);
        }
    }
}

proof fn lemma_while_list_tail(context: Seq<Seq<char>>)
    requires
        context.len() > 0,
    ensures
        ends_with(while_list(context), "while "@ + context[0]),
    decreases context.len(),
{
    let w = while_list(context);
    let t = "while "@ + context[0];
    if context.len() == 1 {
        assert(w.subrange(w.len() - t.len(), w.len() as int) =~= t);
    } else {
        reveal_strlit("while ");
        reveal_strlit(", while ");
        let rest = while_list(context.subrange(1, context.len() as int));
        assert(w =~= rest + seq![',', ' '] + t);
        assert(w.subrange(w.len() - t.len(), w.len() as int) =~= t);
    }
}

proof fn lemma_while_list_count(context: Seq<Seq<char>>)
    requires
        context.len() > 0,
        forall|j: int| 0 <= j < context.len() ==> occurrences(#[trigger] context[j], "while "@) == 0,
    ensures
        occurrences(while_list(context), "while "@) == context.len(),
    decreases context.len(),
{
    reveal_strlit("while ");
    reveal_strlit(", while ");
    lemma_while_word();
    let pat = "while "@;
    if context.len() == 1 {
        lemma_straddle_after_tail(pat, context[0]);
        lemma_occurrences_concat(pat, context[0], pat);
    } else {
        let rest = context.subrange(1, context.len() as int);
        assert forall|j: int| 0 <= j < rest.len() implies occurrences(#[trigger] rest[j], pat) == 0 by {
            assert(rest[j] == context[j + 1]);
        }
        lemma_while_list_count(rest);
        let sep = ", while "@;
        lemma_straddle_after_tail(sep, context[0]);
        lemma_occurrences_concat(sep, context[0], pat);
        let tail = sep + context[0];
        lemma_straddle_before_head(while_list(rest), tail);
        lemma_occurrences_concat(while_list(rest), tail, pat);
        assert(while_list(context) =~= while_list(rest) + tail);
    }
}

proof fn lemma_not_ending_in_while(context: Seq<Seq<char>>)
    requires
        context.len() > 0,
        !ends_with(context[0], "while"@),
    ensures
        !ends_with(while_list(context), "while"@),
{
    reveal_strlit("while ");
    reveal_strlit("while");
    lemma_while_list_tail(context);
    let w = while_list(context);
    let c = context[0];
    let t = "while "@ + c;
    assert(w.subrange(w.len() - t.len(), w.len() as int) == t);
    if ends_with(w, "while"@) {
        let last = w.subrange(w.len() - 5, w.len() as int);
        assert(last =~= t.subrange(t.len() - 5, t.len() as int));
        if c.len() >= 5 {
            assert(last =~= c.subrange(c.len() - 5, c.len() as int));
        } else {
            let k = 4 - c.len();
            assert(last[k] == t[5]);
            assert("while"@[k] != ' ');
        }
    }
}

/// The count of `"while "` in a context rendering: for a message `m` and
/// annotations that do not themselves hold `"while "`, the oldest of which
/// does not end in `"while"`, a problem made from `m` with no backtrace and
/// annotated with them one after another renders with exactly one
/// `"while "` for each annotation.
pub proof fn lemma_context_chain_counts(m: Seq<char>, messages: Seq<Seq<char>>)
    requires
        occurrences(m, "while "@) == 0,
        forall|j: int| 0 <= j < messages.len() ==> occurrences(#[trigger] messages[j], "while "@) == 0,
        messages.len() > 0 ==> !ends_with(messages[0], "while"@),
    ensures
        occurrences(annotated_with(ProblemView::of_cause(seq![m]), messages).rendered(), "while "@)
            == messages.len(),
{
    reveal_strlit("while ");
    reveal_strlit(" got error caused by: ");
    crate::problem::lemma_context_chain(m, messages);
    let text = annotated_with(ProblemView::of_cause(seq![m]), messages).rendered();
    if messages.len() > 0 {
        let pat = "while "@;
        let w = while_list(messages);
        let g = " got error caused by: "@;
        lemma_while_word();
        lemma_while_list_count(messages);
        lemma_not_ending_in_while(messages);
        lemma_straddle_before_space(w, g);
        lemma_occurrences_concat(w, g, pat);
        lemma_straddle_after_tail(w + g, m);
        lemma_occurrences_concat(w + g, m, pat);
    }
}

/// `pattern` stands in `s` at index `j`.
pub open spec fn occurs_at(s: Seq<char>, pattern: Seq<char>, j: int) -> bool {
    0 <= j && j + pattern.len() <= s.len() && s.subrange(j, j + pattern.len()) == pattern
}

/// Where the `i`-th `"while "` (counting from zero, from the front) stands in
/// the rendering of `context`: each annotation before it takes `"while "`,
/// its own text and `", "`, newest first.
pub open spec fn while_position(context: Seq<Seq<char>>, i: nat) -> int
    decreases i,
{
    if i == 0 {
        0
    } else {
        while_position(context, (i - 1) as nat) + 8 + context[context.len() - i].len()
    }
}

proof fn lemma_occurs_at_concat(a: Seq<char>, b: Seq<char>, pattern: Seq<char>, j: int)
    requires
        pattern.len() > 0,
        no_straddle(a, b, pattern),
    ensures
        occurs_at(a + b, pattern, j) <==> (occurs_at(a, pattern, j) || occurs_at(b, pattern, j - a.len())),
{
    let n = pattern.len() as int;
    if 0 <= j && j + n <= a.len() + b.len() {
        if j + n <= a.len() {
            assert((a + b).subrange(j, j + n) =~= a.subrange(j, j + n));
        } else if j >= a.len() {
            assert((a + b).subrange(j, j + n) =~= b.subrange(j - a.len(), j - a.len() + n));
        } else {
            assert((a + b).subrange(j, j + n) != pattern);
        }
    }
}

proof fn lemma_none_occurs(s: Seq<char>, pattern: Seq<char>, j: int)
    requires
        pattern.len() > 0,
        occurrences(s, pattern) == 0,
    ensures
        !occurs_at(s, pattern, j),
    decreases s.len(),
{
    let n = pattern.len() as int;
    if 0 <= j && j + n <= s.len() && j > 0 {
        lemma_none_occurs(s.drop_first(), pattern, j - 1);
        assert(s.drop_first().subrange(j - 1, j - 1 + n) =~= s.subrange(j, j + n));
    }
}

proof fn lemma_word_positions(t: int)
    ensures
        occurs_at("while "@, "while "@, t) <==> t == 0,
        occurs_at(", while "@, "while "@, t) <==> t == 2,
        !occurs_at(" got error caused by: "@, "while "@, t),
{
    reveal_strlit("while ");
    reveal_strlit(", while ");
    reveal_strlit(" got error caused by: ");
    let w = "while "@;
    assert(w.subrange(0, 6) =~= w);
    let lead = seq![',', ' '];
    assert(", while "@ =~= lead + w);
    lemma_straddle_after_tail(lead, w);
    lemma_occurs_at_concat(lead, w, w, t);
    lemma_while_word();
    lemma_none_occurs(" got error caused by: "@, w, t);
}

proof fn lemma_position_of_rest(context: Seq<Seq<char>>, i: nat)
    requires
        context.len() > 1,
        i < context.len(),
    ensures
        while_position(context, i) == while_position(context.subrange(1, context.len() as int), i),
    decreases i,
{
    if i > 0 {
        lemma_position_of_rest(context, (i - 1) as nat);
    }
}

proof fn lemma_positions_increase(context: Seq<Seq<char>>, i: nat, i2: nat)
    requires
        i < i2 <= context.len(),
    ensures
        while_position(context, i) < while_position(context, i2),
    decreases i2,
{
    if i + 1 < i2 {
        lemma_positions_increase(context, i, (i2 - 1) as nat);
    }
}

proof fn lemma_position_nonnegative(context: Seq<Seq<char>>, i: nat)
    requires
        i <= context.len(),
    ensures
        while_position(context, i) >= 0,
{
    if i > 0 {
        lemma_positions_increase(context, 0, i);
    }
}

proof fn lemma_while_list_positions(context: Seq<Seq<char>>)
    requires
        context.len() > 0,
        forall|j: int| 0 <= j < context.len() ==> occurrences(#[trigger] context[j], "while "@) == 0,
    ensures
        while_list(context).len() == while_position(context, context.len()) - 2,
        forall|i: nat|
            i < context.len() ==> #[trigger] while_list(context).subrange(
                while_position(context, i),
                while_position(context, i) + 6 + context[context.len() - 1 - i].len(),
            ) == "while "@ + context[context.len() - 1 - i],
        forall|j: int|
            #[trigger] occurs_at(while_list(context), "while "@, j) ==> exists|i: nat|
                i < context.len() && j == while_position(context, i),
    decreases context.len(),
{
    reveal_strlit("while ");
    reveal_strlit(", while ");
    let pat = "while "@;
    let n = context.len();
    let w = while_list(context);
    let c0 = context[0];
    if n == 1 {
        assert(while_position(context, 1) == 8 + c0.len()) by {
            assert(while_position(context, 0) == 0);
        }
        lemma_straddle_after_tail(pat, c0);
        assert forall|i: nat| i < n implies #[trigger] w.subrange(
            while_position(context, i),
            while_position(context, i) + 6 + context[n - 1 - i].len(),
        ) == pat + context[n - 1 - i] by {
            assert(i == 0);
            assert(w.subrange(0, 6 + c0.len() as int) =~= pat + c0);
        }
        assert forall|j: int| #[trigger] occurs_at(w, pat, j) implies exists|i: nat|
            i < n && j == while_position(context, i) by {
            lemma_occurs_at_concat(pat, c0, pat, j);
            lemma_word_positions(j);
            lemma_none_occurs(c0, pat, j - 6);
            assert(j == while_position(context, 0));
        }
    } else {
        let rest = context.subrange(1, n as int);
        assert forall|j: int| 0 <= j < rest.len() implies occurrences(#[trigger] rest[j], pat) == 0 by {
            assert(rest[j] == context[j + 1]);
        }
        lemma_while_list_positions(rest);
        let x = while_list(rest);
        let sep = ", while "@;
        let y = sep + c0;
        assert(w =~= x + y);
        lemma_straddle_after_tail(sep, c0);
        lemma_straddle_before_head(x, y);
        lemma_position_of_rest(context, (n - 1) as nat);
        assert(while_position(context, n as nat) == while_position(context, (n - 1) as nat) + 8 + c0.len());
        assert forall|i: nat| i < n implies #[trigger] w.subrange(
            while_position(context, i),
            while_position(context, i) + 6 + context[n - 1 - i].len(),
        ) == pat + context[n - 1 - i] by {
            let p = while_position(context, i);
            let c = context[n - 1 - i];
            if i + 1 < n {
                lemma_position_of_rest(context, i);
                assert(rest[rest.len() - 1 - i] == c);
                assert(x.subrange(p, p + 6 + c.len()) == pat + c);
                lemma_position_nonnegative(rest, i);
                if i + 2 < n {
                    lemma_positions_increase(rest, (i + 1) as nat, (n - 1) as nat);
                }
                assert(while_position(rest, (i + 1) as nat) == p + 8 + c.len());
                assert(w.subrange(p, p + 6 + c.len()) =~= x.subrange(p, p + 6 + c.len()));
            } else {
                assert(i == n - 1);
                assert(p == x.len() + 2);
                assert(w.subrange(p, p + 6 + c.len()) =~= pat + c0);
            }
        }
        assert forall|j: int| #[trigger] occurs_at(w, pat, j) implies exists|i: nat|
            i < n && j == while_position(context, i) by {
            lemma_occurs_at_concat(x, y, pat, j);
            lemma_occurs_at_concat(sep, c0, pat, j - x.len());
            lemma_word_positions(j - x.len());
            lemma_none_occurs(c0, pat, j - x.len() - 8);
            if occurs_at(x, pat, j) {
                let i = choose|i: nat| i < rest.len() && j == while_position(rest, i);
                lemma_position_of_rest(context, i);
                assert(j == while_position(context, i));
            } else {
                assert(j == while_position(context, (n - 1) as nat));
            }
        }
    }
}

/// Where each annotation stands: for a message `m` and annotations as in
/// `lemma_context_chain_counts`, in the rendering of a problem made from `m`
/// and annotated with them one after another, the `i`-th `"while "` from the
/// front stands at `while_position(messages, i)` and is followed by the
/// `i`-th newest annotation (the one added last comes first); positions grow
/// with `i`, and `"while "` stands nowhere else.
pub proof fn lemma_context_chain_positions(m: Seq<char>, messages: Seq<Seq<char>>)
    requires
        occurrences(m, "while "@) == 0,
        forall|j: int| 0 <= j < messages.len() ==> occurrences(#[trigger] messages[j], "while "@) == 0,
        messages.len() > 0 ==> !ends_with(messages[0], "while"@),
    ensures
        ({
            let text = annotated_with(ProblemView::of_cause(seq![m]), messages).rendered();
            let k = messages.len();
            &&& forall|i: nat|
                i < k ==> #[trigger] text.subrange(
                    while_position(messages, i),
                    while_position(messages, i) + 6 + messages[k - 1 - i].len(),
                ) == "while "@ + messages[k - 1 - i]
            &&& forall|i: nat, i2: nat|
                i < i2 < k ==> #[trigger] while_position(messages, i) < #[trigger] while_position(messages, i2)
            &&& forall|j: int|
                #[trigger] occurs_at(text, "while "@, j) ==> exists|i: nat| i < k && j == while_position(messages, i)
        }),
{
    reveal_strlit("while ");
    reveal_strlit(" got error caused by: ");
    crate::problem::lemma_context_chain(m, messages);
    let text = annotated_with(ProblemView::of_cause(seq![m]), messages).rendered();
    let k = messages.len();
    let pat = "while "@;
    assert forall|i: nat, i2: nat| i < i2 < k implies #[trigger] while_position(messages, i)
        < #[trigger] while_position(messages, i2) by {
        lemma_positions_increase(messages, i, i2);
    }
    if k == 0 {
        assert forall|j: int| #[trigger] occurs_at(text, pat, j) implies exists|i: nat|
            i < k && j == while_position(messages, i) by {
            lemma_none_occurs(m, pat, j);
        }
    } else {
        let w = while_list(messages);
        let g = " got error caused by: "@;
        lemma_while_list_positions(messages);
        lemma_not_ending_in_while(messages);
        lemma_straddle_before_space(w, g);
        lemma_straddle_after_tail(w + g, m);
        assert(text =~= w + g + m);
        assert forall|i: nat| i < k implies #[trigger] text.subrange(
            while_position(messages, i),
            while_position(messages, i) + 6 + messages[k - 1 - i].len(),
        ) == pat + messages[k - 1 - i] by {
            let p = while_position(messages, i);
            let c = messages[k - 1 - i];
            assert(w.subrange(p, p + 6 + c.len()) == pat + c);
            lemma_position_nonnegative(messages, i);
            if i + 1 < k {
                lemma_positions_increase(messages, (i + 1) as nat, k as nat);
            }
            assert(while_position(messages, (i + 1) as nat) == p + 8 + c.len());
            assert(text.subrange(p, p + 6 + c.len()) =~= w.subrange(p, p + 6 + c.len()));
        }
        assert forall|j: int| #[trigger] occurs_at(text, pat, j) implies exists|i: nat|
            i < k && j == while_position(messages, i) by {
            lemma_occurs_at_concat(w + g, m, pat, j);
            lemma_occurs_at_concat(w, g, pat, j);
            lemma_word_positions(j - w.len());
            lemma_none_occurs(m, pat, j - (w + g).len());
        }
    }
}

} // verus!
