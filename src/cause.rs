use vstd::prelude::*;

verus! {

/// Separator placed between an error message and the message of its source.
pub open spec fn caused_by_text() -> Seq<char> {
    "; caused by: "@
}

/// The text of an error chain: the outermost message first, then each source
/// in turn, joined by `"; caused by: "`.
pub open spec fn chain_text(messages: Seq<Seq<char>>) -> Seq<char>
    decreases messages.len(),
{
    if messages.len() == 0 {
        Seq::empty()
    } else if messages.len() == 1 {
        messages[0]
    } else {
        chain_text(messages.drop_last()) + caused_by_text() + messages.last()
    }
}

/// The messages of an error and of the chain of sources behind it.
#[derive(Debug)]
pub struct Cause {
    message: String,
    sources: Vec<String>,
}

impl View for Cause {
    type V = Seq<Seq<char>>;

    /// The outermost message first, the innermost source last; never empty.
    closed spec fn view(&self) -> Seq<Seq<char>> {
        seq![self.message@] + self.sources@.map_values(|s: String| s@)
    }
}

impl Cause {
    /// An error with the given message and no source.
    pub fn new(message: &str) -> (r: Cause)
        ensures
            r@ == seq![message@],
    {
        let r = Cause { message: String::from_str(message), sources: Vec::new() };
        assert(r@ =~= seq![message@]);
        r
    }

    /// The same chain with one more source below its innermost message.
    pub fn with_source(self, message: &str) -> (r: Cause)
        ensures
            r@ == self@.push(message@),
    {
        let mut sources = self.sources;
        sources.push(String::from_str(message));
        let r = Cause { message: self.message, sources };
        assert(r@ =~= self@.push(message@));
        r
    }

    /// Appends the rendered chain to `out`.
    pub fn write_to(&self, out: &mut String)
        ensures
            final(out)@ == old(out)@ + chain_text(self@),
    {
        let ghost start = out@;
        let ghost msgs = self@;
        out.append(self.message.as_str());
        assert(msgs.subrange(0, 1) =~= seq![self.message@]);
        let mut i: usize = 0;
        while i < self.sources.len()
            invariant
                0 <= i <= self.sources@.len(),
                msgs == self@,
                msgs.len() == self.sources@.len() + 1,
                out@ == start + chain_text(msgs.subrange(0, i + 1)),
            decreases self.sources@.len() - i,
        {
            out.append("; caused by: ");
            out.append(self.sources[i].as_str());
            proof {
                let next = msgs.subrange(0, i + 2);
                assert(next.drop_last() =~= msgs.subrange(0, i + 1));
                assert(next.last() == self.sources@[i as int]@);
            }
            i = i + 1;
        }
        assert(msgs.subrange(0, msgs.len() as int) =~= msgs);
    }

    /// The rendered chain: `"<message>; caused by: <source>; caused by: ..."`.
    pub fn to_string(&self) -> (r: String)
        ensures
            r@ == chain_text(self@),
    {
        let mut out = String::new();
        self.write_to(&mut out);
        out
    }
}

} // verus!
