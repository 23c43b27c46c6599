use vstd::prelude::*;

verus! {

/// The text of the context lines, each as `  - <line>` followed by a newline.
pub open spec fn context_text(ctx: Seq<Seq<char>>) -> Seq<char>
    decreases ctx.len(),
{
    if ctx.len() == 0 {
        Seq::empty()
    } else {
        context_text(ctx.drop_last()) + seq![' ', ' ', '-', ' '] + ctx.last() + seq!['\n']
    }
}

/// The rendered form of an error: a blank line, the message, the context lines, a blank line.
pub open spec fn error_text(message: Seq<char>, ctx: Seq<Seq<char>>) -> Seq<char> {
    seq!['\n'] + message + seq!['\n'] + context_text(ctx) + seq!['\n']
}

/// An error carrying a main message and the context lines added to it, in order.
pub struct Error {
    pub message: String,
    pub context: Vec<String>,
}

impl Error {
    pub open spec fn context_view(&self) -> Seq<Seq<char>> {
        self.context@.map_values(|c: String| c@)
    }

    pub fn new(message: String) -> (r: Error)
        ensures
            r.message@ == message@,
            r.context@.len() == 0,
    {
        Error { message, context: Vec::new() }
    }

    /// Adds one line of context after those already present.
    pub fn context(self, msg: String) -> (r: Error)
        ensures
            r.message@ == self.message@,
            r.context@ == self.context@.push(msg),
    {
        let mut e = self;
        e.context.push(msg);
        e
    }

    /// Renders the error as text.
    pub fn to_string(&self) -> (r: String)
        ensures
            r@ == error_text(self.message@, self.context_view()),
    {
        proof {
            reveal_strlit("\n");
            reveal_strlit("  - ");
        }
        let mut out = String::from_str("\n");
        out.append(self.message.as_str());
        out.append("\n");
        let mut i: usize = 0;
        while i < self.context.len()
            invariant
                i <= self.context@.len(),
                out@ == seq!['\n'] + self.message@ + seq!['\n'] + context_text(
                    self.context_view().subrange(0, i as int),
                ),
            decreases self.context@.len() - i,
        {
            let ghost before = out@;
            proof {
                reveal_strlit("  - ");
                reveal_strlit("\n");
                assert("  - "@ =~= seq![' ', ' ', '-', ' ']);
                assert("\n"@ =~= seq!['\n']);
            }
            out.append("  - ");
            out.append(self.context[i].as_str());
            out.append("\n");
            proof {
                let ctx = self.context_view();
                let head = seq!['\n'] + self.message@ + seq!['\n'];
                assert(ctx.subrange(0, i + 1).drop_last() =~= ctx.subrange(0, i as int));
                assert(ctx.subrange(0, i + 1).last() == self.context@[i as int]@);
                assert(out@ =~= head + (context_text(ctx.subrange(0, i as int)) + seq![' ', ' ', '-', ' ']
                    + self.context@[i as int]@ + seq!['\n']));
            }
            i = i + 1;
        }
        proof {
            assert(self.context_view().subrange(0, self.context@.len() as int) =~= self.context_view());
        }
        out.append("\n");
        out
    }
}

} // verus!
