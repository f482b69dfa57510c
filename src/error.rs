use vstd::prelude::*;

verus! {

/// What went wrong in a lexical primitive.
#[derive(Clone, Copy, Debug, PartialEq, Eq, Structural)]
pub enum ErrorKind {
    /// The input ran out where more was required.
    Empty,
    /// A character did not match what the grammar expects there.
    Unexpected,
    /// A failure described by its message alone (malformed number, misuse of the cursor).
    Generic,
}

/// An error of a lexical primitive, with the breadcrumbs that the enclosing
/// operations attached to it, innermost first.
#[derive(Debug)]
pub struct ParseError {
    pub kind: ErrorKind,
    pub msg: String,
    pub context: Vec<String>,
}

/// The message, then each breadcrumb on a line of its own, innermost first.
pub open spec fn rendered(msg: Seq<char>, crumbs: Seq<Seq<char>>) -> Seq<char>
    decreases crumbs.len(),
{
    if crumbs.len() == 0 {
        msg
    } else {
        rendered(msg, crumbs.drop_last()) + seq!['\n'] + crumbs.last()
    }
}

impl ParseError {
    /// The breadcrumbs, innermost first.
    pub open spec fn breadcrumbs(&self) -> Seq<Seq<char>> {
        self.context@.map_values(|l: String| l@)
    }

    pub fn new(kind: ErrorKind, msg: &str) -> (r: ParseError)
        ensures
            r.kind == kind,
            r.msg@ == msg@,
            r.breadcrumbs() == Seq::<Seq<char>>::empty(),
    {
        let r = ParseError { kind, msg: String::from_str(msg), context: Vec::new() };
        assert(r.breadcrumbs() =~= Seq::<Seq<char>>::empty());
        r
    }

    /// The text shown for this error: the message, then the breadcrumbs.
    pub fn describe(&self) -> (r: String)
        ensures
            r@ == rendered(self.msg@, self.breadcrumbs()),
    {
        let mut out = self.msg.clone();
        let mut i: usize = 0;
        while i < self.context.len()
            invariant
                i <= self.context@.len(),
                out@ == rendered(self.msg@, self.breadcrumbs().subrange(0, i as int)),
            decreases self.context@.len() - i,
        {
            proof {
                reveal_strlit("\n");
                assert(self.breadcrumbs().subrange(0, i + 1).drop_last() =~= self.breadcrumbs().subrange(0, i as int));
            }
            out = out.concat("\n");
            out = out.concat(self.context[i].as_str());
            i = i + 1;
        }
        assert(self.breadcrumbs().subrange(0, i as int) =~= self.breadcrumbs());
        out
    }

    /// Adds `label` as the outermost breadcrumb; kind and message stay.
    pub fn attach_context(self, label: &str) -> (r: ParseError)
        ensures
            r.kind == self.kind,
            r.msg@ == self.msg@,
            r.breadcrumbs() == self.breadcrumbs().push(label@),
    {
        let mut r = self;
        r.context.push(String::from_str(label));
        assert(r.breadcrumbs() =~= self.breadcrumbs().push(label@));
        r
    }
}

} // verus!
