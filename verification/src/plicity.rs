//! Whether an argument is written out or inferred.

use vstd::prelude::*;

verus! {

/// The visibility of a function parameter or argument.
#[derive(Copy, Clone, Debug, PartialEq, Eq, Structural)]
pub enum Plicity {
    /// Written as is.
    Explicit,
    /// Written with a leading `@`, and inserted by the elaborator where the
    /// user leaves it out.
    Implicit,
}

impl Plicity {
    /// The text that marks the plicity in surface syntax.
    pub open spec fn marker(self) -> Seq<char> {
        match self {
            Plicity::Explicit => Seq::empty(),
            Plicity::Implicit => seq!['@'],
        }
    }

    /// The prefix that surface syntax puts before a parameter or argument:
    /// `@` for an implicit one, nothing for an explicit one.
    pub fn pretty(self) -> (s: &'static str)
        ensures
            s@ == self.marker(),
    {
        proof {
            reveal_strlit("@");
            reveal_strlit("");
        }
        let s = match self {
            Plicity::Implicit => "@",
            Plicity::Explicit => "",
        };
        assert(s@ =~= self.marker());
        s
    }
}

} // verus!
