//! Names of variables and record fields.

use crate::text::{decimal, decimal_string, str_eq};
use vstd::prelude::*;
use vstd::std_specs::cmp::PartialEqSpecImpl;
use vstd::string::StringExecFns;

verus! {

/// A name, held as a shared reference to its text.
///
/// Two symbols are the same name when their text is the same, wherever the
/// text is stored.
#[derive(Copy, Clone, Debug)]
pub struct Symbol<'core> {
    pub text: &'core str,
}

impl<'core> View for Symbol<'core> {
    type V = Seq<char>;

    open spec fn view(&self) -> Seq<char> {
        self.text@
    }
}

impl<'core> PartialEq for Symbol<'core> {
    fn eq(&self, other: &Self) -> (r: bool) {
        str_eq(self.text, other.text)
    }
}

impl<'core> PartialEqSpecImpl for Symbol<'core> {
    open spec fn obeys_eq_spec() -> bool {
        true
    }

    open spec fn eq_spec(&self, other: &Self) -> bool {
        self@ == other@
    }
}

impl<'core> Eq for Symbol<'core> {

}

/// The label of the `index`-th component of a tuple: `_0`, `_1`, and so on.
pub open spec fn tuple_label(index: nat) -> Seq<char> {
    seq!['_'] + decimal(index)
}

/// Labels of different components differ.
pub proof fn lemma_tuple_label_injective(i: nat, j: nat)
    requires
        tuple_label(i) == tuple_label(j),
    ensures
        i == j,
{
    assert(decimal(i) =~= tuple_label(i).subrange(1, tuple_label(i).len() as int));
    assert(decimal(j) =~= tuple_label(j).subrange(1, tuple_label(j).len() as int));
    crate::text::lemma_decimal_injective(i, j);
}

/// The text of the label of the `index`-th component of a tuple.
pub fn tuple_label_string(index: usize) -> (s: String)
    ensures
        s@ == tuple_label(index as nat),
{
    proof {
        reveal_strlit("_");
    }
    let s = String::from_str("_");
    let digits = decimal_string(index);
    let s = s.concat(digits.as_str());
    assert(s@ =~= tuple_label(index as nat));
    s
}

impl<'core> Symbol<'core> {
    /// The name with the given text.
    pub fn new(text: &'core str) -> (s: Self)
        ensures
            s@ == text@,
            s.text == text,
    {
        Symbol { text }
    }

    /// The text of the name.
    pub fn as_str(&self) -> (s: &'core str)
        ensures
            s@ == self@,
            s == self.text,
    {
        self.text
    }

    /// Whether this name is the label of the `index`-th component of a tuple.
    pub fn is_tuple_label(&self, index: usize) -> (r: bool)
        ensures
            r == (self@ == tuple_label(index as nat)),
    {
        let label = tuple_label_string(index);
        str_eq(self.text, label.as_str())
    }
}

/// The text of an optional name.
pub open spec fn name_text(name: Option<Symbol>) -> Option<Seq<char>> {
    match name {
        Some(s) => Some(s@),
        None => None,
    }
}

} // verus!
