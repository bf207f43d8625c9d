//! The primitives of the core language.

use vstd::prelude::*;

verus! {

/// A named primitive. Each has a fixed closed type.
#[derive(Copy, Clone, Debug, PartialEq, Eq, Structural)]
pub enum Prim {
    Type,
    Bool,
    Int,
    List,
    Eq,
    Add,
    Sub,
    Mul,
    IntEq,
    IntNe,
    IntLt,
    IntGt,
    IntLte,
    IntGte,
    Fix,
    Refl,
    Subst,
    Len,
    Push,
    Append,
    BoolRec,
    /// The head of a list literal: `[a, b]` is this primitive applied to
    /// the type of the items and then to the items, one after the other.
    /// Surface syntax has no name for it.
    ListLit,
}

impl Prim {
    /// The name of the primitive: that under which surface syntax knows it,
    /// where it knows it.
    pub fn name(self) -> (s: &'static str)
        ensures
            s@ == self.name_text(),
    {
        match self {
            Prim::Type => "Type",
            Prim::Bool => "Bool",
            Prim::Int => "Int",
            Prim::List => "List",
            Prim::Eq => "Eq",
            Prim::Add => "add",
            Prim::Sub => "sub",
            Prim::Mul => "mul",
            Prim::IntEq => "eq",
            Prim::IntNe => "ne",
            Prim::IntLt => "lt",
            Prim::IntGt => "gt",
            Prim::IntLte => "lte",
            Prim::IntGte => "gte",
            Prim::Fix => "fix",
            Prim::Refl => "refl",
            Prim::Subst => "subst",
            Prim::Len => "len",
            Prim::Push => "push",
            Prim::Append => "append",
            Prim::BoolRec => "bool_rec",
            Prim::ListLit => "list",
        }
    }

    /// The text of [`Prim::name`].
    pub open spec fn name_text(self) -> Seq<char> {
        match self {
            Prim::Type => "Type"@,
            Prim::Bool => "Bool"@,
            Prim::Int => "Int"@,
            Prim::List => "List"@,
            Prim::Eq => "Eq"@,
            Prim::Add => "add"@,
            Prim::Sub => "sub"@,
            Prim::Mul => "mul"@,
            Prim::IntEq => "eq"@,
            Prim::IntNe => "ne"@,
            Prim::IntLt => "lt"@,
            Prim::IntGt => "gt"@,
            Prim::IntLte => "lte"@,
            Prim::IntGte => "gte"@,
            Prim::Fix => "fix"@,
            Prim::Refl => "refl"@,
            Prim::Subst => "subst"@,
            Prim::Len => "len"@,
            Prim::Push => "push"@,
            Prim::Append => "append"@,
            Prim::BoolRec => "bool_rec"@,
            Prim::ListLit => "list"@,
        }
    }
}

} // verus!
