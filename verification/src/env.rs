//! De Bruijn indices and levels, and the stacks that they index.
//!
//! A term names a bound variable by its index: the number of binders between
//! the use and the binder, 0 for the nearest. A value names it by its level:
//! the number of binders outside its binder, 0 for the outermost. In an
//! environment of length `n`, index `i` and level `n - 1 - i` name the same
//! entry.

use crate::arena::arena_alloc;
use vstd::prelude::*;

verus! {

/// The number of entries of an environment.
#[derive(Copy, Clone, Debug, PartialEq, Eq, Structural)]
pub struct EnvLen {
    pub len: usize,
}

/// A de Bruijn index: 0 is the most recently bound variable.
#[derive(Copy, Clone, Debug, PartialEq, Eq, Structural)]
pub struct RelativeVar {
    pub index: usize,
}

/// A de Bruijn level: 0 is the first variable bound.
#[derive(Copy, Clone, Debug, PartialEq, Eq, Structural)]
pub struct AbsoluteVar {
    pub level: usize,
}

/// The level that index `index` names in an environment of length `len`.
pub open spec fn index_to_level(len: nat, index: nat) -> Option<nat> {
    if index < len {
        Some((len - 1 - index) as nat)
    } else {
        None
    }
}

/// The index that names level `level` in an environment of length `len`.
pub open spec fn level_to_index(len: nat, level: nat) -> Option<nat> {
    if level < len {
        Some((len - 1 - level) as nat)
    } else {
        None
    }
}

/// Converting an index to a level and back gives the index again, and the
/// other way round.
pub proof fn lemma_index_level_inverse(len: nat, var: nat)
    requires
        var < len,
    ensures
        level_to_index(len, index_to_level(len, var).unwrap()) == Some(var),
        index_to_level(len, level_to_index(len, var).unwrap()) == Some(var),
{
}

impl RelativeVar {
    /// The index of the most recently bound variable.
    pub fn new() -> (v: Self)
        ensures
            v.index == 0,
    {
        RelativeVar { index: 0 }
    }

    /// The index that names, under one more binder, what `self` names here;
    /// `None` where that index does not fit the machine word.
    pub fn checked_succ(self) -> (v: Option<Self>)
        ensures
            self.index < usize::MAX ==> v == Some(RelativeVar { index: (self.index + 1) as usize }),
            self.index == usize::MAX ==> v is None,
    {
        if self.index < usize::MAX {
            Some(RelativeVar { index: self.index + 1 })
        } else {
            None
        }
    }

    /// The index that names, under one more binder, what `self` names here.
    pub fn succ(self) -> (v: Self)
        requires
            self.index < usize::MAX,
        ensures
            v.index == self.index + 1,
    {
        RelativeVar { index: self.index + 1 }
    }
}

impl AbsoluteVar {
    /// The level of the first variable bound.
    pub fn new() -> (v: Self)
        ensures
            v.level == 0,
    {
        AbsoluteVar { level: 0 }
    }
}

impl EnvLen {
    /// The length of the empty environment.
    pub fn new() -> (n: Self)
        ensures
            n.len == 0,
    {
        EnvLen { len: 0 }
    }

    /// The level that the next variable bound will have.
    pub fn to_absolute(self) -> (v: AbsoluteVar)
        ensures
            v.level == self.len,
    {
        AbsoluteVar { level: self.len }
    }

    /// The index that names level `var` in an environment of this length;
    /// `None` if the level is not bound in it.
    pub fn absolute_to_relative(self, var: AbsoluteVar) -> (r: Option<RelativeVar>)
        ensures
            match r {
                Some(v) => level_to_index(self.len as nat, var.level as nat) == Some(v.index as nat),
                None => level_to_index(self.len as nat, var.level as nat) is None,
            },
    {
        if var.level < self.len {
            Some(RelativeVar { index: self.len - 1 - var.level })
        } else {
            None
        }
    }

    /// The level that index `var` names in an environment of this length;
    /// `None` if the index is not bound in it.
    pub fn relative_to_absolute(self, var: RelativeVar) -> (r: Option<AbsoluteVar>)
        ensures
            match r {
                Some(v) => index_to_level(self.len as nat, var.index as nat) == Some(v.level as nat),
                None => index_to_level(self.len as nat, var.index as nat) is None,
            },
    {
        if var.index < self.len {
            Some(AbsoluteVar { level: self.len - 1 - var.index })
        } else {
            None
        }
    }
}

/// A stack that has one owner: entries are pushed and popped in place.
#[derive(Debug)]
pub struct UniqueEnv<T> {
    pub elems: Vec<T>,
}

impl<T> View for UniqueEnv<T> {
    type V = Seq<T>;

    open spec fn view(&self) -> Seq<T> {
        self.elems@
    }
}

impl<T> UniqueEnv<T> {
    /// The empty stack.
    pub fn new() -> (env: Self)
        ensures
            env@ == Seq::<T>::empty(),
    {
        UniqueEnv { elems: Vec::new() }
    }

    /// The number of entries.
    pub fn len(&self) -> (n: EnvLen)
        ensures
            n.len == self@.len(),
    {
        EnvLen { len: self.elems.len() }
    }

    /// Whether the stack has no entry.
    pub fn is_empty(&self) -> (r: bool)
        ensures
            r == (self@.len() == 0),
    {
        self.elems.len() == 0
    }

    /// Puts `elem` on top.
    pub fn push(&mut self, elem: T)
        ensures
            final(self)@ == old(self)@.push(elem),
    {
        self.elems.push(elem);
    }

    /// Takes the top entry off, if there is one.
    pub fn pop(&mut self) -> (r: Option<T>)
        ensures
            old(self)@.len() == 0 ==> r is None && final(self)@ == old(self)@,
            old(self)@.len() > 0 ==> r == Some(old(self)@.last()) && final(self)@ == old(
                self,
            )@.drop_last(),
    {
        self.elems.pop()
    }

    /// Takes entries off the top until at most `len` are left.
    pub fn truncate(&mut self, len: EnvLen)
        ensures
            len.len <= old(self)@.len() ==> final(self)@ == old(self)@.take(len.len as int),
            len.len > old(self)@.len() ==> final(self)@ == old(self)@,
    {
        if len.len <= self.elems.len() {
            self.elems.truncate(len.len);
        }
    }

    /// Puts `elem` in the place of the entry at level `var`. Does nothing
    /// where there is no such entry.
    pub fn set_absolute(&mut self, var: AbsoluteVar, elem: T)
        ensures
            var.level < old(self)@.len() ==> final(self)@ == old(self)@.update(
                var.level as int,
                elem,
            ),
            var.level >= old(self)@.len() ==> final(self)@ == old(self)@,
    {
        if var.level < self.elems.len() {
            self.elems[var.level] = elem;
        }
    }

    /// The entry at level `var`.
    pub fn get_absolute(&self, var: AbsoluteVar) -> (r: Option<&T>)
        ensures
            var.level < self@.len() ==> r == Some(&self@[var.level as int]),
            var.level >= self@.len() ==> r is None,
    {
        if var.level < self.elems.len() {
            Some(&self.elems[var.level])
        } else {
            None
        }
    }

    /// The entry at index `var`, counted from the top.
    pub fn get_relative(&self, var: RelativeVar) -> (r: Option<&T>)
        ensures
            var.index < self@.len() ==> r == Some(&self@[self@.len() - 1 - var.index]),
            var.index >= self@.len() ==> r is None,
    {
        if var.index < self.elems.len() {
            Some(&self.elems[self.elems.len() - 1 - var.index])
        } else {
            None
        }
    }
}

/// A stack that can be shared: a copy of it is a snapshot, which later
/// pushes and pops on the stack that it was copied from leave as it was.
///
/// The entries live in the arena, each holding the stack below it, so that a
/// snapshot costs nothing and a push one allocation.
#[derive(Debug, Copy, Clone)]
pub enum SharedEnv<'core, T> {
    Empty,
    Entry(&'core SharedEntry<'core, T>),
}

/// The top entry of a shared stack, and the stack below it.
#[derive(Debug, Copy, Clone)]
pub struct SharedEntry<'core, T> {
    pub rest: SharedEnv<'core, T>,
    pub top: T,
}

impl<'core, T> SharedEnv<'core, T> {
    /// The entries, the first pushed first.
    pub open spec fn entries(self) -> Seq<T>
        decreases self,
    {
        match self {
            SharedEnv::Empty => Seq::empty(),
            SharedEnv::Entry(entry) => entry.rest.entries().push(entry.top),
        }
    }
}

impl<'core, T> SharedEnv<'core, T> {
    /// The stack with `elem` on top.
    pub open spec fn pushed(self, elem: T) -> Self {
        SharedEnv::Entry(&SharedEntry { rest: self, top: elem })
    }

    /// The stack without its top entry; the empty stack stays empty.
    pub open spec fn popped(self) -> Self {
        match self {
            SharedEnv::Empty => SharedEnv::Empty,
            SharedEnv::Entry(entry) => entry.rest,
        }
    }

    /// The number of entries, as far as a machine word counts.
    pub open spec fn level(self) -> usize {
        if self.entries().len() <= usize::MAX {
            self.entries().len() as usize
        } else {
            usize::MAX
        }
    }
}

impl<'core, T> View for SharedEnv<'core, T> {
    type V = Seq<T>;

    open spec fn view(&self) -> Seq<T> {
        self.entries()
    }
}

impl<'core, T: Copy> SharedEnv<'core, T> {
    /// The empty stack.
    pub fn new() -> (env: Self)
        ensures
            env@ == Seq::<T>::empty(),
    {
        SharedEnv::Empty
    }

    /// The number of entries, as far as a machine word counts. Takes time
    /// in proportion to it.
    pub fn len(&self) -> (n: EnvLen)
        ensures
            n.len == self.level(),
    {
        let mut rest = *self;
        let mut n: usize = 0;
        loop
            invariant
                n < usize::MAX ==> rest@.len() + n == self@.len(),
                n == usize::MAX ==> self@.len() >= usize::MAX,
            ensures
                n == self.level(),
            decreases rest@.len(),
        {
            match rest {
                SharedEnv::Empty => {
                    break ;
                },
                SharedEnv::Entry(entry) => {
                    rest = entry.rest;
                    if n < usize::MAX {
                        n += 1;
                    }
                },
            }
        }
        EnvLen { len: n }
    }

    /// The stack with `elem` on top.
    pub fn push(&mut self, bump: &'core bumpalo::Bump, elem: T)
        ensures
            *final(self) == old(self).pushed(elem),
            final(self)@ == old(self)@.push(elem),
    {
        let entry = arena_alloc(bump, SharedEntry { rest: *self, top: elem });
        *self = SharedEnv::Entry(entry);
    }

    /// Takes the top entry off, if there is one.
    pub fn pop(&mut self) -> (r: Option<T>)
        ensures
            old(self)@.len() == 0 ==> r is None && final(self)@ == old(self)@,
            old(self)@.len() > 0 ==> r == Some(old(self)@.last()) && final(self)@ == old(
                self,
            )@.drop_last(),
            *final(self) == old(self).popped(),
    {
        match *self {
            SharedEnv::Empty => None,
            SharedEnv::Entry(entry) => {
                assert(entry.rest@ =~= self@.drop_last());
                *self = entry.rest;
                Some(entry.top)
            },
        }
    }

    /// The stack without its top `count` entries; empty where it has no
    /// more than that.
    pub fn dropped(&self, count: usize) -> (r: Self)
        ensures
            count <= self@.len() ==> r@ == self@.take(self@.len() - count),
            count > self@.len() ==> r@ == Seq::<T>::empty(),
    {
        let mut rest = *self;
        let mut k: usize = 0;
        while k < count
            invariant
                k <= count,
                k <= self@.len() ==> rest@ == self@.take(self@.len() - k),
                k > self@.len() ==> rest@ == Seq::<T>::empty(),
            decreases count - k,
        {
            match rest {
                SharedEnv::Empty => {
                    assert(rest@.len() == 0);
                },
                SharedEnv::Entry(entry) => {
                    assert(entry.rest@ =~= self@.take(self@.len() - k - 1));
                    rest = entry.rest;
                },
            }
            k += 1;
        }
        rest
    }

    /// Takes entries off the top until at most `len` are left.
    pub fn truncate(&mut self, len: EnvLen)
        requires
            old(self)@.len() <= usize::MAX,
        ensures
            len.len <= old(self)@.len() ==> final(self)@ == old(self)@.take(len.len as int),
            len.len > old(self)@.len() ==> final(self)@ == old(self)@,
    {
        let current = self.len();
        if len.len < current.len {
            *self = self.dropped(current.len - len.len);
        } else {
            assert(self@.take(self@.len() as int) =~= self@);
        }
    }

    /// The entry at index `var`, counted from the top.
    pub fn get_relative(&self, var: RelativeVar) -> (r: Option<T>)
        ensures
            var.index < self@.len() ==> r == Some(self@[self@.len() - 1 - var.index]),
            var.index >= self@.len() ==> r is None,
    {
        let rest = self.dropped(var.index);
        match rest {
            SharedEnv::Empty => {
                assert(rest@.len() == 0);
                None
            },
            SharedEnv::Entry(entry) => {
                assert(rest@.last() == entry.top);
                Some(entry.top)
            },
        }
    }
}

} // verus!
