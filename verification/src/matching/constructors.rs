//! The head constructors of patterns, and whether those of a column cover
//! every value of its type.

use super::matrix::PatMatrix;
use crate::symbol::Symbol;
use crate::syntax::{Const, Pat};
use smallvec::SmallVec;
use vstd::prelude::*;
use vstd::std_specs::cmp::PartialEqSpecImpl;
use vstd::std_specs::convert::FromSpecImpl;

verus! {

/// The integer literals of a column: a small vector that stays inline while
/// it holds at most four.
#[verifier::external_body]
#[derive(Debug)]
pub struct IntKeys {
    inner: SmallVec<[u32; 4]>,
}

/// The integers that the vector holds, in order.
pub uninterp spec fn ints_of(keys: IntKeys) -> Seq<u32>;

/// Whether each element is less than the next.
pub open spec fn strictly_ascending(s: Seq<u32>) -> bool {
    forall|i: int, j: int| 0 <= i < j < s.len() ==> s[i] < s[j]
}

impl IntKeys {
    /// An empty vector.
    ///
    /// Trusted: `SmallVec::new` makes a vector of length 0.
    #[verifier::external_body]
    pub(crate) fn new() -> (keys: Self)
        ensures
            ints_of(keys) == Seq::<u32>::empty(),
    {
        IntKeys { inner: SmallVec::new() }
    }

    /// The number of elements.
    ///
    /// Trusted: `SmallVec::len` is the number of elements stored.
    #[verifier::external_body]
    pub(crate) fn len(&self) -> (n: usize)
        ensures
            n == ints_of(*self).len(),
    {
        self.inner.len()
    }

    /// Puts `value` at position `index`, moving what follows one place on.
    ///
    /// Trusted: `SmallVec::insert` shifts the elements from `index` on to
    /// the right and writes `value` at `index`; it panics only where `index`
    /// is greater than the length.
    #[verifier::external_body]
    pub(crate) fn insert(&mut self, index: usize, value: u32)
        requires
            index <= ints_of(*old(self)).len(),
        ensures
            ints_of(*final(self)) == ints_of(*old(self)).insert(index as int, value),
    {
        self.inner.insert(index, value)
    }

    /// Looks `value` up in a sorted vector.
    ///
    /// Trusted: the vector derefs to the slice of its elements, and
    /// `slice::binary_search` on a sorted slice returns `Ok` with the index
    /// of an element equal to `value`, or, where there is none, `Err` with
    /// the index at which `value` can be inserted so that the slice stays
    /// sorted.
    #[verifier::external_body]
    pub(crate) fn binary_search(&self, value: u32) -> (r: Result<usize, usize>)
        requires
            strictly_ascending(ints_of(*self)),
        ensures
            match r {
                Ok(i) => i < ints_of(*self).len() && ints_of(*self)[i as int] == value,
                Err(i) => {
                    &&& i <= ints_of(*self).len()
                    &&& forall|j: int| 0 <= j < i ==> ints_of(*self)[j] < value
                    &&& forall|j: int| i <= j < ints_of(*self).len() ==> value < ints_of(*self)[j]
                },
            },
    {
        self.inner.binary_search(&value)
    }

    /// The elements, in order.
    ///
    /// Trusted: the vector derefs to the slice of its elements, which
    /// `to_vec` copies.
    #[verifier::external_body]
    pub(crate) fn to_vec(&self) -> (v: Vec<u32>)
        ensures
            v@ == ints_of(*self),
    {
        self.inner.to_vec()
    }
}

/// The head constructor of a pattern.
#[derive(Debug, Copy, Clone)]
pub enum Constructor<'core> {
    Lit(Const),
    Record(&'core Vec<(Symbol<'core>, Pat<'core>)>),
}

/// The labels of the fields of a record pattern, in order.
pub open spec fn labels(fields: Seq<(Symbol, Pat)>) -> Seq<Seq<char>> {
    Seq::new(fields.len(), |i: int| fields[i].0@)
}

impl<'core> Constructor<'core> {
    /// Whether two constructors are the same: the same literal, or records
    /// with the same labels in the same order.
    pub open spec fn same(self, other: Self) -> bool {
        match (self, other) {
            (Constructor::Lit(a), Constructor::Lit(b)) => a == b,
            (Constructor::Record(a), Constructor::Record(b)) => labels(a@) == labels(b@),
            _ => false,
        }
    }

    /// The number of fields that the constructor carries.
    pub fn arity(&self) -> (n: usize)
        ensures
            n == match *self {
                Constructor::Lit(_) => 0,
                Constructor::Record(fields) => fields@.len(),
            },
    {
        match *self {
            Constructor::Lit(_) => 0,
            Constructor::Record(fields) => fields.len(),
        }
    }
}

impl<'core> PartialEq for Constructor<'core> {
    fn eq(&self, other: &Self) -> (r: bool) {
        match (*self, *other) {
            (Constructor::Lit(left), Constructor::Lit(right)) => left == right,
            (Constructor::Record(left), Constructor::Record(right)) => {
                if left.len() != right.len() {
                    proof {
                        assert(labels(left@).len() != labels(right@).len());
                    }
                    return false;
                }
                let mut i: usize = 0;
                while i < left.len()
                    invariant
                        i <= left@.len(),
                        left@.len() == right@.len(),
                        *self == Constructor::Record(left),
                        *other == Constructor::Record(right),
                        forall|j: int| 0 <= j < i ==> left@[j].0@ == right@[j].0@,
                    decreases left@.len() - i,
                {
                    if left[i].0 != right[i].0 {
                        proof {
                            assert(labels(left@)[i as int] != labels(right@)[i as int]);
                        }
                        return false;
                    }
                    i += 1;
                }
                proof {
                    assert(labels(left@) =~= labels(right@));
                }
                true
            },
            _ => false,
        }
    }
}

impl<'core> PartialEqSpecImpl for Constructor<'core> {
    open spec fn obeys_eq_spec() -> bool {
        true
    }

    open spec fn eq_spec(&self, other: &Self) -> bool {
        self.same(*other)
    }
}

impl<'core> Eq for Constructor<'core> {

}

/// Which of the two boolean literals a column holds.
#[derive(Debug, Copy, Clone, PartialEq, Eq, Structural)]
pub enum Bools {
    False,
    True,
    Both,
}

impl Bools {
    /// Whether the literal `b` is among them.
    pub fn contains(self, b: bool) -> (r: bool)
        ensures
            r == self.has(b),
    {
        match self {
            Bools::False => !b,
            Bools::True => b,
            Bools::Both => true,
        }
    }

    /// Whether the literal `b` is among them.
    pub open spec fn has(self, b: bool) -> bool {
        match self {
            Bools::False => !b,
            Bools::True => b,
            Bools::Both => true,
        }
    }
}

impl From<bool> for Bools {
    fn from(value: bool) -> (r: Self) {
        if value {
            Bools::True
        } else {
            Bools::False
        }
    }
}

impl FromSpecImpl<bool> for Bools {
    open spec fn obeys_from_spec() -> bool {
        true
    }

    open spec fn from_spec(value: bool) -> Self {
        if value {
            Bools::True
        } else {
            Bools::False
        }
    }
}

/// The constructors that the patterns of a column hold.
#[derive(Debug)]
pub enum Constructors<'core> {
    /// The fields of the first record pattern: a record type has one
    /// constructor.
    Record(&'core Vec<(Symbol<'core>, Pat<'core>)>),
    Bools(Bools),
    /// The integer literals, each once, in ascending order.
    Ints(IntKeys),
}

impl<'core> Constructors<'core> {
    /// Whether the constructors are all that the type has: a match on them
    /// needs no default.
    pub open spec fn exhaustive(self) -> bool {
        match self {
            Constructors::Record(_) => true,
            Constructors::Bools(bools) => bools == Bools::Both,
            Constructors::Ints(keys) => ints_of(keys).len() >= 0x1_0000_0000,
        }
    }

    /// Whether the constructors are all that the type has.
    pub fn is_exhaustive(&self) -> (r: bool)
        ensures
            r == self.exhaustive(),
    {
        match self {
            Constructors::Record(_) => true,
            Constructors::Bools(bools) => *bools == Bools::Both,
            Constructors::Ints(keys) => keys.len() as u64 >= 0x1_0000_0000u64,
        }
    }
}

/// In an ascending sequence each element is at least its position.
proof fn lemma_ascending_lower(s: Seq<u32>, i: int)
    requires
        strictly_ascending(s),
        0 <= i < s.len(),
    ensures
        s[i] >= i,
    decreases i,
{
    if i > 0 {
        lemma_ascending_lower(s, i - 1);
    }
}

/// In an ascending sequence each element is as far below the last as its
/// position is.
proof fn lemma_ascending_upper(s: Seq<u32>, i: int)
    requires
        strictly_ascending(s),
        0 <= i < s.len(),
    ensures
        s[i] + (s.len() - 1 - i) <= s[s.len() - 1],
    decreases s.len() - i,
{
    if i < s.len() - 1 {
        lemma_ascending_upper(s, i + 1);
    }
}

/// Integer keys that are exhaustive leave no gap: every integer of the type
/// is among them.
pub proof fn lemma_exhaustive_ints_have_no_gap(keys: IntKeys, value: u32)
    requires
        strictly_ascending(ints_of(keys)),
        Constructors::Ints(keys).exhaustive(),
    ensures
        ints_of(keys).contains(value),
{
    let s = ints_of(keys);
    lemma_ascending_lower(s, value as int);
    lemma_ascending_upper(s, value as int);
    assert(s[value as int] == value);
}

/// What a pattern matches without looking at the value: a binder, `_`, or a
/// pattern that failed to elaborate.
pub open spec fn is_wildcard(pat: Pat) -> bool {
    pat is Error || pat is Underscore || pat is Ident
}

/// The head constructor of a pattern, if it has one.
pub open spec fn pat_constructor<'core>(pat: Pat<'core>) -> Option<Constructor<'core>> {
    match pat {
        Pat::Error | Pat::Underscore | Pat::Ident(_) => None,
        Pat::Lit(lit) => Some(Constructor::Lit(lit)),
        Pat::RecordLit(fields) => Some(Constructor::Record(fields)),
    }
}

/// The constructors of one pattern: none for a wildcard, else one.
#[derive(Debug, Copy, Clone)]
pub struct PatConstructors<'core> {
    pub pat: Pat<'core>,
}

impl<'core> PatConstructors<'core> {
    pub fn new(pat: Pat<'core>) -> (r: Self)
        ensures
            r.pat == pat,
    {
        PatConstructors { pat }
    }

    /// The first constructor, if there is one.
    pub fn next(&self) -> (r: Option<Constructor<'core>>)
        ensures
            r == pat_constructor(self.pat),
    {
        match self.pat {
            Pat::Error | Pat::Underscore | Pat::Ident(_) => None,
            Pat::Lit(lit) => Some(Constructor::Lit(lit)),
            Pat::RecordLit(fields) => Some(Constructor::Record(fields)),
        }
    }
}

/// Whether the pattern has a head constructor.
pub fn has_constructors(pat: &Pat) -> (r: bool)
    ensures
        r == pat_constructor(*pat).is_some(),
{
    PatConstructors::new(*pat).next().is_some()
}

/// Whether `k` is the position of the first pattern of the column that is
/// no wildcard.
pub open spec fn is_first_constructor(column: Seq<Pat>, k: int) -> bool {
    &&& 0 <= k < column.len()
    &&& !is_wildcard(column[k])
    &&& forall|j: int| 0 <= j < k ==> is_wildcard(#[trigger] column[j])
}

/// Whether `found` is what the column holds:
/// nothing where every pattern is a wildcard; else, by the first pattern
/// that is none, the fields of that record pattern, the boolean literals
/// that occur, or the integer literals that occur, each once and ascending.
pub open spec fn column_holds(column: Seq<Pat>, found: Option<Constructors>) -> bool {
    match found {
        None => forall|i: int| 0 <= i < column.len() ==> is_wildcard(#[trigger] column[i]),
        Some(constructors) => exists|k: int| #[trigger]
            is_first_constructor(column, k) && match column[k] {
                Pat::RecordLit(fields) => constructors == Constructors::Record(fields),
                Pat::Lit(Const::Bool(b)) => {
                    &&& constructors is Bools
                    &&& forall|c: bool|
                        constructors->Bools_0.has(c) <==> column.contains(Pat::Lit(Const::Bool(c)))
                },
                Pat::Lit(Const::Int(_)) => {
                    &&& constructors is Ints
                    &&& strictly_ascending(ints_of(constructors->Ints_0))
                    &&& forall|v: u32|
                        ints_of(constructors->Ints_0).contains(v) <==> column.contains(
                            Pat::Lit(Const::Int(v)),
                        )
                },
                _ => false,
            },
    }
}

/// Inserting a new element in its place keeps a sequence ascending, and
/// adds that element and no other.
pub proof fn lemma_insert_ascending(s: Seq<u32>, pos: int, value: u32)
    requires
        strictly_ascending(s),
        0 <= pos <= s.len(),
        forall|j: int| 0 <= j < pos ==> s[j] < value,
        forall|j: int| pos <= j < s.len() ==> value < s[j],
    ensures
        strictly_ascending(s.insert(pos, value)),
        forall|x: u32| s.insert(pos, value).contains(x) <==> (s.contains(x) || x == value),
{
    let t = s.insert(pos, value);
    assert(t.len() == s.len() + 1);
    assert(forall|i: int| 0 <= i < pos ==> t[i] == s[i]);
    assert(t[pos] == value);
    assert(forall|i: int| pos < i < t.len() ==> t[i] == s[i - 1]);
    assert forall|x: u32| t.contains(x) <==> (s.contains(x) || x == value) by {
        if t.contains(x) {
            let i = choose|i: int| 0 <= i < t.len() && t[i] == x;
            if i < pos {
                assert(s[i] == x);
            } else if i > pos {
                assert(s[i - 1] == x);
            }
        }
        if s.contains(x) {
            let i = choose|i: int| 0 <= i < s.len() && s[i] == x;
            if i < pos {
                assert(t[i] == x);
            } else {
                assert(t[i + 1] == x);
            }
        }
    }
}

impl<'core> PatMatrix<'core> {
    /// Collects the constructors of the patterns in column `index`.
    pub fn column_constructors(&self, index: usize) -> (r: Option<Constructors<'core>>)
        requires
            self.has_column(index as nat),
        ensures
            column_holds(self.column(index as nat), r),
    {
        let ghost column = self.column(index as nat);
        let n = self.rows.len();
        let mut k: usize = 0;
        while k < n
            invariant
                n == self.rows@.len(),
                k <= n,
                self.has_column(index as nat),
                column == self.column(index as nat),
                forall|j: int| 0 <= j < k ==> is_wildcard(#[trigger] column[j]),
            decreases n - k,
        {
            let pat = self.rows[k].pats[index];
            assert(pat == column[k as int]);
            match pat {
                Pat::Error | Pat::Underscore | Pat::Ident(_) => {},
                Pat::RecordLit(fields) => {
                    assert(is_first_constructor(column, k as int));
                    return Some(Constructors::Record(fields));
                },
                Pat::Lit(Const::Bool(value)) => {
                    assert(is_first_constructor(column, k as int));
                    return Some(Constructors::Bools(self.column_bools(index, k, value)));
                },
                Pat::Lit(Const::Int(value)) => {
                    assert(is_first_constructor(column, k as int));
                    return Some(Constructors::Ints(self.column_ints(index, k, value)));
                },
            }
            k += 1;
        }
        None
    }

    /// The boolean literals of a column whose first constructor, in row
    /// `first`, is the literal `value`.
    fn column_bools(&self, index: usize, first: usize, value: bool) -> (r: Bools)
        requires
            self.has_column(index as nat),
            is_first_constructor(self.column(index as nat), first as int),
            self.column(index as nat)[first as int] == Pat::Lit(Const::Bool(value)),
        ensures
            forall|c: bool|
                r.has(c) <==> self.column(index as nat).contains(Pat::Lit(Const::Bool(c))),
    {
        let ghost column = self.column(index as nat);
        let n = self.rows.len();
        let mut j: usize = first + 1;
        while j < n
            invariant
                n == self.rows@.len(),
                first < j <= n,
                self.has_column(index as nat),
                column == self.column(index as nat),
                is_first_constructor(column, first as int),
                column[first as int] == Pat::Lit(Const::Bool(value)),
                forall|i: int| 0 <= i < j ==> #[trigger] column[i] != Pat::Lit(Const::Bool(!value)),
            decreases n - j,
        {
            let pat = self.rows[j].pats[index];
            assert(pat == column[j as int]);
            match pat {
                Pat::Lit(Const::Bool(other)) => {
                    if other != value {
                        assert(column.contains(Pat::Lit(Const::Bool(other))));
                        assert(column.contains(Pat::Lit(Const::Bool(value))));
                        return Bools::Both;
                    }
                },
                _ => {},
            }
            j += 1;
        }
        assert(column.contains(Pat::Lit(Const::Bool(value))));
        Bools::from(value)
    }

    /// The integer literals of a column whose first constructor, in row
    /// `first`, is the literal `value`.
    fn column_ints(&self, index: usize, first: usize, value: u32) -> (keys: IntKeys)
        requires
            self.has_column(index as nat),
            is_first_constructor(self.column(index as nat), first as int),
            self.column(index as nat)[first as int] == Pat::Lit(Const::Int(value)),
        ensures
            strictly_ascending(ints_of(keys)),
            forall|v: u32|
                ints_of(keys).contains(v) <==> self.column(index as nat).contains(
                    Pat::Lit(Const::Int(v)),
                ),
    {
        let ghost column = self.column(index as nat);
        let n = self.rows.len();
        let mut keys = IntKeys::new();
        proof {
            lemma_insert_ascending(ints_of(keys), 0, value);
        }
        keys.insert(0, value);
        proof {
            assert forall|v: u32| ints_of(keys).contains(v) <==> exists|i: int|
                0 <= i < first + 1 && #[trigger] column[i] == Pat::Lit(Const::Int(v)) by {
                let none = Seq::<u32>::empty();
                assert(ints_of(keys) == none.insert(0, value));
                assert(!none.contains(v));
                assert(none.insert(0, value).contains(v) <==> (none.contains(v) || v == value));
                if v == value {
                    assert(column[first as int] == Pat::Lit(Const::Int(v)));
                }
                if exists|i: int|
                    0 <= i < first + 1 && #[trigger] column[i] == Pat::Lit(Const::Int(v)) {
                    let i = choose|i: int|
                        0 <= i < first + 1 && #[trigger] column[i] == Pat::Lit(Const::Int(v));
                    assert(!is_wildcard(column[i]));
                    assert(i == first);
                }
            }
        }
        let mut j: usize = first + 1;
        while j < n
            invariant
                n == self.rows@.len(),
                first < j <= n,
                self.has_column(index as nat),
                column == self.column(index as nat),
                is_first_constructor(column, first as int),
                column[first as int] == Pat::Lit(Const::Int(value)),
                strictly_ascending(ints_of(keys)),
                forall|v: u32|
                    ints_of(keys).contains(v) <==> exists|i: int|
                        0 <= i < j && #[trigger] column[i] == Pat::Lit(Const::Int(v)),
            decreases n - j,
        {
            let pat = self.rows[j].pats[index];
            assert(pat == column[j as int]);
            let ghost before = ints_of(keys);
            match pat {
                Pat::Lit(Const::Int(other)) => {
                    match keys.binary_search(other) {
                        Ok(pos) => {
                            assert(before.contains(other));
                        },
                        Err(pos) => {
                            proof {
                                lemma_insert_ascending(before, pos as int, other);
                            }
                            keys.insert(pos, other);
                        },
                    }
                },
                _ => {},
            }
            proof {
                let after = ints_of(keys);
                assert forall|v: u32| after.contains(v) <==> exists|i: int|
                    0 <= i < j + 1 && #[trigger] column[i] == Pat::Lit(Const::Int(v)) by {
                    if after.contains(v) {
                        if before.contains(v) {
                            let i = choose|i: int|
                                0 <= i < j && #[trigger] column[i] == Pat::Lit(Const::Int(v));
                            assert(0 <= i < j + 1 && column[i] == Pat::Lit(Const::Int(v)));
                        } else {
                            assert(column[j as int] == Pat::Lit(Const::Int(v)));
                        }
                    }
                    if exists|i: int|
                        0 <= i < j + 1 && #[trigger] column[i] == Pat::Lit(Const::Int(v)) {
                        let i = choose|i: int|
                            0 <= i < j + 1 && #[trigger] column[i] == Pat::Lit(Const::Int(v));
                        if i < j {
                            assert(before.contains(v));
                        }
                    }
                }
            }
            j += 1;
        }
        proof {
            assert forall|v: u32|
                ints_of(keys).contains(v) <==> column.contains(Pat::Lit(Const::Int(v))) by {
                if column.contains(Pat::Lit(Const::Int(v))) {
                    let i = choose|i: int|
                        0 <= i < column.len() && column[i] == Pat::Lit(Const::Int(v));
                    assert(column[i] == Pat::Lit(Const::Int(v)));
                }
            }
        }
        keys
    }
}

} // verus!
