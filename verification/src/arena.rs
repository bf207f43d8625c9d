//! The bump arena that terms are allocated in.

use vstd::prelude::*;

verus! {

/// The bump arena of the `bumpalo` crate.
#[verifier::external_type_specification]
#[verifier::external_body]
pub struct ExBump<const MIN_ALIGN: usize>(bumpalo::Bump<MIN_ALIGN>);

/// Moves `value` into the arena and hands back a shared reference to it.
///
/// Trusted: `bumpalo::Bump::alloc` stores the value it is given unchanged
/// and returns a reference that lives as long as the arena. It fails only
/// where the allocator has no memory left.
#[verifier::external_body]
pub(crate) fn arena_alloc<'core, T>(bump: &'core bumpalo::Bump, value: T) -> (r: &'core T)
    ensures
        *r == value,
{
    bump.alloc(value)
}

/// Copies `text` into the arena.
///
/// Trusted: `bumpalo::Bump::alloc_str` copies the bytes of the string slice
/// and returns them as a string slice that lives as long as the arena.
#[verifier::external_body]
pub(crate) fn arena_alloc_str<'core>(bump: &'core bumpalo::Bump, text: &str) -> (r: &'core str)
    ensures
        r@ == text@,
{
    bump.alloc_str(text)
}

} // verus!
