use vstd::prelude::*;

verus! {

/// Moves `value` into `arena` for the arena's whole lifetime and returns the
/// handle of its slot. Slots are never freed, moved or reused, so a handle
/// stays valid, and names the same value, for as long as the arena lives.
pub fn allocate<T>(arena: &mut Vec<T>, value: T) -> (handle: usize)
    ensures
        handle == old(arena)@.len(),
        final(arena)@ == old(arena)@.push(value),
{
    let handle = arena.len();
    arena.push(value);
    handle
}

} // verus!
