//! Sets of grid cells, held in Bevy's hash set.

use bevy::platform::collections::HashSet;
use vstd::prelude::*;

verus! {

/// `bevy::platform::hash::FixedHasher`, the set's hasher; opaque.
#[verifier::external_type_specification]
#[verifier::external_body]
pub struct ExFixedHasher(bevy::platform::hash::FixedHasher);

/// `bevy::platform::collections::HashSet`; opaque, read through [`members`].
#[verifier::external_type_specification]
#[verifier::external_body]
#[verifier::reject_recursive_types(T)]
#[verifier::reject_recursive_types(S)]
pub struct ExHashSet<T, S>(bevy::platform::collections::HashSet<T, S>);

/// The cells that a set holds.
pub uninterp spec fn members(cells: HashSet<(i32, i32)>) -> Set<(i32, i32)>;

/// `HashSet::new`: the new set holds nothing.
#[verifier::external_body]
pub(crate) fn no_cells() -> (cells: HashSet<(i32, i32)>)
    ensures
        members(cells) == Set::<(i32, i32)>::empty(),
{
    HashSet::new()
}

/// `HashSet::contains`: whether the set holds the cell.
#[verifier::external_body]
pub(crate) fn holds(cells: &HashSet<(i32, i32)>, cell: (i32, i32)) -> (found: bool)
    ensures
        found == members(*cells).contains(cell),
{
    cells.contains(&cell)
}

/// `HashSet::insert`: afterwards the set holds the cell and what it held before;
/// the answer tells whether the cell is new.
#[verifier::external_body]
pub(crate) fn insert(cells: &mut HashSet<(i32, i32)>, cell: (i32, i32)) -> (fresh: bool)
    ensures
        members(*final(cells)) == members(*old(cells)).insert(cell),
        fresh == !members(*old(cells)).contains(cell),
{
    cells.insert(cell)
}

/// `HashSet::remove`: afterwards the set holds what it held before but for the
/// cell; the answer tells whether the cell was there.
#[verifier::external_body]
pub(crate) fn remove(cells: &mut HashSet<(i32, i32)>, cell: (i32, i32)) -> (found: bool)
    ensures
        members(*final(cells)) == members(*old(cells)).remove(cell),
        found == members(*old(cells)).contains(cell),
{
    cells.remove(&cell)
}

/// `HashSet::clear`: afterwards the set holds nothing.
#[verifier::external_body]
pub(crate) fn clear(cells: &mut HashSet<(i32, i32)>)
    ensures
        members(*final(cells)) == Set::<(i32, i32)>::empty(),
{
    cells.clear()
}

}
