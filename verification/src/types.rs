//! Identifier types shared by the whole crate.

use vstd::prelude::*;

verus! {

/// Dense, segment-local offset of a point.
pub type PointOffsetType = u32;

/// Client-facing identifier of a point: a number or a UUID held as 128 bits.
#[derive(Clone, Copy, Debug, PartialEq, Eq, Hash, Structural)]
pub enum PointIdType {
    NumId(u64),
    Uuid(u128),
}

} // verus!
