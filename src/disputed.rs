//! The set of disputed transaction ids, kept in `tinyset::SetU32`.
use vstd::prelude::*;

verus! {

#[verifier::external_type_specification]
#[verifier::external_body]
pub struct ExSetU32(tinyset::SetU32);

/// The ids that a `SetU32` holds.
pub uninterp spec fn set_u32_items(s: tinyset::SetU32) -> Set<u32>;

/// Relies on `SetU32::new`: the set starts empty.
#[verifier::external_body]
pub(crate) fn empty_set() -> (r: tinyset::SetU32)
    ensures
        set_u32_items(r) == Set::<u32>::empty(),
{
    tinyset::SetU32::new()
}

/// Relies on `SetU32::contains`: membership of `e`.
#[verifier::external_body]
pub(crate) fn set_contains(s: &tinyset::SetU32, e: u32) -> (r: bool)
    ensures
        r == set_u32_items(*s).contains(e),
{
    s.contains(e)
}

/// Relies on `SetU32::insert`: adds `e`, and says whether it was absent.
#[verifier::external_body]
pub(crate) fn set_insert(s: &mut tinyset::SetU32, e: u32) -> (r: bool)
    ensures
        set_u32_items(*final(s)) == set_u32_items(*old(s)).insert(e),
        r == !set_u32_items(*old(s)).contains(e),
{
    s.insert(e)
}

/// Relies on `SetU32::remove`: takes `e` out, and says whether it was present.
#[verifier::external_body]
pub(crate) fn set_remove(s: &mut tinyset::SetU32, e: u32) -> (r: bool)
    ensures
        set_u32_items(*final(s)) == set_u32_items(*old(s)).remove(e),
        r == set_u32_items(*old(s)).contains(e),
{
    s.remove(e)
}

} // verus!
