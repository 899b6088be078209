use vstd::prelude::*;
use crate::ships::primitives::{MakeID, PartID};

verus! {

/// The maker number of Enterprise.
pub const MAKE_NUMBER: u32 = 0;

/// Enterprise, the maker.
pub fn make() -> (r: MakeID)
    ensures
        r.make == MAKE_NUMBER,
{
    MakeID { make: MAKE_NUMBER }
}

/// Part `part` of Enterprise.
pub open spec fn spec_part(part: u32) -> PartID {
    PartID { make: MAKE_NUMBER, part }
}

/// The Kestrel hull.
pub fn kestrel() -> (r: PartID)
    ensures
        r == spec_part(0),
{
    make().part(0)
}

/// The pilot's chair.
pub fn chair() -> (r: PartID)
    ensures
        r == spec_part(1),
{
    make().part(1)
}

/// The antenna dish.
pub fn dish() -> (r: PartID)
    ensures
        r == spec_part(2),
{
    make().part(2)
}

/// The docking port.
pub fn port() -> (r: PartID)
    ensures
        r == spec_part(3),
{
    make().part(3)
}

/// The radiator.
pub fn radiator() -> (r: PartID)
    ensures
        r == spec_part(4),
{
    make().part(4)
}

/// The reaction control thrusters.
pub fn rcs() -> (r: PartID)
    ensures
        r == spec_part(5),
{
    make().part(5)
}

/// The solar panel.
pub fn solar() -> (r: PartID)
    ensures
        r == spec_part(6),
{
    make().part(6)
}

} // verus!
