use vstd::prelude::*;

verus! {

/// Identifies a ship maker.
#[derive(PartialEq, Eq, Structural, Hash, Copy, Clone, Debug)]
pub struct MakeID {
    pub make: u32,
}

/// Identifies a part: its maker and its number within the maker's parts.
#[derive(PartialEq, Eq, Structural, Hash, Copy, Clone, Debug)]
pub struct PartID {
    pub make: u32,
    pub part: u32,
}

impl MakeID {
    /// Part number `part` of this maker.
    pub fn part(&self, part: u32) -> (r: PartID)
        ensures
            r == (PartID { make: self.make, part }),
    {
        PartID { make: self.make, part }
    }
}

impl From<PartID> for MakeID {
    /// The maker of a part.
    fn from(m: PartID) -> (r: Self) {
        MakeID { make: m.make }
    }
}

impl vstd::std_specs::convert::FromSpecImpl<PartID> for MakeID {
    open spec fn obeys_from_spec() -> bool {
        true
    }

    open spec fn from_spec(v: PartID) -> Self {
        MakeID { make: v.make }
    }
}

} // verus!
