use vstd::prelude::*;
use super::primitives::{MakeID, PartID};
use super::compiled::enterprise;

verus! {

/// The compiled model bundles.
#[derive(PartialEq, Eq, Structural, Copy, Clone, Debug)]
pub enum ModelBundle {
    /// The Kestrel hull's models.
    Kestrel,
    /// The models of Enterprise's accessories.
    EnterpriseAccessories,
}

/// The compiled ship data files.
#[derive(PartialEq, Eq, Structural, Copy, Clone, Debug)]
pub enum ShipFile {
    Kestrel,
}

/// The compiled part data files.
#[derive(PartialEq, Eq, Structural, Copy, Clone, Debug)]
pub enum PartFile {
    Chair,
    Dish,
    Port,
    Radiator,
    Rcs,
    Solar,
}

/// The model bundle a part's models are compiled into: the Kestrel's own,
/// Enterprise's accessories for any other Enterprise part, none otherwise.
pub open spec fn spec_model_bundle(part_id: PartID) -> Option<ModelBundle> {
    if part_id == enterprise::spec_part(0) {
        Some(ModelBundle::Kestrel)
    } else if part_id.make == enterprise::MAKE_NUMBER {
        Some(ModelBundle::EnterpriseAccessories)
    } else {
        None
    }
}

/// The model bundle holding a part's models, if it was compiled in.
pub fn model_bundle(part_id: PartID) -> (r: Option<ModelBundle>)
    ensures
        r == spec_model_bundle(part_id),
{
    if part_id == enterprise::kestrel() {
        Some(ModelBundle::Kestrel)
    } else {
        let make: MakeID = MakeID::from(part_id);
        if make == enterprise::make() {
            Some(ModelBundle::EnterpriseAccessories)
        } else {
            None
        }
    }
}

/// The ship data file of a ship, if it was compiled in.
pub fn ship_file(id: PartID) -> (r: Option<ShipFile>)
    ensures
        r == (if id == enterprise::spec_part(0) { Some(ShipFile::Kestrel) } else { None::<ShipFile> }),
{
    if id == enterprise::kestrel() {
        Some(ShipFile::Kestrel)
    } else {
        None
    }
}

/// The part data file of a part, if it was compiled in.
pub open spec fn spec_part_file(id: PartID) -> Option<PartFile> {
    if id.make != enterprise::MAKE_NUMBER {
        None
    } else if id.part == 1 {
        Some(PartFile::Chair)
    } else if id.part == 2 {
        Some(PartFile::Dish)
    } else if id.part == 3 {
        Some(PartFile::Port)
    } else if id.part == 4 {
        Some(PartFile::Radiator)
    } else if id.part == 5 {
        Some(PartFile::Rcs)
    } else if id.part == 6 {
        Some(PartFile::Solar)
    } else {
        None
    }
}

/// The part data file of a part, if it was compiled in.
pub fn part_file(id: PartID) -> (r: Option<PartFile>)
    ensures
        r == spec_part_file(id),
{
    if id == enterprise::chair() {
        Some(PartFile::Chair)
    } else if id == enterprise::dish() {
        Some(PartFile::Dish)
    } else if id == enterprise::port() {
        Some(PartFile::Port)
    } else if id == enterprise::radiator() {
        Some(PartFile::Radiator)
    } else if id == enterprise::rcs() {
        Some(PartFile::Rcs)
    } else if id == enterprise::solar() {
        Some(PartFile::Solar)
    } else {
        None
    }
}

} // verus!
