use crate::types::{storage_used, ResourceMap, StorableResourceMap};
use vstd::prelude::*;

verus! {

/// The kinds of resource a team can hold.
#[derive(Debug, Clone, Copy, PartialEq, Eq, Hash, Structural)]
pub enum Resource {
    SATOSHI,
    GOLD,
    SCRAPS,
    FUEL,
    RUM,
}

/// Units of cargo capacity taken by one unit of `r`. Satoshi are not cargo
/// and fuel sits in the spaceship tank, so both weigh nothing.
pub open spec fn storing_space(r: Resource) -> nat {
    match r {
        Resource::SATOSHI => 0,
        Resource::GOLD => 2,
        Resource::SCRAPS => 10,
        Resource::FUEL => 0,
        Resource::RUM => 1,
    }
}

/// The display name of a resource.
pub open spec fn resource_name(r: Resource) -> Seq<char> {
    match r {
        Resource::SATOSHI => "Satoshi"@,
        Resource::GOLD => "Gold"@,
        Resource::SCRAPS => "Scraps"@,
        Resource::FUEL => "Fuel"@,
        Resource::RUM => "Rum"@,
    }
}

impl Resource {
    pub fn to_storing_space(&self) -> (r: u32)
        ensures
            r == storing_space(*self),
    {
        match self {
            Resource::SATOSHI => 0,
            Resource::GOLD => 2,
            Resource::SCRAPS => 10,
            Resource::FUEL => 0,
            Resource::RUM => 1,
        }
    }

    pub fn name(&self) -> (s: &'static str)
        ensures
            s@ == resource_name(*self),
    {
        match self {
            Resource::SATOSHI => "Satoshi",
            Resource::GOLD => "Gold",
            Resource::SCRAPS => "Scraps",
            Resource::FUEL => "Fuel",
            Resource::RUM => "Rum",
        }
    }

    /// The cargo capacity taken by the quantities of `resources`.
    pub fn used_storage_capacity(resources: &ResourceMap) -> (r: u32)
        ensures
            r == storage_used(resources@),
    {
        resources.used_storage_capacity()
    }
}

} // verus!
