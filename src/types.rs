use crate::resources::{storing_space, Resource};
use vstd::prelude::*;

verus! {

/// A unit of time in the game world: one millisecond of real time.
pub type Tick = u128;

pub type PlayerId = u128;

pub type TeamId = u128;

pub type PlanetId = u128;

pub type GameId = u128;

pub const SECONDS: Tick = 1000;

pub const MINUTES: Tick = 60 * SECONDS;

pub const HOURS: Tick = 60 * MINUTES;

pub const DAYS: Tick = 24 * HOURS;

/// Why an operation on the world was refused. A refused operation leaves
/// the state it was given unchanged.
#[derive(Debug, Clone, Copy, PartialEq, Eq, Structural)]
pub enum WorldError {
    EntityNotFound,
    CapacityExceeded,
    InsufficientResources,
    TeamBusy,
    InsufficientFuel,
    AlreadyAtDestination,
    NotTradable,
    TargetUnavailable,
    AlreadyProposed,
    StaleProposal,
    InvalidStateTransition,
}

/// Cargo capacity taken by the quantities of `m`.
pub open spec fn storage_used(m: Map<Resource, nat>) -> nat {
    storing_space(Resource::SATOSHI) * m[Resource::SATOSHI]
        + storing_space(Resource::GOLD) * m[Resource::GOLD]
        + storing_space(Resource::SCRAPS) * m[Resource::SCRAPS]
        + storing_space(Resource::FUEL) * m[Resource::FUEL]
        + storing_space(Resource::RUM) * m[Resource::RUM]
}

/// A ledger view holds every kind, each quantity and the capacity used fit
/// in a `u32`.
pub open spec fn valid_ledger(m: Map<Resource, nat>) -> bool {
    &&& forall|r: Resource| #[trigger] m.contains_key(r) && m[r] <= u32::MAX
    &&& storage_used(m) <= u32::MAX
}

/// `a + b`, held at `u32::MAX`.
pub open spec fn sat_add_u32(a: nat, b: nat) -> nat {
    if a + b > u32::MAX {
        u32::MAX as nat
    } else {
        a + b
    }
}

/// The ledger after a checked addition, or why it is refused: the capacity
/// used must stay within `max_capacity`, and the quantity must fit in a
/// `u32`; a checked addition never clamps.
pub open spec fn ledger_add(m: Map<Resource, nat>, r: Resource, amount: nat, max_capacity: nat) -> Result<
    Map<Resource, nat>,
    WorldError,
> {
    if storage_used(m) + storing_space(r) * amount > max_capacity {
        Err(WorldError::CapacityExceeded)
    } else if m[r] + amount > u32::MAX {
        Err(WorldError::CapacityExceeded)
    } else {
        Ok(m.insert(r, m[r] + amount))
    }
}

/// The ledger after a checked removal, or why it is refused.
pub open spec fn ledger_sub(m: Map<Resource, nat>, r: Resource, amount: nat) -> Result<
    Map<Resource, nat>,
    WorldError,
> {
    if m[r] < amount {
        Err(WorldError::InsufficientResources)
    } else {
        Ok(m.insert(r, (m[r] - amount) as nat))
    }
}

/// The ledger after a signed change: positive amounts are added, negative
/// ones removed, zero changes nothing.
pub open spec fn ledger_update(m: Map<Resource, nat>, r: Resource, amount: int, max_capacity: nat) -> Result<
    Map<Resource, nat>,
    WorldError,
> {
    if amount > 0 {
        ledger_add(m, r, amount as nat, max_capacity)
    } else if amount < 0 {
        ledger_sub(m, r, (-amount) as nat)
    } else {
        Ok(m)
    }
}

/// The part of `amount` that fits in the free capacity; all of it for a
/// kind that takes no capacity.
pub open spec fn fitting_amount(m: Map<Resource, nat>, r: Resource, amount: nat, max_capacity: nat) -> nat {
    if storing_space(r) == 0 {
        amount
    } else {
        let free: nat = if max_capacity >= storage_used(m) {
            (max_capacity - storage_used(m)) as nat
        } else {
            0
        };
        let fits = free / storing_space(r);
        if amount <= fits {
            amount
        } else {
            fits
        }
    }
}

pub open spec fn ledger_saturating_add(
    m: Map<Resource, nat>,
    r: Resource,
    amount: nat,
    max_capacity: nat,
) -> Map<Resource, nat> {
    m.insert(r, sat_add_u32(m[r], fitting_amount(m, r, amount, max_capacity)))
}

pub open spec fn ledger_saturating_sub(m: Map<Resource, nat>, r: Resource, amount: nat) -> Map<
    Resource,
    nat,
> {
    m.insert(
        r,
        if m[r] >= amount {
            (m[r] - amount) as nat
        } else {
            0
        },
    )
}

/// The capacity taken by one kind is part of the whole.
proof fn lemma_used_covers(m: Map<Resource, nat>, r: Resource)
    ensures
        storing_space(r) * m[r] <= storage_used(m),
{
}

/// Changing one quantity changes the capacity used by its weight alone.
pub proof fn lemma_used_insert(m: Map<Resource, nat>, r: Resource, v: nat)
    ensures
        storage_used(m.insert(r, v)) == storage_used(m) - storing_space(r) * m[r] + storing_space(r)
            * v,
{
}

/// A checked addition that goes through never leaves more capacity in use
/// than the bound it was checked against, and one that would is refused with
/// `CapacityExceeded` (`add` then leaves the ledger as it was).
pub proof fn lemma_add_respects_capacity(m: Map<Resource, nat>, r: Resource, amount: nat, max_capacity: nat)
    requires
        valid_ledger(m),
    ensures
        ledger_add(m, r, amount, max_capacity) is Ok ==> storage_used(
            ledger_add(m, r, amount, max_capacity)->Ok_0,
        ) <= max_capacity,
        storage_used(m) + storing_space(r) * amount > max_capacity ==> ledger_add(
            m,
            r,
            amount,
            max_capacity,
        ) == Err::<Map<Resource, nat>, WorldError>(WorldError::CapacityExceeded),
{
    if storage_used(m) + storing_space(r) * amount <= max_capacity {
        let next = m[r] + amount;
        lemma_used_insert(m, r, next);
        let w = storing_space(r);
        assert(w * next <= w * m[r] + w * amount) by (nonlinear_arith)
            requires next <= m[r] + amount;
    }
}

/// Starting within capacity, an update that goes through stays within it.
pub proof fn lemma_update_respects_capacity(m: Map<Resource, nat>, r: Resource, amount: int, max_capacity: nat)
    requires
        valid_ledger(m),
        storage_used(m) <= max_capacity,
    ensures
        ledger_update(m, r, amount, max_capacity) is Ok ==> storage_used(
            ledger_update(m, r, amount, max_capacity)->Ok_0,
        ) <= max_capacity,
{
    if amount > 0 {
        lemma_add_respects_capacity(m, r, amount as nat, max_capacity);
    } else if amount < 0 && m[r] >= -amount {
        let next = (m[r] + amount) as nat;
        lemma_used_insert(m, r, next);
        let w = storing_space(r);
        assert(w * next <= w * m[r]) by (nonlinear_arith)
            requires next <= m[r];
    }
}

/// A saturating addition never fails and, starting within capacity, never
/// leaves more capacity in use than the bound.
pub proof fn lemma_saturating_add_respects_capacity(
    m: Map<Resource, nat>,
    r: Resource,
    amount: nat,
    max_capacity: nat,
)
    requires
        valid_ledger(m),
        storage_used(m) <= max_capacity,
    ensures
        storage_used(ledger_saturating_add(m, r, amount, max_capacity)) <= max_capacity,
{
    let fitting = fitting_amount(m, r, amount, max_capacity);
    let next = sat_add_u32(m[r], fitting);
    let w = storing_space(r);
    lemma_used_insert(m, r, next);
    if w > 0 {
        let free = (max_capacity - storage_used(m)) as nat;
        assert(fitting * w <= free) by (nonlinear_arith)
            requires fitting <= free / w, w > 0;
        assert(w * next <= w * m[r] + w * fitting) by (nonlinear_arith)
            requires next <= m[r] + fitting;
    }
}

/// Removing more than is held is refused with `InsufficientResources`
/// (`sub` then leaves the ledger as it was).
pub proof fn lemma_sub_refuses_shortfall(m: Map<Resource, nat>, r: Resource, amount: nat)
    requires
        amount > m[r],
    ensures
        ledger_sub(m, r, amount) == Err::<Map<Resource, nat>, WorldError>(
            WorldError::InsufficientResources,
        ),
{
}

/// Quantities of each resource held by one owner. The cargo capacity they
/// take always fits in a `u32`.
#[derive(Debug, Clone, Copy, PartialEq, Eq, Structural)]
pub struct ResourceMap {
    satoshi: u32,
    gold: u32,
    scraps: u32,
    fuel: u32,
    rum: u32,
}

impl View for ResourceMap {
    type V = Map<Resource, nat>;

    closed spec fn view(&self) -> Map<Resource, nat> {
        Map::new(|r: Resource| true, |r: Resource| self.spec_amount(r) as nat)
    }
}

impl ResourceMap {
    closed spec fn spec_amount(self, r: Resource) -> u32 {
        match r {
            Resource::SATOSHI => self.satoshi,
            Resource::GOLD => self.gold,
            Resource::SCRAPS => self.scraps,
            Resource::FUEL => self.fuel,
            Resource::RUM => self.rum,
        }
    }

    #[verifier::type_invariant]
    closed spec fn capacity_fits(self) -> bool {
        storage_used(self@) <= u32::MAX
    }

    /// An empty ledger.
    pub fn new() -> (m: ResourceMap)
        ensures
            forall|r: Resource| #[trigger] m@[r] == 0,
            valid_ledger(m@),
    {
        let m = ResourceMap { satoshi: 0, gold: 0, scraps: 0, fuel: 0, rum: 0 };
        assert(storage_used(m@) == 0);
        m
    }

    fn set_amount(&mut self, r: Resource, v: u32)
        requires
            storage_used(old(self)@.insert(r, v as nat)) <= u32::MAX,
        ensures
            final(self)@ == old(self)@.insert(r, v as nat),
            valid_ledger(final(self)@),
    {
        match r {
            Resource::SATOSHI => self.satoshi = v,
            Resource::GOLD => self.gold = v,
            Resource::SCRAPS => self.scraps = v,
            Resource::FUEL => self.fuel = v,
            Resource::RUM => self.rum = v,
        }
        assert(self@ =~= old(self)@.insert(r, v as nat));
        proof {
            use_type_invariant(&*self);
        }
    }

    /// Replaces the fuel quantity, which takes no cargo capacity.
    pub fn set_fuel(&mut self, fuel: u32)
        ensures
            final(self)@ == old(self)@.insert(Resource::FUEL, fuel as nat),
            valid_ledger(final(self)@),
    {
        proof {
            use_type_invariant(&*self);
            assert(storage_used(self@.insert(Resource::FUEL, fuel as nat)) == storage_used(self@));
        }
        self.set_amount(Resource::FUEL, fuel);
    }
}

/// Capacity-aware bookkeeping of resource quantities.
pub trait StorableResourceMap {
    fn value(&self, resource: &Resource) -> u32;

    fn used_storage_capacity(&self) -> u32;

    fn update(&mut self, resource: Resource, amount: i32, max_capacity: u32) -> Result<(), WorldError>;

    fn add(&mut self, resource: Resource, amount: u32, max_capacity: u32) -> Result<(), WorldError>;

    fn saturating_add(&mut self, resource: Resource, amount: u32, max_capacity: u32);

    fn sub(&mut self, resource: Resource, amount: u32) -> Result<(), WorldError>;

    fn saturating_sub(&mut self, resource: Resource, amount: u32);
}

impl StorableResourceMap for ResourceMap {
    /// The quantity held of `resource`.
    fn value(&self, resource: &Resource) -> (v: u32)
        ensures
            v == self@[*resource],
            valid_ledger(self@),
    {
        proof {
            use_type_invariant(self);
        }
        match resource {
            Resource::SATOSHI => self.satoshi,
            Resource::GOLD => self.gold,
            Resource::SCRAPS => self.scraps,
            Resource::FUEL => self.fuel,
            Resource::RUM => self.rum,
        }
    }

    /// The cargo capacity taken by the ledger's quantities.
    fn used_storage_capacity(&self) -> (v: u32)
        ensures
            v == storage_used(self@),
    {
        proof {
            use_type_invariant(self);
        }
        2 * self.gold + 10 * self.scraps + self.rum
    }

    /// Adds a positive amount with `add`, removes a negative one with `sub`,
    /// and leaves the ledger as it is for zero.
    fn update(&mut self, resource: Resource, amount: i32, max_capacity: u32) -> (r: Result<
        (),
        WorldError,
    >)
        ensures
            match ledger_update(old(self)@, resource, amount as int, max_capacity as nat) {
                Ok(m) => r == Ok::<(), WorldError>(()) && final(self)@ == m,
                Err(e) => r == Err::<(), WorldError>(e) && final(self)@ == old(self)@,
            },
            valid_ledger(final(self)@),
    {
        proof {
            use_type_invariant(&*self);
        }
        if amount > 0 {
            self.add(resource, amount as u32, max_capacity)
        } else if amount < 0 {
            let removed: u32 = (-(amount as i64)) as u32;
            self.sub(resource, removed)
        } else {
            Ok(())
        }
    }

    /// Adds `amount` if the result fits `max_capacity` and the quantity
    /// fits in a `u32`; otherwise refuses with `CapacityExceeded` and changes
    /// nothing.
    fn add(&mut self, resource: Resource, amount: u32, max_capacity: u32) -> (r: Result<
        (),
        WorldError,
    >)
        ensures
            match ledger_add(old(self)@, resource, amount as nat, max_capacity as nat) {
                Ok(m) => r == Ok::<(), WorldError>(()) && final(self)@ == m,
                Err(e) => r == Err::<(), WorldError>(e) && final(self)@ == old(self)@,
            },
            valid_ledger(final(self)@),
    {
        proof {
            use_type_invariant(&*self);
        }
        let used = self.used_storage_capacity() as u64;
        let extra = resource.to_storing_space() as u64 * amount as u64;
        if used + extra > max_capacity as u64 {
            return Err(WorldError::CapacityExceeded);
        }
        let current = self.value(&resource);
        let next = match current.checked_add(amount) {
            Some(n) => n,
            None => return Err(WorldError::CapacityExceeded),
        };
        proof {
            assert(storage_used(self@.insert(resource, next as nat)) <= max_capacity) by {
                lemma_used_covers(self@, resource);
                lemma_used_insert(self@, resource, next as nat);
                if storing_space(resource) > 0 {
                    let w = storing_space(resource);
                    assert(current + amount <= w * current + w * amount) by (nonlinear_arith)
                        requires w >= 1;
                    assert(next == current + amount);
                    assert(w * next == w * current + w * amount) by (nonlinear_arith)
                        requires next == current + amount;
                }
            }
        }
        self.set_amount(resource, next);
        Ok(())
    }

    /// Adds as much of `amount` as the free capacity takes; a kind that takes
    /// no capacity is added in full (held at `u32::MAX`).
    fn saturating_add(&mut self, resource: Resource, amount: u32, max_capacity: u32)
        ensures
            final(self)@ == ledger_saturating_add(old(self)@, resource, amount as nat, max_capacity as nat),
            valid_ledger(final(self)@),
    {
        proof {
            use_type_invariant(&*self);
        }
        let space = resource.to_storing_space();
        let fitting = if space == 0 {
            amount
        } else {
            let free = max_capacity.saturating_sub(self.used_storage_capacity());
            let fits = free / space;
            if amount <= fits {
                amount
            } else {
                fits
            }
        };
        let current = self.value(&resource);
        let next = current.saturating_add(fitting);
        proof {
            let m = self@;
            assert(fitting == fitting_amount(m, resource, amount as nat, max_capacity as nat));
            if space > 0 {
                let free: nat = if max_capacity >= storage_used(m) {
                    (max_capacity - storage_used(m)) as nat
                } else {
                    0
                };
                assert(fitting * space <= free) by (nonlinear_arith)
                    requires
                        fitting <= free / (space as nat),
                        space > 0,
                ;
                lemma_used_covers(m, resource);
                assert(next == current + fitting);
            }
            lemma_used_insert(self@, resource, next as nat);
            if space > 0 {
                assert(storing_space(resource) * next <= storing_space(resource) * current + fitting * space) by (nonlinear_arith)
                    requires next == current + fitting, space == storing_space(resource);
            }
        }
        self.set_amount(resource, next);
    }

    /// Removes `amount` if that much is held; otherwise refuses with
    /// `InsufficientResources` and changes nothing.
    fn sub(&mut self, resource: Resource, amount: u32) -> (r: Result<(), WorldError>)
        ensures
            match ledger_sub(old(self)@, resource, amount as nat) {
                Ok(m) => r == Ok::<(), WorldError>(()) && final(self)@ == m,
                Err(e) => r == Err::<(), WorldError>(e) && final(self)@ == old(self)@,
            },
            valid_ledger(final(self)@),
    {
        let current = self.value(&resource);
        if current < amount {
            return Err(WorldError::InsufficientResources);
        }
        proof {
            lemma_used_insert(self@, resource, (current - amount) as nat);
            assert(storing_space(resource) * (current - amount) <= storing_space(resource) * current) by (nonlinear_arith);
        }
        self.set_amount(resource, current - amount);
        Ok(())
    }

    /// Removes `amount`, or everything held if that is less.
    fn saturating_sub(&mut self, resource: Resource, amount: u32)
        ensures
            final(self)@ == ledger_saturating_sub(old(self)@, resource, amount as nat),
            valid_ledger(final(self)@),
    {
        let current = self.value(&resource);
        let next = current.saturating_sub(amount);
        proof {
            lemma_used_insert(self@, resource, next as nat);
            assert(storing_space(resource) * next <= storing_space(resource) * current) by (nonlinear_arith)
                requires next <= current;
        }
        self.set_amount(resource, next);
    }
}

} // verus!
