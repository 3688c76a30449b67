use crate::negotiation::NegotiationRegistry;
use crate::resources::Resource;
use crate::types::{
    lemma_saturating_add_respects_capacity, lemma_used_insert, ledger_saturating_add, ledger_sub, storage_used,
    valid_ledger, GameId, PlanetId, ResourceMap, StorableResourceMap, TeamId, Tick, WorldError,
    SECONDS,
};
use vstd::arithmetic::div_mod::{lemma_div_is_ordered, lemma_div_multiples_vanish_fancy};
use vstd::prelude::*;

verus! {

/// A fuel consumption rate is given in fuel units per this many ticks.
pub const FUEL_RATE_SCALE: u128 = 1_000_000_000;

/// Duration of a trip through a portal.
pub const PORTAL_TRAVEL_DURATION: Tick = 10 * SECONDS;

/// Where a team is, and since when for the timed states.
#[derive(Debug, Clone, Copy, PartialEq, Eq, Structural)]
pub enum TeamLocation {
    OnPlanet { planet_id: PlanetId },
    Travelling { from: PlanetId, to: PlanetId, started: Tick, duration: Tick, distance: u128 },
    Exploring { around: PlanetId, started: Tick, duration: Tick },
    OnSpaceAdventure { around: PlanetId },
}

/// Fuel burnt over `duration` ticks at `rate` units per `FUEL_RATE_SCALE`
/// ticks: the product rounded to the nearest unit (halves up), and at least
/// one unit.
pub open spec fn fuel_for(duration: nat, rate: nat) -> nat {
    let rounded: nat = ((duration * rate + FUEL_RATE_SCALE / 2) / (FUEL_RATE_SCALE as int)) as nat;
    if rounded < 1 {
        1
    } else {
        rounded
    }
}

/// `fuel_for`, where it fits in a `u32` (a greater amount is never held).
pub fn fuel_consumption(duration: Tick, rate: u64) -> (r: Option<u32>)
    ensures
        r == (if fuel_for(duration as nat, rate as nat) <= u32::MAX {
            Some(fuel_for(duration as nat, rate as nat) as u32)
        } else {
            None::<u32>
        }),
{
    let half: u128 = FUEL_RATE_SCALE / 2;
    let too_much = (u32::MAX as u128 + 1) * FUEL_RATE_SCALE;
    let product = match duration.checked_mul(rate as u128) {
        Some(p) => p,
        None => {
            proof {
                let x = duration as nat * rate as nat + half;
                lemma_div_is_ordered(too_much as int, x as int, FUEL_RATE_SCALE as int);
                lemma_div_multiples_vanish_fancy(u32::MAX as int + 1, 0, FUEL_RATE_SCALE as int);
                assert((FUEL_RATE_SCALE as int) * (u32::MAX as int + 1) + 0 == too_much);
            }
            return None;
        },
    };
    if product >= too_much {
        proof {
            lemma_div_is_ordered(too_much as int, (product + half) as int, FUEL_RATE_SCALE as int);
            lemma_div_multiples_vanish_fancy(u32::MAX as int + 1, 0, FUEL_RATE_SCALE as int);
            assert((FUEL_RATE_SCALE as int) * (u32::MAX as int + 1) + 0 == too_much);
        }
        return None;
    }
    let rounded = (product + half) / FUEL_RATE_SCALE;
    let fuel = if rounded < 1 {
        1
    } else {
        rounded
    };
    if fuel > u32::MAX as u128 {
        None
    } else {
        Some(fuel as u32)
    }
}

/// The planet a timed location resolves to once `now` reaches its end, or
/// `None` where nothing is due.
pub open spec fn due_arrival(location: TeamLocation, now: nat) -> Option<PlanetId> {
    match location {
        TeamLocation::Travelling { to, started, duration, .. } => if now >= started + duration {
            Some(to)
        } else {
            None
        },
        TeamLocation::Exploring { around, started, duration } => if now >= started + duration {
            Some(around)
        } else {
            None
        },
        _ => None,
    }
}

/// Ticks left before a timed location ends: `started + duration - now`,
/// never below zero (and held at `u128::MAX`). Zero for the other states.
pub open spec fn remaining_ticks(location: TeamLocation, now: nat) -> nat {
    let (started, duration) = match location {
        TeamLocation::Travelling { started, duration, .. } => (started as nat, duration as nat),
        TeamLocation::Exploring { started, duration, .. } => (started as nat, duration as nat),
        _ => (0nat, 0nat),
    };
    if started + duration <= now {
        0
    } else if started + duration - now > u128::MAX {
        u128::MAX as nat
    } else {
        (started + duration - now) as nat
    }
}

/// A team: its identity, its cargo, where it is, its spaceship's figures and
/// its outstanding negotiations.
pub struct Team {
    pub id: TeamId,
    pub home_planet_id: PlanetId,
    pub current_location: TeamLocation,
    pub resources: ResourceMap,
    /// Cargo capacity of the spaceship.
    pub storage_capacity: u32,
    /// Size of the spaceship's fuel tank.
    pub fuel_capacity: u32,
    /// Fuel burnt per `FUEL_RATE_SCALE` ticks of flight.
    pub fuel_rate: u64,
    /// Current durability of the spaceship.
    pub durability: u32,
    /// Whether the team is played on another peer of the network.
    pub has_peer: bool,
    pub current_game: Option<GameId>,
    pub trades: NegotiationRegistry,
    pub challenges: NegotiationRegistry,
}

/// Whether a team may start a trip to `to` lasting `duration`: it must stand
/// on another planet and hold the fuel.
pub open spec fn travel_check(team: Team, to: PlanetId, duration: nat) -> Result<(), WorldError> {
    match team.current_location {
        TeamLocation::OnPlanet { planet_id } => if planet_id == to {
            Err(WorldError::AlreadyAtDestination)
        } else if fuel_for(duration, team.fuel_rate as nat) > team.resources@[Resource::FUEL] {
            Err(WorldError::InsufficientFuel)
        } else {
            Ok(())
        },
        _ => Err(WorldError::TeamBusy),
    }
}

/// Whether a team may explore for `duration`: it must stand on a planet, the
/// duration must not be zero, and it must hold the fuel.
pub open spec fn explore_check(team: Team, duration: nat) -> Result<(), WorldError> {
    match team.current_location {
        TeamLocation::OnPlanet { .. } => if duration == 0 {
            Err(WorldError::InvalidStateTransition)
        } else if fuel_for(duration, team.fuel_rate as nat) > team.resources@[Resource::FUEL] {
            Err(WorldError::InsufficientFuel)
        } else {
            Ok(())
        },
        _ => Err(WorldError::TeamBusy),
    }
}

/// `a` and `b` agree on everything but location, resources and durability.
pub open spec fn same_but_place_and_cargo(a: Team, b: Team) -> bool {
    &&& a.id == b.id
    &&& a.home_planet_id == b.home_planet_id
    &&& a.storage_capacity == b.storage_capacity
    &&& a.fuel_capacity == b.fuel_capacity
    &&& a.fuel_rate == b.fuel_rate
    &&& a.has_peer == b.has_peer
    &&& a.current_game == b.current_game
    &&& a.trades == b.trades
    &&& a.challenges == b.challenges
}

/// `a` and `b` agree on everything but location.
pub open spec fn same_but_place(a: Team, b: Team) -> bool {
    &&& same_but_place_and_cargo(a, b)
    &&& a.resources == b.resources
    &&& a.durability == b.durability
}

/// `after` has left for `location`, having burnt `fuel` from the tank of
/// `before`; nothing else has changed.
pub open spec fn departed(before: Team, after: Team, location: TeamLocation, fuel: nat) -> bool {
    &&& after.current_location == location
    &&& ledger_sub(before.resources@, Resource::FUEL, fuel) == Ok::<Map<Resource, nat>, WorldError>(
        after.resources@,
    )
    &&& after.durability == before.durability
    &&& same_but_place_and_cargo(after, before)
}

/// `after` is `before` with a location due at `now` resolved onto its
/// planet; nothing else has changed.
pub open spec fn location_resolved(before: Team, after: Team, now: nat) -> bool {
    &&& after.current_location == (match due_arrival(before.current_location, now) {
        Some(p) => TeamLocation::OnPlanet { planet_id: p },
        None => before.current_location,
    })
    &&& same_but_place(after, before)
}

/// A team away from a planet cannot set off again: another trip or an
/// exploration is refused with `TeamBusy`.
pub proof fn lemma_busy_team_stays_put(team: Team, to: PlanetId, duration: nat)
    requires
        !(team.current_location is OnPlanet),
    ensures
        travel_check(team, to, duration) == Err::<(), WorldError>(WorldError::TeamBusy),
        explore_check(team, duration) == Err::<(), WorldError>(WorldError::TeamBusy),
{
}

/// The fuel of a trip is `max(1, round(duration * rate))`, taken once when
/// it starts: arriving takes none, so after departure and resolution the
/// hold differs from the start by exactly that fuel.
pub proof fn lemma_fuel_taken_once(
    start: Team,
    away: Team,
    landed: Team,
    location: TeamLocation,
    duration: nat,
    now: nat,
)
    requires
        departed(start, away, location, fuel_for(duration, start.fuel_rate as nat)),
        location_resolved(away, landed, now),
    ensures
        fuel_for(duration, start.fuel_rate as nat) >= 1,
        fuel_for(duration, start.fuel_rate as nat) > 1 ==> fuel_for(duration, start.fuel_rate as nat)
            == (duration * start.fuel_rate + FUEL_RATE_SCALE / 2) / (FUEL_RATE_SCALE as int),
        landed.resources@ == start.resources@.insert(
            Resource::FUEL,
            (start.resources@[Resource::FUEL] - fuel_for(duration, start.fuel_rate as nat)) as nat,
        ),
{
}

/// Resolving is idempotent: once a trip or an exploration has been resolved,
/// resolving again at any later tick finds nothing due and changes nothing.
pub proof fn lemma_resolution_idempotent(before: Team, after: Team, again: Team, now: nat, later: nat)
    requires
        due_arrival(before.current_location, now) is Some,
        location_resolved(before, after, now),
        location_resolved(after, again, later),
    ensures
        due_arrival(after.current_location, later) is None,
        again.current_location == after.current_location,
        same_but_place(again, after),
{
}

/// The countdown is never negative: past the end it reads zero, however
/// far past.
pub proof fn lemma_countdown_reaches_zero(location: TeamLocation, now: nat)
    requires
        due_arrival(location, now) is Some,
    ensures
        remaining_ticks(location, now) == 0,
{
}

/// The team's hold fits its spaceship: cargo within the storage capacity,
/// fuel within the tank.
pub open spec fn within_capacity(t: Team) -> bool {
    &&& storage_used(t.resources@) <= t.storage_capacity
    &&& t.resources@[Resource::FUEL] <= t.fuel_capacity
}

/// The hold a spaceship keeps of what a space adventure ended with: each
/// cargo kind in turn (satoshi, gold, scraps, rum) as far as the storage
/// capacity takes it, and the fuel up to the tank's size. Loot is a
/// passive gain, so what does not fit is left behind.
pub open spec fn stowed(harvested: Map<Resource, nat>, fuel: nat, storage_capacity: nat, fuel_capacity: nat) -> Map<
    Resource,
    nat,
> {
    let empty = Map::new(|r: Resource| true, |r: Resource| 0nat);
    let a = ledger_saturating_add(empty, Resource::SATOSHI, harvested[Resource::SATOSHI], storage_capacity);
    let b = ledger_saturating_add(a, Resource::GOLD, harvested[Resource::GOLD], storage_capacity);
    let c = ledger_saturating_add(b, Resource::SCRAPS, harvested[Resource::SCRAPS], storage_capacity);
    let d = ledger_saturating_add(c, Resource::RUM, harvested[Resource::RUM], storage_capacity);
    d.insert(
        Resource::FUEL,
        if fuel <= fuel_capacity {
            fuel
        } else {
            fuel_capacity
        },
    )
}

/// What starting a space adventure does: a team on a planet leaves for an
/// adventure around it; any other is refused with `TeamBusy`, unchanged.
pub open spec fn adventure_started(before: Team, after: Team, r: Result<(), WorldError>) -> bool {
    match before.current_location {
        TeamLocation::OnPlanet { planet_id } => {
            &&& r is Ok
            &&& after.current_location == (TeamLocation::OnSpaceAdventure { around: planet_id })
            &&& same_but_place(after, before)
        },
        _ => r == Err::<(), WorldError>(WorldError::TeamBusy) && after == before,
    }
}

/// What returning from a space adventure does: the team is back on the
/// planet it circled with the spaceship's remaining `durability`; with some
/// left, its hold is what the adventure ended with, fuel included, as far as
/// the spaceship takes it (see `stowed`), and with none, hold and tank are
/// lost. A team not on an adventure is refused with
/// `InvalidStateTransition`, unchanged.
pub open spec fn adventure_ended(
    before: Team,
    after: Team,
    r: Result<(), WorldError>,
    harvested: Map<Resource, nat>,
    fuel: nat,
    durability: nat,
) -> bool {
    match before.current_location {
        TeamLocation::OnSpaceAdventure { around } => {
            &&& r is Ok
            &&& after.current_location == (TeamLocation::OnPlanet { planet_id: around })
            &&& after.durability == durability
            &&& if durability > 0 {
                after.resources@ == stowed(
                    harvested,
                    fuel,
                    before.storage_capacity as nat,
                    before.fuel_capacity as nat,
                )
            } else {
                forall|k: Resource| #[trigger] after.resources@[k] == 0
            }
            &&& same_but_place_and_cargo(after, before)
        },
        _ => r == Err::<(), WorldError>(WorldError::InvalidStateTransition) && after == before,
    }
}

/// The planet a team stands on, or is bound for, or circles.
pub open spec fn spec_location_planet(location: TeamLocation) -> PlanetId {
    match location {
        TeamLocation::OnPlanet { planet_id } => planet_id,
        TeamLocation::Travelling { to, .. } => to,
        TeamLocation::Exploring { around, .. } => around,
        TeamLocation::OnSpaceAdventure { around } => around,
    }
}

impl TeamLocation {
    /// Whether the team is on a planet, free for a new activity.
    pub fn is_on_planet(&self) -> (r: bool)
        ensures
            r == (*self is OnPlanet),
    {
        match self {
            TeamLocation::OnPlanet { .. } => true,
            _ => false,
        }
    }

    /// The planet the team stands on, is bound for, or circles.
    pub fn planet(&self) -> (r: PlanetId)
        ensures
            r == spec_location_planet(*self),
    {
        match self {
            TeamLocation::OnPlanet { planet_id } => *planet_id,
            TeamLocation::Travelling { to, .. } => *to,
            TeamLocation::Exploring { around, .. } => *around,
            TeamLocation::OnSpaceAdventure { around } => *around,
        }
    }

    /// Ticks left before a timed location ends (see `remaining_ticks`).
    pub fn countdown(&self, now: Tick) -> (r: Tick)
        ensures
            r == remaining_ticks(*self, now as nat),
    {
        let (started, duration) = match self {
            TeamLocation::Travelling { started, duration, .. } => (*started, *duration),
            TeamLocation::Exploring { started, duration, .. } => (*started, *duration),
            _ => (0, 0),
        };
        if now >= started && now - started >= duration {
            0
        } else if now >= started {
            duration - (now - started)
        } else {
            let ahead = started - now;
            ahead.saturating_add(duration)
        }
    }
}

impl Team {
    /// A team standing on its home planet with an empty hold and no
    /// negotiations.
    pub fn new(
        id: TeamId,
        home_planet_id: PlanetId,
        storage_capacity: u32,
        fuel_capacity: u32,
        fuel_rate: u64,
        durability: u32,
    ) -> (t: Team)
        ensures
            t.id == id,
            t.home_planet_id == home_planet_id,
            t.current_location == (TeamLocation::OnPlanet { planet_id: home_planet_id }),
            forall|r: Resource| #[trigger] t.resources@[r] == 0,
            t.storage_capacity == storage_capacity,
            t.fuel_capacity == fuel_capacity,
            t.fuel_rate == fuel_rate,
            t.durability == durability,
            !t.has_peer,
            t.current_game is None,
            t.trades.sent@.len() == 0 && t.trades.received@.len() == 0,
            t.challenges.sent@.len() == 0 && t.challenges.received@.len() == 0,
            within_capacity(t),
    {
        Team {
            id,
            home_planet_id,
            current_location: TeamLocation::OnPlanet { planet_id: home_planet_id },
            resources: ResourceMap::new(),
            storage_capacity,
            fuel_capacity,
            fuel_rate,
            durability,
            has_peer: false,
            current_game: None,
            trades: NegotiationRegistry::new(),
            challenges: NegotiationRegistry::new(),
        }
    }

    /// The fuel in the tank.
    pub fn fuel(&self) -> (r: u32)
        ensures
            r == self.resources@[Resource::FUEL],
    {
        self.resources.value(&Resource::FUEL)
    }

    /// Checks a trip to `planet_id` lasting `duration` (see `travel_check`).
    pub fn can_travel_to_planet(&self, planet_id: PlanetId, duration: Tick) -> (r: Result<
        (),
        WorldError,
    >)
        ensures
            r == travel_check(*self, planet_id, duration as nat),
    {
        match self.current_location {
            TeamLocation::OnPlanet { planet_id: current } => {
                if current == planet_id {
                    return Err(WorldError::AlreadyAtDestination);
                }
            },
            _ => return Err(WorldError::TeamBusy),
        }
        let held = self.fuel();
        match fuel_consumption(duration, self.fuel_rate) {
            Some(fuel) => if fuel > held {
                Err(WorldError::InsufficientFuel)
            } else {
                Ok(())
            },
            None => Err(WorldError::InsufficientFuel),
        }
    }

    /// Checks an exploration lasting `duration` (see `explore_check`).
    pub fn can_explore_around_planet(&self, duration: Tick) -> (r: Result<(), WorldError>)
        ensures
            r == explore_check(*self, duration as nat),
    {
        if !self.current_location.is_on_planet() {
            return Err(WorldError::TeamBusy);
        }
        if duration == 0 {
            return Err(WorldError::InvalidStateTransition);
        }
        let held = self.fuel();
        match fuel_consumption(duration, self.fuel_rate) {
            Some(fuel) => if fuel > held {
                Err(WorldError::InsufficientFuel)
            } else {
                Ok(())
            },
            None => Err(WorldError::InsufficientFuel),
        }
    }

    /// Sets off from the current planet to `to`. The whole trip's fuel is
    /// taken now, once; arrival takes none.
    pub fn start_travel(&mut self, to: PlanetId, started: Tick, duration: Tick, distance: u128) -> (r:
        Result<(), WorldError>)
        ensures
            match travel_check(*old(self), to, duration as nat) {
                Err(e) => r == Err::<(), WorldError>(e) && *final(self) == *old(self),
                Ok(_) => r is Ok && departed(
                    *old(self),
                    *final(self),
                    TeamLocation::Travelling {
                    from: spec_location_planet(old(self).current_location),
                    to,
                    started,
                    duration,
                    distance,
                },
                    fuel_for(duration as nat, old(self).fuel_rate as nat),
                ),
            },
            within_capacity(*old(self)) ==> within_capacity(*final(self)),
    {
        let checked = self.can_travel_to_planet(to, duration);
        if let Err(e) = checked {
            return Err(e);
        }
        let held = self.fuel();
        let fuel = match fuel_consumption(duration, self.fuel_rate) {
            Some(f) => f,
            None => {
                assert(held as nat >= fuel_for(duration as nat, self.fuel_rate as nat));
                return Err(WorldError::InsufficientFuel);
            },
        };
        let from = self.current_location.planet();
        let ghost before = self.resources@;
        let taken = self.resources.sub(Resource::FUEL, fuel);
        if let Err(e) = taken {
            return Err(e);
        }
        proof {
            lemma_used_insert(before, Resource::FUEL, self.resources@[Resource::FUEL]);
        }
        self.current_location = TeamLocation::Travelling { from, to, started, duration, distance };
        Ok(())
    }

    /// Sets off to explore around the current planet. The whole
    /// exploration's fuel is taken now, once; its end takes none.
    pub fn start_exploring(&mut self, started: Tick, duration: Tick) -> (r: Result<(), WorldError>)
        ensures
            match explore_check(*old(self), duration as nat) {
                Err(e) => r == Err::<(), WorldError>(e) && *final(self) == *old(self),
                Ok(_) => r is Ok && departed(
                    *old(self),
                    *final(self),
                    TeamLocation::Exploring {
                    around: spec_location_planet(old(self).current_location),
                    started,
                    duration,
                },
                    fuel_for(duration as nat, old(self).fuel_rate as nat),
                ),
            },
            within_capacity(*old(self)) ==> within_capacity(*final(self)),
    {
        let checked = self.can_explore_around_planet(duration);
        if let Err(e) = checked {
            return Err(e);
        }
        let held = self.fuel();
        let fuel = match fuel_consumption(duration, self.fuel_rate) {
            Some(f) => f,
            None => {
                assert(held as nat >= fuel_for(duration as nat, self.fuel_rate as nat));
                return Err(WorldError::InsufficientFuel);
            },
        };
        let around = self.current_location.planet();
        let ghost before = self.resources@;
        let taken = self.resources.sub(Resource::FUEL, fuel);
        if let Err(e) = taken {
            return Err(e);
        }
        proof {
            lemma_used_insert(before, Resource::FUEL, self.resources@[Resource::FUEL]);
        }
        self.current_location = TeamLocation::Exploring { around, started, duration };
        Ok(())
    }

    /// Ends a trip or an exploration whose time is up: the team then stands
    /// on the destination (or the explored planet), which is returned. Any
    /// other state is left as it is, and `None` returned.
    pub fn resolve_location(&mut self, now: Tick) -> (r: Option<PlanetId>)
        ensures
            r == due_arrival(old(self).current_location, now as nat),
            location_resolved(*old(self), *final(self), now as nat),
    {
        let arrival = match self.current_location {
            TeamLocation::Travelling { to, started, duration, .. } => if now >= started && now
                - started >= duration {
                Some(to)
            } else {
                None
            },
            TeamLocation::Exploring { around, started, duration } => if now >= started && now
                - started >= duration {
                Some(around)
            } else {
                None
            },
            _ => None,
        };
        if let Some(p) = arrival {
            self.current_location = TeamLocation::OnPlanet { planet_id: p };
        }
        arrival
    }

    /// Sends a travelling or exploring team through a portal to `to`: it
    /// travels there from where it set off, for `PORTAL_TRAVEL_DURATION`,
    /// with no further fuel taken.
    pub fn enter_portal(&mut self, to: PlanetId, started: Tick, distance: u128) -> (r: Result<
        (),
        WorldError,
    >)
        ensures
            match old(self).current_location {
                TeamLocation::Travelling { from, .. } => r is Ok && final(self).current_location
                    == (TeamLocation::Travelling {
                    from,
                    to,
                    started,
                    duration: PORTAL_TRAVEL_DURATION,
                    distance,
                }),
                TeamLocation::Exploring { around, .. } => r is Ok && final(self).current_location
                    == (TeamLocation::Travelling {
                    from: around,
                    to,
                    started,
                    duration: PORTAL_TRAVEL_DURATION,
                    distance,
                }),
                _ => r == Err::<(), WorldError>(WorldError::InvalidStateTransition)
                    && final(self).current_location == old(self).current_location,
            },
            same_but_place(*final(self), *old(self)),
    {
        let from = match self.current_location {
            TeamLocation::Travelling { from, .. } => from,
            TeamLocation::Exploring { around, .. } => around,
            _ => return Err(WorldError::InvalidStateTransition),
        };
        self.current_location = TeamLocation::Travelling {
            from,
            to,
            started,
            duration: PORTAL_TRAVEL_DURATION,
            distance,
        };
        Ok(())
    }

    /// Leaves the current planet for a space adventure around it.
    pub fn start_space_adventure(&mut self) -> (r: Result<(), WorldError>)
        ensures
            adventure_started(*old(self), *final(self), r),
    {
        match self.current_location {
            TeamLocation::OnPlanet { planet_id } => {
                self.current_location = TeamLocation::OnSpaceAdventure { around: planet_id };
                Ok(())
            },
            _ => Err(WorldError::TeamBusy),
        }
    }

    /// Back from a space adventure onto the planet it circled. With
    /// durability left the hold becomes what the adventure ended with, its
    /// fuel included; with none, hold and tank are lost.
    pub fn return_from_space_adventure(
        &mut self,
        harvested: ResourceMap,
        fuel: u32,
        durability: u32,
    ) -> (r: Result<(), WorldError>)
        ensures
            adventure_ended(*old(self), *final(self), r, harvested@, fuel as nat, durability as nat),
            r is Ok ==> within_capacity(*final(self)),
    {
        let around = match self.current_location {
            TeamLocation::OnSpaceAdventure { around } => around,
            _ => return Err(WorldError::InvalidStateTransition),
        };
        if durability > 0 {
            let cap = self.storage_capacity;
            let mut hold = ResourceMap::new();
            let ghost m0 = hold@;
            assert(m0 =~= Map::new(|r: Resource| true, |r: Resource| 0nat));
            hold.saturating_add(Resource::SATOSHI, harvested.value(&Resource::SATOSHI), cap);
            let ghost m1 = hold@;
            hold.saturating_add(Resource::GOLD, harvested.value(&Resource::GOLD), cap);
            let ghost m2 = hold@;
            hold.saturating_add(Resource::SCRAPS, harvested.value(&Resource::SCRAPS), cap);
            let ghost m3 = hold@;
            hold.saturating_add(Resource::RUM, harvested.value(&Resource::RUM), cap);
            proof {
                lemma_saturating_add_respects_capacity(m0, Resource::SATOSHI, harvested@[Resource::SATOSHI], cap as nat);
                lemma_saturating_add_respects_capacity(m1, Resource::GOLD, harvested@[Resource::GOLD], cap as nat);
                lemma_saturating_add_respects_capacity(m2, Resource::SCRAPS, harvested@[Resource::SCRAPS], cap as nat);
                lemma_saturating_add_respects_capacity(m3, Resource::RUM, harvested@[Resource::RUM], cap as nat);
            }
            let kept_fuel = if fuel <= self.fuel_capacity {
                fuel
            } else {
                self.fuel_capacity
            };
            hold.set_fuel(kept_fuel);
            self.resources = hold;
        } else {
            self.resources = ResourceMap::new();
        }
        self.durability = durability;
        self.current_location = TeamLocation::OnPlanet { planet_id: around };
        Ok(())
    }
}

} // verus!
