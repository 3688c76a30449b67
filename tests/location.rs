use rebels::resources::Resource;
use rebels::team::{fuel_consumption, Team, TeamLocation, PORTAL_TRAVEL_DURATION};
use rebels::types::{StorableResourceMap, WorldError, HOURS, SECONDS};

const HOME: u128 = 1;
const MARS: u128 = 2;
const VENUS: u128 = 3;

fn fuelled_team(fuel: u32) -> Team {
    let mut team = Team::new(10, HOME, 1000, 200, 10_000, 100);
    team.resources.add(Resource::FUEL, fuel, 200).unwrap();
    team
}

#[test]
fn fuel_is_rounded_and_at_least_one() {
    assert_eq!(fuel_consumption(3_600_000, 10_000), Some(36));
    assert_eq!(fuel_consumption(1_500_000, 1_000), Some(2));
    assert_eq!(fuel_consumption(1_400_000, 1_000), Some(1));
    assert_eq!(fuel_consumption(1, 1), Some(1));
    assert_eq!(fuel_consumption(0, 0), Some(1));
    assert_eq!(fuel_consumption(u128::MAX, 2), None);
    assert_eq!(fuel_consumption(5_000_000_000_000_000_000, 1_000_000_000), None);
}

#[test]
fn travel_takes_fuel_once() {
    let mut team = fuelled_team(100);
    assert_eq!(team.start_travel(MARS, 1000, HOURS, 500), Ok(()));
    assert_eq!(team.fuel(), 64);
    assert_eq!(
        team.current_location,
        TeamLocation::Travelling { from: HOME, to: MARS, started: 1000, duration: HOURS, distance: 500 }
    );
    assert_eq!(team.resolve_location(1000 + HOURS), Some(MARS));
    assert_eq!(team.current_location, TeamLocation::OnPlanet { planet_id: MARS });
    assert_eq!(team.fuel(), 64);
}

#[test]
fn second_travel_while_travelling_is_busy() {
    let mut team = fuelled_team(100);
    team.start_travel(MARS, 0, HOURS, 500).unwrap();
    assert_eq!(team.start_travel(VENUS, 10, HOURS, 500), Err(WorldError::TeamBusy));
    assert_eq!(team.start_exploring(10, HOURS), Err(WorldError::TeamBusy));
    assert_eq!(team.fuel(), 64);
}

#[test]
fn travel_to_current_planet_is_refused() {
    let mut team = fuelled_team(100);
    assert_eq!(team.start_travel(HOME, 0, HOURS, 0), Err(WorldError::AlreadyAtDestination));
}

#[test]
fn travel_without_fuel_is_refused() {
    let mut team = fuelled_team(35);
    assert_eq!(team.start_travel(MARS, 0, HOURS, 500), Err(WorldError::InsufficientFuel));
    assert_eq!(team.current_location, TeamLocation::OnPlanet { planet_id: HOME });
    assert_eq!(team.fuel(), 35);
}

#[test]
fn exploring_with_empty_tank_fails_and_stays() {
    let mut team = fuelled_team(0);
    assert_eq!(team.start_exploring(0, 3_600_000), Err(WorldError::InsufficientFuel));
    assert_eq!(team.current_location, TeamLocation::OnPlanet { planet_id: HOME });
    assert_eq!(team.can_explore_around_planet(3_600_000), Err(WorldError::InsufficientFuel));
}

#[test]
fn exploring_needs_a_duration() {
    let mut team = fuelled_team(10);
    assert_eq!(team.start_exploring(0, 0), Err(WorldError::InvalidStateTransition));
}

#[test]
fn exploration_resolves_to_the_same_planet() {
    let mut team = fuelled_team(100);
    team.start_exploring(500, HOURS).unwrap();
    assert_eq!(team.fuel(), 64);
    assert_eq!(team.resolve_location(500 + HOURS - 1), None);
    assert_eq!(team.resolve_location(500 + HOURS), Some(HOME));
    assert_eq!(team.current_location, TeamLocation::OnPlanet { planet_id: HOME });
}

#[test]
fn resolving_twice_has_no_second_effect() {
    let mut team = fuelled_team(100);
    team.start_travel(MARS, 0, HOURS, 500).unwrap();
    assert_eq!(team.resolve_location(2 * HOURS), Some(MARS));
    assert_eq!(team.resolve_location(2 * HOURS), None);
    assert_eq!(team.resolve_location(5 * HOURS), None);
    assert_eq!(team.current_location, TeamLocation::OnPlanet { planet_id: MARS });
    assert_eq!(team.fuel(), 64);
}

#[test]
fn countdown_never_negative() {
    let loc = TeamLocation::Travelling { from: HOME, to: MARS, started: 1000, duration: 500, distance: 1 };
    assert_eq!(loc.countdown(1000), 500);
    assert_eq!(loc.countdown(1200), 300);
    assert_eq!(loc.countdown(1500), 0);
    assert_eq!(loc.countdown(u128::MAX), 0);
    assert_eq!(loc.countdown(0), 1500);
    let far = TeamLocation::Exploring { around: HOME, started: u128::MAX, duration: u128::MAX };
    assert_eq!(far.countdown(0), u128::MAX);
    assert_eq!(TeamLocation::OnPlanet { planet_id: HOME }.countdown(7), 0);
}

#[test]
fn portal_redirects_without_fuel() {
    let mut team = fuelled_team(100);
    team.start_exploring(0, HOURS).unwrap();
    assert_eq!(team.enter_portal(VENUS, 77, 9), Ok(()));
    assert_eq!(
        team.current_location,
        TeamLocation::Travelling { from: HOME, to: VENUS, started: 77, duration: PORTAL_TRAVEL_DURATION, distance: 9 }
    );
    assert_eq!(PORTAL_TRAVEL_DURATION, 10 * SECONDS);
    assert_eq!(team.fuel(), 64);
    let mut idle = fuelled_team(100);
    assert_eq!(idle.enter_portal(VENUS, 0, 1), Err(WorldError::InvalidStateTransition));
}

#[test]
fn space_adventure_round_trip() {
    let mut team = fuelled_team(100);
    team.resources.add(Resource::RUM, 5, 1000).unwrap();
    assert_eq!(team.start_space_adventure(), Ok(()));
    assert_eq!(team.current_location, TeamLocation::OnSpaceAdventure { around: HOME });
    assert_eq!(team.start_space_adventure(), Err(WorldError::TeamBusy));
    let mut harvested = rebels::types::ResourceMap::new();
    harvested.add(Resource::GOLD, 3, 1000).unwrap();
    harvested.add(Resource::FUEL, 1, 1000).unwrap();
    assert_eq!(team.return_from_space_adventure(harvested, 42, 80), Ok(()));
    assert_eq!(team.current_location, TeamLocation::OnPlanet { planet_id: HOME });
    assert_eq!(team.resources.value(&Resource::GOLD), 3);
    assert_eq!(team.fuel(), 42);
    assert_eq!(team.resources.value(&Resource::RUM), 0);
    assert_eq!(team.durability, 80);
}

#[test]
fn space_adventure_total_loss_empties_hold_and_tank() {
    let mut team = fuelled_team(100);
    team.start_space_adventure().unwrap();
    let mut harvested = rebels::types::ResourceMap::new();
    harvested.add(Resource::GOLD, 3, 1000).unwrap();
    assert_eq!(team.return_from_space_adventure(harvested, 42, 0), Ok(()));
    assert_eq!(team.fuel(), 0);
    assert_eq!(team.resources.value(&Resource::GOLD), 0);
    assert_eq!(team.return_from_space_adventure(harvested, 42, 0), Err(WorldError::InvalidStateTransition));
}

#[test]
fn adventure_loot_is_clamped_to_the_ship() {
    let mut team = Team::new(10, HOME, 25, 50, 10_000, 100);
    team.start_space_adventure().unwrap();
    let mut harvested = rebels::types::ResourceMap::new();
    harvested.add(Resource::GOLD, 5, 1000).unwrap();
    harvested.add(Resource::SCRAPS, 3, 1000).unwrap();
    harvested.add(Resource::RUM, 9, 1000).unwrap();
    harvested.add(Resource::SATOSHI, 77, 1000).unwrap();
    assert_eq!(team.return_from_space_adventure(harvested, 80, 10), Ok(()));
    // gold takes 10 of 25, one scrap the next 10, then 5 rum
    assert_eq!(team.resources.value(&Resource::GOLD), 5);
    assert_eq!(team.resources.value(&Resource::SCRAPS), 1);
    assert_eq!(team.resources.value(&Resource::RUM), 5);
    assert_eq!(team.resources.value(&Resource::SATOSHI), 77);
    assert_eq!(team.fuel(), 50);
    assert_eq!(team.resources.used_storage_capacity(), 25);
}
