use rebels::negotiation::{Proposal, ProposalKey};
use rebels::resources::Resource;
use rebels::store::save_world;
use rebels::team::{Team, TeamLocation};
use rebels::types::{StorableResourceMap, WorldError, HOURS};
use rebels::views::{MyTeamView, PlayerView};
use rebels::world::{Arrival, ChallengeOutcome, Planet, Player, PlayerLocation, TradeOutcome, World};

const HOME: u128 = 1;
const MARS: u128 = 2;
const VENUS: u128 = 3;
const OWN: u128 = 10;
const LOCAL: u128 = 20;
const REMOTE: u128 = 30;

fn player(id: u128, team: Option<u128>, value: u32) -> Player {
    let current_location = if team.is_some() {
        PlayerLocation::WithTeam
    } else {
        PlayerLocation::OnPlanet { planet_id: HOME }
    };
    Player { id, team, current_location, bare_value: value }
}

fn world() -> World {
    let mut w = World::new(OWN);
    w.planets.push(Planet { id: HOME, population: 10, has_peer: false });
    w.planets.push(Planet { id: MARS, population: 5, has_peer: false });
    w.planets.push(Planet { id: VENUS, population: 0, has_peer: false });
    let mut own = Team::new(OWN, HOME, 1000, 200, 10_000, 100);
    own.resources.add(Resource::FUEL, 100, 200).unwrap();
    own.resources.add(Resource::SATOSHI, 1000, 1000).unwrap();
    w.teams.push(own);
    w.teams.push(Team::new(LOCAL, HOME, 1000, 200, 10_000, 100));
    let mut remote = Team::new(REMOTE, HOME, 1000, 200, 10_000, 100);
    remote.has_peer = true;
    w.teams.push(remote);
    w.players.push(player(100, Some(OWN), 100));
    w.players.push(player(200, Some(LOCAL), 80));
    w.players.push(player(300, Some(REMOTE), 50));
    w.players.push(player(400, None, 10));
    w.players.push(player(101, Some(OWN), 70));
    w
}

fn team_of(w: &World, player_id: u128) -> Option<u128> {
    w.players.iter().find(|p| p.id == player_id).unwrap().team
}

#[test]
fn travel_through_the_world() {
    let mut w = world();
    assert_eq!(w.travel_to_planet(MARS, 0, HOURS, 300), Ok(()));
    assert!(w.flags.dirty && w.flags.dirty_ui && w.flags.dirty_network);
    assert_eq!(w.teams[0].fuel(), 64);
    assert_eq!(w.teams_on_planet(HOME), vec![LOCAL, REMOTE]);
    assert_eq!(w.travel_to_planet(VENUS, 1, HOURS, 300), Err(WorldError::TeamBusy));
    assert_eq!(w.tick_travel(HOURS - 1), Vec::<Arrival>::new());
    assert_eq!(w.tick_travel(HOURS), vec![Arrival { team_id: OWN, planet_id: MARS, explored: false }]);
    assert_eq!(w.tick_travel(HOURS + 5), Vec::<Arrival>::new());
    assert_eq!(w.last_tick_short_interval, HOURS + 5);
    assert_eq!(w.teams_on_planet(MARS), vec![OWN]);
    assert_eq!(w.teams[0].fuel(), 64);
}

#[test]
fn travel_to_unknown_planet() {
    let mut w = world();
    assert_eq!(w.travel_to_planet(99, 0, HOURS, 300), Err(WorldError::EntityNotFound));
    assert!(!w.flags.dirty);
}

#[test]
fn explore_with_empty_tank_keeps_team_on_planet() {
    let mut w = world();
    w.teams[0].resources.saturating_sub(Resource::FUEL, 100);
    assert_eq!(w.explore_around_planet(0, 3_600_000), Err(WorldError::InsufficientFuel));
    assert_eq!(w.teams[0].current_location, TeamLocation::OnPlanet { planet_id: HOME });
}

#[test]
fn explore_and_return() {
    let mut w = world();
    assert_eq!(w.explore_around_planet(0, HOURS), Ok(()));
    assert_eq!(w.teams[0].current_location, TeamLocation::Exploring { around: HOME, started: 0, duration: HOURS });
    assert_eq!(w.tick_travel(HOURS), vec![Arrival { team_id: OWN, planet_id: HOME, explored: true }]);
}

#[test]
fn local_trade_accepted_by_value() {
    let mut w = world();
    assert_eq!(w.propose_trade(100, 200, 5), Ok(TradeOutcome::Accepted));
    assert_eq!(team_of(&w, 100), Some(LOCAL));
    assert_eq!(team_of(&w, 200), Some(OWN));
    assert!(w.teams.iter().all(|t| t.trades.sent.is_empty() && t.trades.received.is_empty()));
}

#[test]
fn local_trade_rejected_by_value() {
    let mut w = world();
    assert_eq!(w.propose_trade(101, 200, 5), Ok(TradeOutcome::Rejected));
    assert_eq!(team_of(&w, 101), Some(OWN));
    assert_eq!(team_of(&w, 200), Some(LOCAL));
    assert!(w.teams.iter().all(|t| t.trades.sent.is_empty() && t.trades.received.is_empty()));
}

#[test]
fn trade_checks() {
    let mut w = world();
    assert_eq!(w.propose_trade(200, 100, 5), Err(WorldError::NotTradable));
    assert_eq!(w.propose_trade(100, 400, 5), Err(WorldError::NotTradable));
    assert_eq!(w.propose_trade(100, 999, 5), Err(WorldError::EntityNotFound));
    w.teams[1].current_game = Some(7);
    assert_eq!(w.propose_trade(100, 200, 5), Err(WorldError::NotTradable));
    w.teams[1].current_game = None;
    w.teams[1].current_location = TeamLocation::OnPlanet { planet_id: MARS };
    assert_eq!(w.propose_trade(100, 200, 5), Err(WorldError::TargetUnavailable));
}

#[test]
fn networked_trade_is_recorded_then_resolved() {
    let mut w = world();
    let sent = w.propose_trade(100, 300, 5).unwrap();
    let expected = Proposal::Trade {
        proposer_player_id: 100,
        target_player_id: 300,
        proposer_team_id: OWN,
        target_team_id: REMOTE,
        created: 5,
    };
    assert_eq!(sent, TradeOutcome::Sent(expected));
    assert_eq!(w.teams[0].trades.sent, vec![expected]);
    assert_eq!(w.propose_trade(100, 300, 6), Err(WorldError::AlreadyProposed));
    assert_eq!(team_of(&w, 100), Some(OWN));
    assert_eq!(w.resolve_trade(100, 300, true), Ok(()));
    assert!(w.teams[0].trades.sent.is_empty());
    assert_eq!(team_of(&w, 100), Some(REMOTE));
    assert_eq!(team_of(&w, 300), Some(OWN));
    assert_eq!(w.resolve_trade(100, 300, true), Err(WorldError::StaleProposal));
}

#[test]
fn received_trade_mirrors_sent_one() {
    // The peer's world: its own team is REMOTE, receiving from OWN.
    let mut ours = world();
    let mut theirs = world();
    theirs.own_team_id = REMOTE;
    let sent = match ours.propose_trade(100, 300, 5).unwrap() {
        TradeOutcome::Sent(p) => p,
        other => panic!("unexpected {:?}", other),
    };
    assert_eq!(theirs.receive_proposal(sent), Ok(()));
    assert_eq!(theirs.teams[2].trades.received, ours.teams[0].trades.sent);
    assert_eq!(theirs.receive_proposal(sent), Err(WorldError::AlreadyProposed));
    assert_eq!(theirs.resolve_trade(100, 300, false), Ok(()));
    assert_eq!(ours.resolve_trade(100, 300, false), Ok(()));
    assert!(theirs.teams[2].trades.received.is_empty());
    assert!(ours.teams[0].trades.sent.is_empty());
    assert_eq!(team_of(&ours, 100), Some(OWN));
}

#[test]
fn received_proposal_must_address_own_team() {
    let mut w = world();
    let p = Proposal::Challenge { proposer_team_id: LOCAL, target_team_id: REMOTE, created: 1 };
    assert_eq!(w.receive_proposal(p), Err(WorldError::TargetUnavailable));
}

#[test]
fn stale_trade_acceptance_is_refused() {
    let mut w = world();
    w.propose_trade(100, 300, 5).unwrap();
    w.teams[2].current_location = TeamLocation::OnPlanet { planet_id: MARS };
    assert_eq!(w.resolve_trade(100, 300, true), Err(WorldError::StaleProposal));
    assert_eq!(w.teams[0].trades.sent.len(), 1);
    assert_eq!(w.resolve_trade(100, 300, false), Ok(()));
    assert!(w.teams[0].trades.sent.is_empty());
}

#[test]
fn challenges() {
    let mut w = world();
    assert_eq!(
        w.propose_challenge(LOCAL, 3, true),
        Ok(ChallengeOutcome::Play { home_team_id: OWN, away_team_id: LOCAL })
    );
    assert_eq!(
        w.propose_challenge(LOCAL, 3, false),
        Ok(ChallengeOutcome::Play { home_team_id: LOCAL, away_team_id: OWN })
    );
    assert!(w.teams[0].challenges.sent.is_empty());
    assert_eq!(w.propose_challenge(OWN, 3, true), Err(WorldError::TargetUnavailable));
    let p = Proposal::Challenge { proposer_team_id: OWN, target_team_id: REMOTE, created: 3 };
    assert_eq!(w.propose_challenge(REMOTE, 3, true), Ok(ChallengeOutcome::Sent(p)));
    assert_eq!(w.propose_challenge(REMOTE, 4, true), Err(WorldError::AlreadyProposed));
    assert_eq!(w.resolve_challenge(OWN, REMOTE, true), Ok(()));
    assert!(w.teams[0].challenges.sent.is_empty());
    assert_eq!(w.resolve_challenge(OWN, REMOTE, true), Err(WorldError::StaleProposal));
    w.teams[1].current_game = Some(1);
    assert_eq!(w.propose_challenge(LOCAL, 3, true), Err(WorldError::TeamBusy));
}

#[test]
fn market_trades() {
    let mut w = world();
    assert_eq!(w.trade_resource(Resource::RUM, 10, 20), Ok(()));
    assert_eq!(w.teams[0].resources.value(&Resource::RUM), 10);
    assert_eq!(w.teams[0].resources.value(&Resource::SATOSHI), 800);
    assert_eq!(w.trade_resource(Resource::RUM, -4, 30), Ok(()));
    assert_eq!(w.teams[0].resources.value(&Resource::RUM), 6);
    assert_eq!(w.teams[0].resources.value(&Resource::SATOSHI), 920);
    assert_eq!(w.trade_resource(Resource::GOLD, 1, 2000), Err(WorldError::InsufficientResources));
    assert_eq!(w.teams[0].resources.value(&Resource::GOLD), 0);
    // the tank holds 200 and has 100
    assert_eq!(w.trade_resource(Resource::FUEL, 101, 1), Err(WorldError::CapacityExceeded));
    assert_eq!(w.trade_resource(Resource::FUEL, 100, 1), Ok(()));
    assert_eq!(w.teams[0].fuel(), 200);
    assert_eq!(w.trade_resource(Resource::FUEL, 1, 1), Err(WorldError::CapacityExceeded));
    assert_eq!(w.teams[0].fuel(), 200);
    assert_eq!(w.trade_resource(Resource::SCRAPS, 101, 1), Err(WorldError::CapacityExceeded));
    assert_eq!(w.teams[0].resources.value(&Resource::SATOSHI), 820);
    assert_eq!(w.trade_resource(Resource::RUM, -7, 1), Err(WorldError::InsufficientResources));
    assert_eq!(w.trade_resource(Resource::RUM, 0, 1), Ok(()));
}

#[test]
fn portal_candidates_and_entry() {
    let mut w = world();
    assert_eq!(w.send_through_portal(MARS, 0, 1), Err(WorldError::InvalidStateTransition));
    w.explore_around_planet(0, HOURS).unwrap();
    let loc = w.teams[0].current_location;
    assert_eq!(w.portal_candidates(&loc), vec![MARS]);
    assert_eq!(w.send_through_portal(VENUS, 5, 1), Err(WorldError::InvalidStateTransition));
    assert_eq!(w.send_through_portal(MARS, 5, 1), Ok(()));
    assert_eq!(w.teams[0].fuel(), 64);
    assert_eq!(w.tick_travel(5 + 10_000), vec![Arrival { team_id: OWN, planet_id: MARS, explored: false }]);
}

#[test]
fn player_views() {
    let w = world();
    assert_eq!(PlayerView::All.next(), PlayerView::FreePirates);
    assert_eq!(PlayerView::OwnTeam.next(), PlayerView::All);
    assert_eq!(PlayerView::Tradable.to_string(), "Open for trade");
    assert_eq!(PlayerView::FreePirates.to_string(), "Free pirates");
    let pirate = w.players[3];
    let local = w.players[1];
    let mine = w.players[0];
    assert!(PlayerView::All.rule(&pirate, &w));
    assert!(PlayerView::FreePirates.rule(&pirate, &w));
    assert!(!PlayerView::FreePirates.rule(&local, &w));
    assert!(PlayerView::Tradable.rule(&local, &w));
    assert!(!PlayerView::Tradable.rule(&mine, &w));
    assert!(PlayerView::OwnTeam.rule(&mine, &w));
    assert!(!PlayerView::OwnTeam.rule(&local, &w));
    assert_eq!(MyTeamView::Info.next(), MyTeamView::Games);
    assert_eq!(MyTeamView::Market.next(), MyTeamView::Info);
}

#[test]
fn save_targets() {
    assert_eq!(save_world(false), vec!["world.json".to_string()]);
    assert_eq!(save_world(true), vec!["world.json".to_string(), "world.json.back".to_string()]);
}

#[test]
fn keys_of_proposals() {
    let p = Proposal::Trade {
        proposer_player_id: 1,
        target_player_id: 2,
        proposer_team_id: 3,
        target_team_id: 4,
        created: 0,
    };
    assert_eq!(p.key(), ProposalKey::Trade { proposer_player_id: 1, target_player_id: 2 });
    assert_eq!(p.target_team_id(), 4);
    assert_eq!(p.proposer_team_id(), 3);
}

#[test]
fn relocated_counterpart_prunes_proposals() {
    let mut w = world();
    w.propose_trade(100, 300, 5).unwrap();
    w.propose_challenge(REMOTE, 5, true).unwrap();
    w.flags.dirty = false;
    assert_eq!(w.prune_stale_proposals(), Ok(()));
    assert_eq!(w.teams[0].trades.sent.len(), 1);
    assert!(!w.flags.dirty);
    w.teams[2].current_location = TeamLocation::OnPlanet { planet_id: MARS };
    assert_eq!(w.prune_stale_proposals(), Ok(()));
    assert!(w.teams[0].trades.sent.is_empty());
    assert!(w.teams[0].challenges.sent.is_empty());
    assert!(w.flags.dirty);
}

#[test]
fn world_space_adventure() {
    let mut w = world();
    assert_eq!(w.start_space_adventure(), Ok(()));
    assert_eq!(w.teams[0].current_location, TeamLocation::OnSpaceAdventure { around: HOME });
    assert_eq!(w.start_space_adventure(), Err(WorldError::TeamBusy));
    assert_eq!(w.travel_to_planet(MARS, 0, HOURS, 1), Err(WorldError::TeamBusy));
    let mut loot = rebels::types::ResourceMap::new();
    loot.add(Resource::SCRAPS, 2, 1000).unwrap();
    assert_eq!(w.return_from_space_adventure(loot, 7, 0), Ok(()));
    assert_eq!(w.teams[0].current_location, TeamLocation::OnPlanet { planet_id: HOME });
    assert_eq!(w.teams[0].fuel(), 0);
    assert_eq!(w.teams[0].resources.value(&Resource::SCRAPS), 0);
    assert_eq!(w.return_from_space_adventure(loot, 7, 3), Err(WorldError::InvalidStateTransition));
}

#[test]
fn sale_proceeds_past_u32_are_refused() {
    let mut w = world();
    w.teams[0].resources.add(Resource::RUM, 10, 1000).unwrap();
    assert_eq!(w.trade_resource(Resource::RUM, -2, u32::MAX), Err(WorldError::CapacityExceeded));
    assert_eq!(w.teams[0].resources.value(&Resource::RUM), 10);
    assert_eq!(w.teams[0].resources.value(&Resource::SATOSHI), 1000);
}
