use crate::negotiation::{has_key, with_proposal, without_key, Proposal, ProposalKey};
use crate::resources::Resource;
use crate::team::{
    within_capacity, adventure_ended, adventure_started, departed, due_arrival, explore_check, fuel_for,
    location_resolved, spec_location_planet, travel_check, Team, TeamLocation,
};
use crate::types::{
    lemma_add_respects_capacity, lemma_used_insert, storage_used, valid_ledger, ledger_add, ledger_sub, PlanetId, PlayerId, ResourceMap, StorableResourceMap, TeamId, Tick,
    WorldError,
};
use vstd::prelude::*;

verus! {

/// Where a player is when not aboard a team's spaceship.
#[derive(Debug, Clone, Copy, PartialEq, Eq, Structural)]
pub enum PlayerLocation {
    OnPlanet { planet_id: PlanetId },
    WithTeam,
}

#[derive(Debug, Clone, Copy, PartialEq, Eq, Structural)]
pub struct Player {
    pub id: PlayerId,
    pub team: Option<TeamId>,
    pub current_location: PlayerLocation,
    /// The player's market value, as the rating rules gave it.
    pub bare_value: u32,
}

#[derive(Debug, Clone, Copy, PartialEq, Eq, Structural)]
pub struct Planet {
    pub id: PlanetId,
    pub population: u32,
    /// Whether the planet belongs to another peer of the network.
    pub has_peer: bool,
}

/// Which consumers have changes to take in: persistence, the interface and
/// the network. Set by mutations, cleared only by the consumer.
#[derive(Debug, Clone, Copy, PartialEq, Eq, Structural)]
pub struct SyncFlags {
    pub dirty: bool,
    pub dirty_ui: bool,
    pub dirty_network: bool,
}

impl SyncFlags {
    pub fn new() -> (f: SyncFlags)
        ensures
            !f.dirty && !f.dirty_ui && !f.dirty_network,
    {
        SyncFlags { dirty: false, dirty_ui: false, dirty_network: false }
    }

    /// Marks a change that every consumer must take in.
    pub fn mark_all(&mut self)
        ensures
            final(self).dirty && final(self).dirty_ui && final(self).dirty_network,
    {
        self.dirty = true;
        self.dirty_ui = true;
        self.dirty_network = true;
    }
}

/// The position of the first `id` in `ids`, or -1.
pub open spec fn first_position(ids: Seq<u128>, id: u128) -> int
    decreases ids.len(),
{
    if ids.len() == 0 {
        -1
    } else if ids[0] == id {
        0
    } else {
        let r = first_position(ids.subrange(1, ids.len() as int), id);
        if r < 0 {
            -1
        } else {
            r + 1
        }
    }
}

proof fn lemma_first_position(ids: Seq<u128>, id: u128, i: int)
    requires
        0 <= i <= ids.len(),
        forall|j: int| 0 <= j < i ==> ids[j] != id,
    ensures
        i < ids.len() && ids[i] == id ==> first_position(ids, id) == i,
        i == ids.len() ==> first_position(ids, id) == -1,
    decreases i,
{
    if i > 0 {
        let rest = ids.subrange(1, ids.len() as int);
        lemma_first_position(rest, id, i - 1);
    }
}

pub open spec fn team_ids(s: Seq<Team>) -> Seq<u128> {
    s.map_values(|t: Team| t.id)
}

pub open spec fn planet_ids(s: Seq<Planet>) -> Seq<u128> {
    s.map_values(|p: Planet| p.id)
}

pub open spec fn player_ids(s: Seq<Player>) -> Seq<u128> {
    s.map_values(|p: Player| p.id)
}

/// `after` differs from `before` in the team at position `i` alone, and in
/// the flags.
pub open spec fn only_team_changed(before: World, after: World, i: int) -> bool {
    &&& after.own_team_id == before.own_team_id
    &&& after.teams@.len() == before.teams@.len()
    &&& forall|j: int| 0 <= j < before.teams@.len() && j != i ==> after.teams@[j] == before.teams@[j]
    &&& after.planets@ == before.planets@
    &&& after.players@ == before.players@
    &&& after.last_tick_short_interval == before.last_tick_short_interval
    &&& after.last_tick_long_interval == before.last_tick_long_interval
}

pub open spec fn all_marked(f: SyncFlags) -> bool {
    f.dirty && f.dirty_ui && f.dirty_network
}

/// Why the own team may not travel to `planet_id` for `duration`, if it may
/// not: the team and the planet must exist, then `travel_check` decides.
pub open spec fn travel_request_check(w: World, planet_id: PlanetId, duration: nat) -> Result<(), WorldError> {
    if w.own_position() < 0 {
        Err(WorldError::EntityNotFound)
    } else if first_position(planet_ids(w.planets@), planet_id) < 0 {
        Err(WorldError::EntityNotFound)
    } else {
        travel_check(w.teams@[w.own_position()], planet_id, duration)
    }
}

/// Why the own team may not explore for `duration`, if it may not: the team
/// and the planet it stands on must exist, then `explore_check` decides.
pub open spec fn explore_request_check(w: World, duration: nat) -> Result<(), WorldError> {
    if w.own_position() < 0 {
        Err(WorldError::EntityNotFound)
    } else if first_position(
        planet_ids(w.planets@),
        spec_location_planet(w.teams@[w.own_position()].current_location),
    ) < 0 {
        Err(WorldError::EntityNotFound)
    } else {
        explore_check(w.teams@[w.own_position()], duration)
    }
}

/// A trip or an exploration that has ended: the team, the planet it now
/// stands on, and whether it was exploring (whose finds are then due).
#[derive(Debug, Clone, Copy, PartialEq, Eq, Structural)]
pub struct Arrival {
    pub team_id: TeamId,
    pub planet_id: PlanetId,
    pub explored: bool,
}

/// The arrivals due at `now` among `teams`, in their order.
pub open spec fn due_arrivals(teams: Seq<Team>, now: nat) -> Seq<Arrival>
    decreases teams.len(),
{
    if teams.len() == 0 {
        Seq::empty()
    } else {
        let rest = due_arrivals(teams.drop_last(), now);
        match due_arrival(teams.last().current_location, now) {
            Some(p) => rest.push(
                Arrival {
                    team_id: teams.last().id,
                    planet_id: p,
                    explored: teams.last().current_location is Exploring,
                },
            ),
            None => rest,
        }
    }
}

/// The own team's hold after buying (`amount > 0`) or selling
/// (`amount < 0`) `amount` units of `resource` at `unit_cost` satoshi each,
/// or why the deal is refused. Bought fuel goes in the tank, which it may
/// not overfill; other goods go in the cargo hold; satoshi take no room.
pub open spec fn market_trade(team: Team, resource: Resource, amount: int, unit_cost: nat) -> Result<
    Map<Resource, nat>,
    WorldError,
> {
    if amount > 0 {
        let bought = if resource == Resource::FUEL {
            if team.resources@[Resource::FUEL] + amount > team.fuel_capacity {
                Err(WorldError::CapacityExceeded)
            } else {
                ledger_add(team.resources@, resource, amount as nat, u32::MAX as nat)
            }
        } else {
            ledger_add(team.resources@, resource, amount as nat, team.storage_capacity as nat)
        };
        match bought {
            Err(e) => Err(e),
            Ok(m) => ledger_sub(m, Resource::SATOSHI, unit_cost * (amount as nat)),
        }
    } else if amount < 0 {
        match ledger_sub(team.resources@, resource, (-amount) as nat) {
            Err(e) => Err(e),
            Ok(m) => ledger_add(
                m,
                Resource::SATOSHI,
                unit_cost * ((-amount) as nat),
                team.storage_capacity as nat,
            ),
        }
    } else {
        Ok(team.resources@)
    }
}

/// A market deal keeps a team's hold within its spaceship's capacity.
pub proof fn lemma_market_trade_keeps_capacity(team: Team, resource: Resource, amount: int, unit_cost: nat)
    requires
        valid_ledger(team.resources@),
        within_capacity(team),
    ensures
        market_trade(team, resource, amount, unit_cost) is Ok ==> {
            let m = market_trade(team, resource, amount, unit_cost)->Ok_0;
            storage_used(m) <= team.storage_capacity && m[Resource::FUEL] <= team.fuel_capacity
        },
{
    let m0 = team.resources@;
    if amount > 0 {
        if resource == Resource::FUEL {
            lemma_used_insert(m0, resource, m0[resource] + amount as nat);
        } else {
            lemma_add_respects_capacity(m0, resource, amount as nat, team.storage_capacity as nat);
        }
        let bought = if resource == Resource::FUEL {
            if m0[Resource::FUEL] + amount > team.fuel_capacity {
                Err(WorldError::CapacityExceeded)
            } else {
                ledger_add(m0, resource, amount as nat, u32::MAX as nat)
            }
        } else {
            ledger_add(m0, resource, amount as nat, team.storage_capacity as nat)
        };
        if let Ok(m1) = bought {
            let cost = unit_cost * (amount as nat);
            if m1[Resource::SATOSHI] >= cost {
                lemma_used_insert(m1, Resource::SATOSHI, (m1[Resource::SATOSHI] - cost) as nat);
            }
        }
    } else if amount < 0 {
        let sold = (-amount) as nat;
        if m0[resource] >= sold {
            let m1 = m0.insert(resource, (m0[resource] - sold) as nat);
            lemma_used_insert(m0, resource, (m0[resource] - sold) as nat);
            let w = crate::resources::storing_space(resource);
            assert(w * ((m0[resource] - sold) as nat) <= w * m0[resource]) by (nonlinear_arith)
                requires sold <= m0[resource];
            let earned = unit_cost * sold;
            lemma_used_insert(m1, Resource::SATOSHI, m1[Resource::SATOSHI] + earned);
        }
    }
}

/// What came of a trade proposal: sent to the peer that plays the target
/// team, or settled at once against a local team.
#[derive(Debug, Clone, Copy, PartialEq, Eq, Structural)]
pub enum TradeOutcome {
    Sent(Proposal),
    Accepted,
    Rejected,
}

/// What came of a challenge: sent to the peer that plays the challenged
/// team, or a game to play at once between a home and an away team.
#[derive(Debug, Clone, Copy, PartialEq, Eq, Structural)]
pub enum ChallengeOutcome {
    Sent(Proposal),
    Play { home_team_id: TeamId, away_team_id: TeamId },
}

/// Whether `proposer` of team `own` may be traded for `target` of
/// `target_team`: each must belong to its team, the teams must differ, be
/// out of any game, and stand on the same planet.
pub open spec fn trade_check(own: Team, proposer: Player, target: Player, target_team: Team) -> Result<
    (),
    WorldError,
> {
    if proposer.team != Some(own.id) || target.team != Some(target_team.id) || target_team.id
        == own.id {
        Err(WorldError::NotTradable)
    } else if own.current_game is Some || target_team.current_game is Some {
        Err(WorldError::NotTradable)
    } else if !(own.current_location is OnPlanet) || own.current_location
        != target_team.current_location {
        Err(WorldError::TargetUnavailable)
    } else {
        Ok(())
    }
}

/// Whether `own` may challenge `team`: another team, both out of any game,
/// both standing on the same planet.
pub open spec fn challenge_check(own: Team, team: Team) -> Result<(), WorldError> {
    if team.id == own.id {
        Err(WorldError::TargetUnavailable)
    } else if own.current_game is Some || team.current_game is Some {
        Err(WorldError::TeamBusy)
    } else if !(own.current_location is OnPlanet) || own.current_location != team.current_location {
        Err(WorldError::TargetUnavailable)
    } else {
        Ok(())
    }
}

/// `a` and `b` agree on everything but their trade registries.
pub open spec fn same_but_trades(a: Team, b: Team) -> bool {
    &&& a.id == b.id
    &&& a.home_planet_id == b.home_planet_id
    &&& a.current_location == b.current_location
    &&& a.resources == b.resources
    &&& a.storage_capacity == b.storage_capacity
    &&& a.fuel_capacity == b.fuel_capacity
    &&& a.fuel_rate == b.fuel_rate
    &&& a.durability == b.durability
    &&& a.has_peer == b.has_peer
    &&& a.current_game == b.current_game
    &&& a.challenges == b.challenges
}

/// `a` and `b` agree on everything but their challenge registries.
pub open spec fn same_but_challenges(a: Team, b: Team) -> bool {
    &&& a.id == b.id
    &&& a.home_planet_id == b.home_planet_id
    &&& a.current_location == b.current_location
    &&& a.resources == b.resources
    &&& a.storage_capacity == b.storage_capacity
    &&& a.fuel_capacity == b.fuel_capacity
    &&& a.fuel_rate == b.fuel_rate
    &&& a.durability == b.durability
    &&& a.has_peer == b.has_peer
    &&& a.current_game == b.current_game
    &&& a.trades == b.trades
}

/// `a` and `b` agree on everything but their trade and challenge
/// registries.
pub open spec fn same_but_negotiations(a: Team, b: Team) -> bool {
    &&& a.id == b.id
    &&& a.home_planet_id == b.home_planet_id
    &&& a.current_location == b.current_location
    &&& a.resources == b.resources
    &&& a.storage_capacity == b.storage_capacity
    &&& a.fuel_capacity == b.fuel_capacity
    &&& a.fuel_rate == b.fuel_rate
    &&& a.durability == b.durability
    &&& a.has_peer == b.has_peer
    &&& a.current_game == b.current_game
}

/// The players after the one at `pp` joins team `to_team` and the one at
/// `tp` joins team `from_team`.
pub open spec fn swapped(players: Seq<Player>, pp: int, tp: int, from_team: TeamId, to_team: TeamId) -> Seq<
    Player,
> {
    players.update(pp, Player { team: Some(to_team), ..players[pp] }).update(
        tp,
        Player { team: Some(from_team), ..players[tp] },
    )
}

/// The positions of the own team, the proposer, the target and the
/// target's team for a trade of `proposer_id` for `target_id`, or why it
/// may not be proposed.
pub open spec fn trade_request(w: World, proposer_id: PlayerId, target_id: PlayerId) -> Result<
    (int, int, int, int),
    WorldError,
> {
    let i = w.own_position();
    let tp = first_position(player_ids(w.players@), target_id);
    let pp = first_position(player_ids(w.players@), proposer_id);
    if i < 0 || tp < 0 {
        Err(WorldError::EntityNotFound)
    } else {
        match w.players@[tp].team {
            None => Err(WorldError::NotTradable),
            Some(target_team_id) => {
                let ti = first_position(team_ids(w.teams@), target_team_id);
                if ti < 0 || pp < 0 {
                    Err(WorldError::EntityNotFound)
                } else {
                    match trade_check(w.teams@[i], w.players@[pp], w.players@[tp], w.teams@[ti]) {
                        Err(e) => Err(e),
                        Ok(_) => Ok((i, pp, tp, ti)),
                    }
                }
            },
        }
    }
}

/// What `propose_trade` does: against a networked team the proposal is
/// recorded among the own team's sent trades (nothing else changes); against
/// a local team it is settled at once, accepted exactly when the proposer
/// is worth at least as much as the target, the two players then changing
/// teams, and no proposal is recorded anywhere.
pub open spec fn trade_proposed(
    before: World,
    after: World,
    r: Result<TradeOutcome, WorldError>,
    proposer_id: PlayerId,
    target_id: PlayerId,
    now: Tick,
) -> bool {
    match trade_request(before, proposer_id, target_id) {
        Err(e) => r == Err::<TradeOutcome, WorldError>(e) && after == before,
        Ok((i, pp, tp, ti)) => {
            let own = before.teams@[i];
            let target_team = before.teams@[ti];
            if target_team.has_peer {
                let p = Proposal::Trade {
                    proposer_player_id: proposer_id,
                    target_player_id: target_id,
                    proposer_team_id: own.id,
                    target_team_id: target_team.id,
                    created: now,
                };
                match with_proposal(own.trades.sent@, p) {
                    Err(e) => r == Err::<TradeOutcome, WorldError>(e) && after == before,
                    Ok(sent) => {
                        &&& r == Ok::<TradeOutcome, WorldError>(TradeOutcome::Sent(p))
                        &&& only_team_changed(before, after, i)
                        &&& same_but_trades(after.teams@[i], own)
                        &&& after.teams@[i].trades.sent@ == sent
                        &&& after.teams@[i].trades.received@ == own.trades.received@
                        &&& all_marked(after.flags)
                    },
                }
            } else if before.players@[pp].bare_value >= before.players@[tp].bare_value {
                &&& r == Ok::<TradeOutcome, WorldError>(TradeOutcome::Accepted)
                &&& after.players@ == swapped(before.players@, pp, tp, own.id, target_team.id)
                &&& after.teams == before.teams
                &&& after.planets == before.planets
                &&& after.own_team_id == before.own_team_id
                &&& after.last_tick_short_interval == before.last_tick_short_interval
                &&& after.last_tick_long_interval == before.last_tick_long_interval
                &&& all_marked(after.flags)
            } else {
                r == Ok::<TradeOutcome, WorldError>(TradeOutcome::Rejected) && after == before
            }
        },
    }
}

/// A trade with a local team is settled on the spot: whatever the outcome,
/// no team's trade registry changes, and the outcome is the value rule's.
pub proof fn lemma_local_trade_not_recorded(
    before: World,
    after: World,
    r: Result<TradeOutcome, WorldError>,
    proposer_id: PlayerId,
    target_id: PlayerId,
    now: Tick,
)
    requires
        trade_proposed(before, after, r, proposer_id, target_id, now),
        trade_request(before, proposer_id, target_id) is Ok,
        !before.teams@[trade_request(before, proposer_id, target_id)->Ok_0.3].has_peer,
    ensures
        after.teams == before.teams,
        ({
            let (i, pp, tp, ti) = trade_request(before, proposer_id, target_id)->Ok_0;
            r == Ok::<TradeOutcome, WorldError>(
                if before.players@[pp].bare_value >= before.players@[tp].bare_value {
                    TradeOutcome::Accepted
                } else {
                    TradeOutcome::Rejected
                },
            )
        }),
{
}

/// The positions of the own team and of `team_id`, or why the own team may
/// not challenge it.
pub open spec fn challenge_request(w: World, team_id: TeamId) -> Result<(int, int), WorldError> {
    let i = w.own_position();
    let ti = first_position(team_ids(w.teams@), team_id);
    if i < 0 || ti < 0 {
        Err(WorldError::EntityNotFound)
    } else {
        match challenge_check(w.teams@[i], w.teams@[ti]) {
            Err(e) => Err(e),
            Ok(_) => Ok((i, ti)),
        }
    }
}

/// What `propose_challenge` does: a networked team's challenge is recorded
/// among the own team's sent challenges; a local one is a game to play now,
/// the own team at home when `own_home`.
pub open spec fn challenge_proposed(
    before: World,
    after: World,
    r: Result<ChallengeOutcome, WorldError>,
    team_id: TeamId,
    now: Tick,
    own_home: bool,
) -> bool {
    match challenge_request(before, team_id) {
        Err(e) => r == Err::<ChallengeOutcome, WorldError>(e) && after == before,
        Ok((i, ti)) => {
            let own = before.teams@[i];
            if before.teams@[ti].has_peer {
                let p = Proposal::Challenge {
                    proposer_team_id: own.id,
                    target_team_id: team_id,
                    created: now,
                };
                match with_proposal(own.challenges.sent@, p) {
                    Err(e) => r == Err::<ChallengeOutcome, WorldError>(e) && after == before,
                    Ok(sent) => {
                        &&& r == Ok::<ChallengeOutcome, WorldError>(ChallengeOutcome::Sent(p))
                        &&& only_team_changed(before, after, i)
                        &&& same_but_challenges(after.teams@[i], own)
                        &&& after.teams@[i].challenges.sent@ == sent
                        &&& after.teams@[i].challenges.received@ == own.challenges.received@
                        &&& all_marked(after.flags)
                    },
                }
            } else {
                &&& r == Ok::<ChallengeOutcome, WorldError>(
                    if own_home {
                        ChallengeOutcome::Play { home_team_id: own.id, away_team_id: team_id }
                    } else {
                        ChallengeOutcome::Play { home_team_id: team_id, away_team_id: own.id }
                    },
                )
                &&& after == before
            }
        },
    }
}

/// Whether a proposal from a peer may be taken in: it must address the own
/// team, come from a known team, and pass the same checks as a proposal
/// made here. Gives the own team's position.
pub open spec fn receive_check(w: World, p: Proposal) -> Result<int, WorldError> {
    let i = w.own_position();
    let pt = first_position(team_ids(w.teams@), crate::negotiation::proposal_proposer_team(p));
    if i < 0 {
        Err(WorldError::EntityNotFound)
    } else if crate::negotiation::proposal_target_team(p) != w.own_team_id {
        Err(WorldError::TargetUnavailable)
    } else if pt < 0 {
        Err(WorldError::EntityNotFound)
    } else {
        match p {
            Proposal::Trade { proposer_player_id, target_player_id, .. } => {
                let pp = first_position(player_ids(w.players@), proposer_player_id);
                let tp = first_position(player_ids(w.players@), target_player_id);
                if pp < 0 || tp < 0 {
                    Err(WorldError::EntityNotFound)
                } else {
                    match trade_check(w.teams@[pt], w.players@[pp], w.players@[tp], w.teams@[i]) {
                        Err(e) => Err(e),
                        Ok(_) => Ok(i),
                    }
                }
            },
            Proposal::Challenge { .. } => match challenge_check(w.teams@[pt], w.teams@[i]) {
                Err(e) => Err(e),
                Ok(_) => Ok(i),
            },
        }
    }
}

/// What `receive_proposal` does: the proposal joins the own team's received
/// trades or challenges, unless one of its key is there.
pub open spec fn proposal_received(before: World, after: World, r: Result<(), WorldError>, p: Proposal) -> bool {
    match receive_check(before, p) {
        Err(e) => r == Err::<(), WorldError>(e) && after == before,
        Ok(i) => {
            let own = before.teams@[i];
            if p is Trade {
                match with_proposal(own.trades.received@, p) {
                    Err(e) => r == Err::<(), WorldError>(e) && after == before,
                    Ok(received) => {
                        &&& r is Ok
                        &&& only_team_changed(before, after, i)
                        &&& same_but_trades(after.teams@[i], own)
                        &&& after.teams@[i].trades.received@ == received
                        &&& after.teams@[i].trades.sent@ == own.trades.sent@
                        &&& all_marked(after.flags)
                    },
                }
            } else {
                match with_proposal(own.challenges.received@, p) {
                    Err(e) => r == Err::<(), WorldError>(e) && after == before,
                    Ok(received) => {
                        &&& r is Ok
                        &&& only_team_changed(before, after, i)
                        &&& same_but_challenges(after.teams@[i], own)
                        &&& after.teams@[i].challenges.received@ == received
                        &&& after.teams@[i].challenges.sent@ == own.challenges.sent@
                        &&& all_marked(after.flags)
                    },
                }
            }
        },
    }
}

/// The positions of the two players and of their teams for carrying out
/// the trade of `proposer_id` for `target_id` now, or why it no longer
/// holds.
pub open spec fn trade_acceptance(w: World, proposer_id: PlayerId, target_id: PlayerId) -> Result<
    (int, int, int, int),
    WorldError,
> {
    let pp = first_position(player_ids(w.players@), proposer_id);
    let tp = first_position(player_ids(w.players@), target_id);
    if pp < 0 || tp < 0 {
        Err(WorldError::EntityNotFound)
    } else {
        match (w.players@[pp].team, w.players@[tp].team) {
            (Some(a), Some(b)) => {
                let pt = first_position(team_ids(w.teams@), a);
                let tt = first_position(team_ids(w.teams@), b);
                if pt < 0 || tt < 0 {
                    Err(WorldError::EntityNotFound)
                } else if trade_check(w.teams@[pt], w.players@[pp], w.players@[tp], w.teams@[tt]) is Err {
                    Err(WorldError::StaleProposal)
                } else {
                    Ok((pp, tp, pt, tt))
                }
            },
            _ => Err(WorldError::StaleProposal),
        }
    }
}

/// What `resolve_trade` does: an outstanding trade of the own team (sent
/// or received) is closed on both of its lists; when accepted, and its
/// conditions still hold, the two players change teams.
pub open spec fn trade_resolved(
    before: World,
    after: World,
    r: Result<(), WorldError>,
    proposer_id: PlayerId,
    target_id: PlayerId,
    accept: bool,
) -> bool {
    let i = before.own_position();
    let k = ProposalKey::Trade { proposer_player_id: proposer_id, target_player_id: target_id };
    if i < 0 {
        r == Err::<(), WorldError>(WorldError::EntityNotFound) && after == before
    } else if !has_key(before.teams@[i].trades.sent@, k) && !has_key(
        before.teams@[i].trades.received@,
        k,
    ) {
        r == Err::<(), WorldError>(WorldError::StaleProposal) && after == before
    } else if accept && trade_acceptance(before, proposer_id, target_id) is Err {
        r == Err::<(), WorldError>(trade_acceptance(before, proposer_id, target_id)->Err_0) && after
            == before
    } else {
        let own = before.teams@[i];
        &&& r is Ok
        &&& after.teams@.len() == before.teams@.len()
        &&& forall|j: int|
            0 <= j < before.teams@.len() && j != i ==> after.teams@[j] == before.teams@[j]
        &&& same_but_trades(after.teams@[i], own)
        &&& after.teams@[i].trades.sent@ == without_key(own.trades.sent@, k)
        &&& after.teams@[i].trades.received@ == without_key(own.trades.received@, k)
        &&& after.players@ == (if accept {
            let (pp, tp, pt, tt) = trade_acceptance(before, proposer_id, target_id)->Ok_0;
            swapped(before.players@, pp, tp, before.teams@[pt].id, before.teams@[tt].id)
        } else {
            before.players@
        })
        &&& after.planets@ == before.planets@
        &&& after.own_team_id == before.own_team_id
        &&& after.last_tick_short_interval == before.last_tick_short_interval
        &&& after.last_tick_long_interval == before.last_tick_long_interval
        &&& all_marked(after.flags)
    }
}

/// What `resolve_challenge` does: an outstanding challenge of the own team
/// is closed on both of its lists; an acceptance is refused with
/// `StaleProposal` where the two teams could no longer play.
pub open spec fn challenge_resolved(
    before: World,
    after: World,
    r: Result<(), WorldError>,
    proposer_team_id: TeamId,
    target_team_id: TeamId,
    accept: bool,
) -> bool {
    let i = before.own_position();
    let k = ProposalKey::Challenge { proposer_team_id, target_team_id };
    let pt = first_position(team_ids(before.teams@), proposer_team_id);
    let tt = first_position(team_ids(before.teams@), target_team_id);
    if i < 0 {
        r == Err::<(), WorldError>(WorldError::EntityNotFound) && after == before
    } else if !has_key(before.teams@[i].challenges.sent@, k) && !has_key(
        before.teams@[i].challenges.received@,
        k,
    ) {
        r == Err::<(), WorldError>(WorldError::StaleProposal) && after == before
    } else if accept && (pt < 0 || tt < 0) {
        r == Err::<(), WorldError>(WorldError::EntityNotFound) && after == before
    } else if accept && challenge_check(before.teams@[pt], before.teams@[tt]) is Err {
        r == Err::<(), WorldError>(WorldError::StaleProposal) && after == before
    } else {
        let own = before.teams@[i];
        &&& r is Ok
        &&& only_team_changed(before, after, i)
        &&& same_but_challenges(after.teams@[i], own)
        &&& after.teams@[i].challenges.sent@ == without_key(own.challenges.sent@, k)
        &&& after.teams@[i].challenges.received@ == without_key(own.challenges.received@, k)
        &&& all_marked(after.flags)
    }
}

/// Whether a portal may lead a team at `location` to planet `p`: a
/// populated planet of no other peer, other than the ends of the trip (or
/// the planet explored). Teams standing still find no portal.
pub open spec fn portal_destination(p: Planet, location: TeamLocation) -> bool {
    &&& p.population > 0
    &&& !p.has_peer
    &&& match location {
        TeamLocation::Travelling { from, to, .. } => p.id != from && p.id != to,
        TeamLocation::Exploring { around, .. } => p.id != around,
        _ => false,
    }
}

/// The ids of the planets of `planets` that a portal may lead to from
/// `location`, in order.
pub open spec fn portal_destinations(planets: Seq<Planet>, location: TeamLocation) -> Seq<PlanetId>
    decreases planets.len(),
{
    if planets.len() == 0 {
        Seq::empty()
    } else {
        let rest = portal_destinations(planets.drop_last(), location);
        if portal_destination(planets.last(), location) {
            rest.push(planets.last().id)
        } else {
            rest
        }
    }
}

/// The ids of the teams of `teams` standing on `planet_id`, in order.
pub open spec fn teams_standing_on(teams: Seq<Team>, planet_id: PlanetId) -> Seq<TeamId>
    decreases teams.len(),
{
    if teams.len() == 0 {
        Seq::empty()
    } else {
        let rest = teams_standing_on(teams.drop_last(), planet_id);
        if teams.last().current_location == (TeamLocation::OnPlanet { planet_id }) {
            rest.push(teams.last().id)
        } else {
            rest
        }
    }
}

/// A team standing still has no portal destination.
proof fn lemma_portal_destinations_need_motion(planets: Seq<Planet>, location: TeamLocation)
    requires
        !(location is Travelling) && !(location is Exploring),
    ensures
        portal_destinations(planets, location).len() == 0,
    decreases planets.len(),
{
    if planets.len() > 0 {
        lemma_portal_destinations_need_motion(planets.drop_last(), location);
    }
}

/// The other team of a proposal, seen from team `own_id`.
pub open spec fn counterpart(p: Proposal, own_id: TeamId) -> TeamId {
    if crate::negotiation::proposal_proposer_team(p) == own_id {
        crate::negotiation::proposal_target_team(p)
    } else {
        crate::negotiation::proposal_proposer_team(p)
    }
}

/// Whether a proposal of `own` can still be answered in `w`: `own` stands
/// on a planet and the other team is known and stands on the same one.
pub open spec fn still_open(w: World, own: Team, p: Proposal) -> bool {
    let ti = first_position(team_ids(w.teams@), counterpart(p, own.id));
    &&& own.current_location is OnPlanet
    &&& ti >= 0
    &&& w.teams@[ti].current_location == own.current_location
}

/// The proposals of `s` still open in `w` for `own`, in order.
pub open spec fn open_proposals(w: World, own: Team, s: Seq<Proposal>) -> Seq<Proposal>
    decreases s.len(),
{
    if s.len() == 0 {
        s
    } else {
        let rest = open_proposals(w, own, s.drop_last());
        if still_open(w, own, s.last()) {
            rest.push(s.last())
        } else {
            rest
        }
    }
}

/// No two entries of `ids` are equal.
pub open spec fn ids_unique(ids: Seq<u128>) -> bool {
    forall|a: int, b: int| 0 <= a < ids.len() && 0 <= b < ids.len() && a != b ==> ids[a] != ids[b]
}

/// `after` holds the same teams, planets and players as `before`, by id and
/// in the same order.
pub open spec fn keeps_ids(before: World, after: World) -> bool {
    &&& team_ids(after.teams@) == team_ids(before.teams@)
    &&& planet_ids(after.planets@) == planet_ids(before.planets@)
    &&& player_ids(after.players@) == player_ids(before.players@)
}

/// The world: every team, planet and player, the clock's last passes, and
/// the change flags.
pub struct World {
    pub own_team_id: TeamId,
    pub teams: Vec<Team>,
    pub planets: Vec<Planet>,
    pub players: Vec<Player>,
    pub last_tick_short_interval: Tick,
    pub last_tick_long_interval: Tick,
    pub flags: SyncFlags,
}

impl Team {
    /// Checks a trade of `proposer` of this team for `target` of
    /// `target_team` (see `trade_check`).
    pub fn can_trade_players(&self, proposer: &Player, target: &Player, target_team: &Team) -> (r:
        Result<(), WorldError>)
        ensures
            r == trade_check(*self, *proposer, *target, *target_team),
    {
        if proposer.team != Some(self.id) || target.team != Some(target_team.id) || target_team.id
            == self.id {
            return Err(WorldError::NotTradable);
        }
        if self.current_game.is_some() || target_team.current_game.is_some() {
            return Err(WorldError::NotTradable);
        }
        if !self.current_location.is_on_planet() || self.current_location
            != target_team.current_location {
            return Err(WorldError::TargetUnavailable);
        }
        Ok(())
    }

    /// Checks a challenge of `team` by this team (see `challenge_check`).
    pub fn can_challenge_team(&self, team: &Team) -> (r: Result<(), WorldError>)
        ensures
            r == challenge_check(*self, *team),
    {
        if team.id == self.id {
            return Err(WorldError::TargetUnavailable);
        }
        if self.current_game.is_some() || team.current_game.is_some() {
            return Err(WorldError::TeamBusy);
        }
        if !self.current_location.is_on_planet() || self.current_location != team.current_location {
            return Err(WorldError::TargetUnavailable);
        }
        Ok(())
    }
}

impl World {
    /// Teams, planets and players each have distinct ids, as keys of a map
    /// would.
    pub open spec fn wf(self) -> bool {
        &&& ids_unique(team_ids(self.teams@))
        &&& ids_unique(planet_ids(self.planets@))
        &&& ids_unique(player_ids(self.players@))
    }

    pub open spec fn own_position(self) -> int {
        first_position(team_ids(self.teams@), self.own_team_id)
    }

    pub fn new(own_team_id: TeamId) -> (w: World)
        ensures
            w.own_team_id == own_team_id,
            w.teams@.len() == 0 && w.planets@.len() == 0 && w.players@.len() == 0,
            w.wf(),
            w.last_tick_short_interval == 0 && w.last_tick_long_interval == 0,
            !w.flags.dirty && !w.flags.dirty_ui && !w.flags.dirty_network,
    {
        World {
            own_team_id,
            teams: Vec::new(),
            planets: Vec::new(),
            players: Vec::new(),
            last_tick_short_interval: 0,
            last_tick_long_interval: 0,
            flags: SyncFlags::new(),
        }
    }

    /// Sends the own team from its planet to `planet_id`, a trip of
    /// `duration` ticks over `distance` starting at `now`.
    pub fn travel_to_planet(&mut self, planet_id: PlanetId, now: Tick, duration: Tick, distance: u128) -> (r:
        Result<(), WorldError>)
        ensures
            match travel_request_check(*old(self), planet_id, duration as nat) {
                Err(e) => r == Err::<(), WorldError>(e) && *final(self) == *old(self),
                Ok(_) => {
                    let i = old(self).own_position();
                    let before = old(self).teams@[i];
                    &&& r is Ok
                    &&& only_team_changed(*old(self), *final(self), i)
                    &&& departed(
                        before,
                        final(self).teams@[i],
                        TeamLocation::Travelling {
                            from: spec_location_planet(before.current_location),
                            to: planet_id,
                            started: now,
                            duration,
                            distance,
                        },
                        fuel_for(duration as nat, before.fuel_rate as nat),
                    )
                    &&& all_marked(final(self).flags)
                },
            },
            keeps_ids(*old(self), *final(self)),
            old(self).wf() ==> final(self).wf(),
    {
        let i = match self.find_team(self.own_team_id) {
            Some(i) => i,
            None => return Err(WorldError::EntityNotFound),
        };
        if self.find_planet(planet_id).is_none() {
            return Err(WorldError::EntityNotFound);
        }
        let checked = self.teams[i].can_travel_to_planet(planet_id, duration);
        if let Err(e) = checked {
            return Err(e);
        }
        let mut team = self.teams.remove(i);
        let _ = team.start_travel(planet_id, now, duration, distance);
        self.teams.insert(i, team);
        self.flags.mark_all();
        assert(self.teams@ =~= old(self).teams@.update(i as int, team));
        assert(team_ids(self.teams@) =~= team_ids(old(self).teams@));
        Ok(())
    }

    /// Sends the own team exploring around its planet for `duration` ticks
    /// starting at `now`.
    pub fn explore_around_planet(&mut self, now: Tick, duration: Tick) -> (r: Result<(), WorldError>)
        ensures
            match explore_request_check(*old(self), duration as nat) {
                Err(e) => r == Err::<(), WorldError>(e) && *final(self) == *old(self),
                Ok(_) => {
                    let i = old(self).own_position();
                    let before = old(self).teams@[i];
                    &&& r is Ok
                    &&& only_team_changed(*old(self), *final(self), i)
                    &&& departed(
                        before,
                        final(self).teams@[i],
                        TeamLocation::Exploring {
                            around: spec_location_planet(before.current_location),
                            started: now,
                            duration,
                        },
                        fuel_for(duration as nat, before.fuel_rate as nat),
                    )
                    &&& all_marked(final(self).flags)
                },
            },
            keeps_ids(*old(self), *final(self)),
            old(self).wf() ==> final(self).wf(),
    {
        let i = match self.find_team(self.own_team_id) {
            Some(i) => i,
            None => return Err(WorldError::EntityNotFound),
        };
        let around = self.teams[i].current_location.planet();
        if self.find_planet(around).is_none() {
            return Err(WorldError::EntityNotFound);
        }
        let checked = self.teams[i].can_explore_around_planet(duration);
        if let Err(e) = checked {
            return Err(e);
        }
        let mut team = self.teams.remove(i);
        let _ = team.start_exploring(now, duration);
        self.teams.insert(i, team);
        self.flags.mark_all();
        assert(self.teams@ =~= old(self).teams@.update(i as int, team));
        assert(team_ids(self.teams@) =~= team_ids(old(self).teams@));
        Ok(())
    }

    /// One pass of the clock at `now`: every trip or exploration that is
    /// due ends, once, and the arrivals are returned in team order, each
    /// marked as the end of an exploration or of a trip. The
    /// short-interval mark moves up to `now`.
    pub fn tick_travel(&mut self, now: Tick) -> (r: Vec<Arrival>)
        ensures
            r@ == due_arrivals(old(self).teams@, now as nat),
            final(self).teams@.len() == old(self).teams@.len(),
            forall|j: int|
                0 <= j < old(self).teams@.len() ==> location_resolved(
                    #[trigger] old(self).teams@[j],
                    final(self).teams@[j],
                    now as nat,
                ),
            final(self).own_team_id == old(self).own_team_id,
            final(self).planets@ == old(self).planets@,
            final(self).players@ == old(self).players@,
            final(self).last_tick_short_interval == (if now > old(self).last_tick_short_interval {
                now
            } else {
                old(self).last_tick_short_interval
            }),
            final(self).last_tick_long_interval == old(self).last_tick_long_interval,
            r@.len() > 0 ==> all_marked(final(self).flags),
            r@.len() == 0 ==> final(self).flags == old(self).flags,
            keeps_ids(*old(self), *final(self)),
            old(self).wf() ==> final(self).wf(),
    {
        let mut arrivals: Vec<Arrival> = Vec::new();
        let mut i: usize = 0;
        while i < self.teams.len()
            invariant
                i <= self.teams@.len(),
                self.teams@.len() == old(self).teams@.len(),
                forall|j: int|
                    0 <= j < i ==> location_resolved(
                        #[trigger] old(self).teams@[j],
                        self.teams@[j],
                        now as nat,
                    ),
                forall|j: int| i <= j < self.teams@.len() ==> self.teams@[j] == old(self).teams@[j],
                arrivals@ == due_arrivals(old(self).teams@.take(i as int), now as nat),
                self.own_team_id == old(self).own_team_id,
                self.planets@ == old(self).planets@,
                self.players@ == old(self).players@,
                self.last_tick_short_interval == old(self).last_tick_short_interval,
                self.last_tick_long_interval == old(self).last_tick_long_interval,
                self.flags == old(self).flags,
            decreases self.teams.len() - i,
        {
            let ghost prefix = old(self).teams@.take(i as int + 1);
            assert(prefix.drop_last() =~= old(self).teams@.take(i as int));
            assert(prefix.last() == old(self).teams@[i as int]);
            let mut team = self.teams.remove(i);
            let explored = match team.current_location {
                TeamLocation::Exploring { .. } => true,
                _ => false,
            };
            let arrival = team.resolve_location(now);
            if let Some(p) = arrival {
                arrivals.push(Arrival { team_id: team.id, planet_id: p, explored });
            }
            self.teams.insert(i, team);
            i += 1;
        }
        assert(old(self).teams@.take(i as int) =~= old(self).teams@);
        assert(team_ids(self.teams@) =~= team_ids(old(self).teams@));
        if now > self.last_tick_short_interval {
            self.last_tick_short_interval = now;
        }
        if arrivals.len() > 0 {
            self.flags.mark_all();
        }
        arrivals
    }

    /// Buys (`amount > 0`) or sells (`amount < 0`) goods for the own team at
    /// `unit_cost` satoshi a unit; all or nothing (see `market_trade`).
    pub fn trade_resource(&mut self, resource: Resource, amount: i32, unit_cost: u32) -> (r: Result<
        (),
        WorldError,
    >)
        ensures
            old(self).own_position() < 0 ==> r == Err::<(), WorldError>(WorldError::EntityNotFound)
                && *final(self) == *old(self),
            old(self).own_position() >= 0 ==> {
                let i = old(self).own_position();
                let before = old(self).teams@[i];
                match market_trade(before, resource, amount as int, unit_cost as nat) {
                    Err(e) => r == Err::<(), WorldError>(e) && *final(self) == *old(self),
                    Ok(m) => {
                        &&& r is Ok
                        &&& only_team_changed(*old(self), *final(self), i)
                        &&& final(self).teams@[i].resources@ == m
                        &&& final(self).teams@[i].current_location == before.current_location
                        &&& final(self).teams@[i].durability == before.durability
                        &&& crate::team::same_but_place_and_cargo(final(self).teams@[i], before)
                        &&& final(self).flags.dirty && final(self).flags.dirty_ui
                    },
                }
            },
            old(self).own_position() >= 0 && within_capacity(old(self).teams@[old(self).own_position()])
                ==> within_capacity(final(self).teams@[old(self).own_position()]),
            keeps_ids(*old(self), *final(self)),
            old(self).wf() ==> final(self).wf(),
    {
        let i = match self.find_team(self.own_team_id) {
            Some(i) => i,
            None => return Err(WorldError::EntityNotFound),
        };
        let mut hold = self.teams[i].resources;
        let _ = hold.value(&Resource::SATOSHI);
        if amount > 0 {
            let bought = amount as u32;
            let capacity = if resource == Resource::FUEL {
                let in_tank = hold.value(&Resource::FUEL);
                if in_tank as u64 + bought as u64 > self.teams[i].fuel_capacity as u64 {
                    return Err(WorldError::CapacityExceeded);
                }
                u32::MAX
            } else {
                self.teams[i].storage_capacity
            };
            let added = hold.add(resource, bought, capacity);
            if let Err(e) = added {
                return Err(e);
            }
            let cost = match unit_cost.checked_mul(bought) {
                Some(c) => c,
                None => {
                    let _ = hold.value(&Resource::SATOSHI);
                    return Err(WorldError::InsufficientResources);
                },
            };
            let paid = hold.sub(Resource::SATOSHI, cost);
            if let Err(e) = paid {
                return Err(e);
            }
        } else if amount < 0 {
            let sold: u32 = (-(amount as i64)) as u32;
            let removed = hold.sub(resource, sold);
            if let Err(e) = removed {
                return Err(e);
            }
            let proceeds = match unit_cost.checked_mul(sold) {
                Some(p) => p,
                None => {
                    let _ = hold.value(&Resource::SATOSHI);
                    return Err(WorldError::CapacityExceeded);
                },
            };
            let earned = hold.add(Resource::SATOSHI, proceeds, self.teams[i].storage_capacity);
            if let Err(e) = earned {
                return Err(e);
            }
        }
        proof {
            let before = old(self).teams@[i as int];
            if within_capacity(before) {
                lemma_market_trade_keeps_capacity(before, resource, amount as int, unit_cost as nat);
            }
        }
        let mut team = self.teams.remove(i);
        team.resources = hold;
        self.teams.insert(i, team);
        self.flags.dirty = true;
        self.flags.dirty_ui = true;
        assert(self.teams@ =~= old(self).teams@.update(i as int, team));
        assert(team_ids(self.teams@) =~= team_ids(old(self).teams@));
        Ok(())
    }

    /// Proposes to trade `proposer_id` of the own team for `target_id`
    /// (see `trade_proposed`).
    pub fn propose_trade(&mut self, proposer_id: PlayerId, target_id: PlayerId, now: Tick) -> (r:
        Result<TradeOutcome, WorldError>)
        ensures
            trade_proposed(*old(self), *final(self), r, proposer_id, target_id, now),
            keeps_ids(*old(self), *final(self)),
            old(self).wf() ==> final(self).wf(),
    {
        let i = match self.find_team(self.own_team_id) {
            Some(i) => i,
            None => return Err(WorldError::EntityNotFound),
        };
        let tp = match self.find_player(target_id) {
            Some(tp) => tp,
            None => return Err(WorldError::EntityNotFound),
        };
        let target_team_id = match self.players[tp].team {
            Some(t) => t,
            None => return Err(WorldError::NotTradable),
        };
        let ti = match self.find_team(target_team_id) {
            Some(ti) => ti,
            None => return Err(WorldError::EntityNotFound),
        };
        let pp = match self.find_player(proposer_id) {
            Some(pp) => pp,
            None => return Err(WorldError::EntityNotFound),
        };
        let checked = self.teams[i].can_trade_players(&self.players[pp], &self.players[tp], &self.teams[ti]);
        if let Err(e) = checked {
            return Err(e);
        }
        let own_id = self.teams[i].id;
        if self.teams[ti].has_peer {
            let p = Proposal::Trade {
                proposer_player_id: proposer_id,
                target_player_id: target_id,
                proposer_team_id: own_id,
                target_team_id,
                created: now,
            };
            if self.teams[i].trades.has_sent(p.key()) {
                return Err(WorldError::AlreadyProposed);
            }
            let mut team = self.teams.remove(i);
            let _ = team.trades.add_sent(p);
            self.teams.insert(i, team);
            self.flags.mark_all();
            assert(self.teams@ =~= old(self).teams@.update(i as int, team));
        assert(team_ids(self.teams@) =~= team_ids(old(self).teams@));
            return Ok(TradeOutcome::Sent(p));
        }
        if self.players[pp].bare_value >= self.players[tp].bare_value {
            self.swap_players_team(pp, tp, own_id, target_team_id);
            self.flags.mark_all();
            Ok(TradeOutcome::Accepted)
        } else {
            Ok(TradeOutcome::Rejected)
        }
    }

    /// Moves the player at `pp` to team `to_team` and the one at `tp` to
    /// team `from_team`.
    pub fn swap_players_team(&mut self, pp: usize, tp: usize, from_team: TeamId, to_team: TeamId)
        requires
            pp < old(self).players@.len(),
            tp < old(self).players@.len(),
        ensures
            final(self).players@ == swapped(old(self).players@, pp as int, tp as int, from_team, to_team),
            final(self).teams == old(self).teams,
            final(self).planets == old(self).planets,
            final(self).own_team_id == old(self).own_team_id,
            final(self).last_tick_short_interval == old(self).last_tick_short_interval,
            final(self).last_tick_long_interval == old(self).last_tick_long_interval,
            final(self).flags == old(self).flags,
            keeps_ids(*old(self), *final(self)),
            old(self).wf() ==> final(self).wf(),
    {
        let mut proposer = self.players[pp];
        proposer.team = Some(to_team);
        self.players.set(pp, proposer);
        let mut target = self.players[tp];
        target.team = Some(from_team);
        self.players.set(tp, target);
        assert(player_ids(self.players@) =~= player_ids(old(self).players@));
    }

    /// Challenges `team_id` (see `challenge_proposed`).
    pub fn propose_challenge(&mut self, team_id: TeamId, now: Tick, own_home: bool) -> (r: Result<
        ChallengeOutcome,
        WorldError,
    >)
        ensures
            challenge_proposed(*old(self), *final(self), r, team_id, now, own_home),
            keeps_ids(*old(self), *final(self)),
            old(self).wf() ==> final(self).wf(),
    {
        let i = match self.find_team(self.own_team_id) {
            Some(i) => i,
            None => return Err(WorldError::EntityNotFound),
        };
        let ti = match self.find_team(team_id) {
            Some(ti) => ti,
            None => return Err(WorldError::EntityNotFound),
        };
        let checked = self.teams[i].can_challenge_team(&self.teams[ti]);
        if let Err(e) = checked {
            return Err(e);
        }
        let own_id = self.teams[i].id;
        if self.teams[ti].has_peer {
            let p = Proposal::Challenge { proposer_team_id: own_id, target_team_id: team_id, created: now };
            if self.teams[i].challenges.has_sent(p.key()) {
                return Err(WorldError::AlreadyProposed);
            }
            let mut team = self.teams.remove(i);
            let _ = team.challenges.add_sent(p);
            self.teams.insert(i, team);
            self.flags.mark_all();
            assert(self.teams@ =~= old(self).teams@.update(i as int, team));
        assert(team_ids(self.teams@) =~= team_ids(old(self).teams@));
            return Ok(ChallengeOutcome::Sent(p));
        }
        if own_home {
            Ok(ChallengeOutcome::Play { home_team_id: own_id, away_team_id: team_id })
        } else {
            Ok(ChallengeOutcome::Play { home_team_id: team_id, away_team_id: own_id })
        }
    }

    /// Takes in a proposal that a peer sent to the own team (see
    /// `proposal_received`).
    pub fn receive_proposal(&mut self, p: Proposal) -> (r: Result<(), WorldError>)
        ensures
            proposal_received(*old(self), *final(self), r, p),
            keeps_ids(*old(self), *final(self)),
            old(self).wf() ==> final(self).wf(),
    {
        let i = match self.find_team(self.own_team_id) {
            Some(i) => i,
            None => return Err(WorldError::EntityNotFound),
        };
        if p.target_team_id() != self.own_team_id {
            return Err(WorldError::TargetUnavailable);
        }
        let pt = match self.find_team(p.proposer_team_id()) {
            Some(pt) => pt,
            None => return Err(WorldError::EntityNotFound),
        };
        let is_trade = match p {
            Proposal::Trade { proposer_player_id, target_player_id, .. } => {
                let pp = match self.find_player(proposer_player_id) {
                    Some(pp) => pp,
                    None => return Err(WorldError::EntityNotFound),
                };
                let tp = match self.find_player(target_player_id) {
                    Some(tp) => tp,
                    None => return Err(WorldError::EntityNotFound),
                };
                let checked = self.teams[pt].can_trade_players(
                    &self.players[pp],
                    &self.players[tp],
                    &self.teams[i],
                );
                if let Err(e) = checked {
                    return Err(e);
                }
                true
            },
            Proposal::Challenge { .. } => {
                let checked = self.teams[pt].can_challenge_team(&self.teams[i]);
                if let Err(e) = checked {
                    return Err(e);
                }
                false
            },
        };
        if is_trade {
            if self.teams[i].trades.has_received(p.key()) {
                return Err(WorldError::AlreadyProposed);
            }
            let mut team = self.teams.remove(i);
            let _ = team.trades.add_received(p);
            self.teams.insert(i, team);
            assert(self.teams@ =~= old(self).teams@.update(i as int, team));
        assert(team_ids(self.teams@) =~= team_ids(old(self).teams@));
        } else {
            if self.teams[i].challenges.has_received(p.key()) {
                return Err(WorldError::AlreadyProposed);
            }
            let mut team = self.teams.remove(i);
            let _ = team.challenges.add_received(p);
            self.teams.insert(i, team);
            assert(self.teams@ =~= old(self).teams@.update(i as int, team));
        assert(team_ids(self.teams@) =~= team_ids(old(self).teams@));
        }
        self.flags.mark_all();
        Ok(())
    }

    /// Accepts or declines an outstanding trade of the own team (see
    /// `trade_resolved`).
    pub fn resolve_trade(&mut self, proposer_id: PlayerId, target_id: PlayerId, accept: bool) -> (r:
        Result<(), WorldError>)
        ensures
            trade_resolved(*old(self), *final(self), r, proposer_id, target_id, accept),
            keeps_ids(*old(self), *final(self)),
            old(self).wf() ==> final(self).wf(),
    {
        let i = match self.find_team(self.own_team_id) {
            Some(i) => i,
            None => return Err(WorldError::EntityNotFound),
        };
        let k = ProposalKey::Trade { proposer_player_id: proposer_id, target_player_id: target_id };
        if !self.teams[i].trades.has_sent(k) && !self.teams[i].trades.has_received(k) {
            return Err(WorldError::StaleProposal);
        }
        if accept {
            let pp = match self.find_player(proposer_id) {
                Some(pp) => pp,
                None => return Err(WorldError::EntityNotFound),
            };
            let tp = match self.find_player(target_id) {
                Some(tp) => tp,
                None => return Err(WorldError::EntityNotFound),
            };
            let (a, b) = match (self.players[pp].team, self.players[tp].team) {
                (Some(a), Some(b)) => (a, b),
                _ => return Err(WorldError::StaleProposal),
            };
            let pt = match self.find_team(a) {
                Some(pt) => pt,
                None => return Err(WorldError::EntityNotFound),
            };
            let tt = match self.find_team(b) {
                Some(tt) => tt,
                None => return Err(WorldError::EntityNotFound),
            };
            let checked = self.teams[pt].can_trade_players(
                &self.players[pp],
                &self.players[tp],
                &self.teams[tt],
            );
            if checked.is_err() {
                return Err(WorldError::StaleProposal);
            }
            let from_team = self.teams[pt].id;
            let to_team = self.teams[tt].id;
            self.swap_players_team(pp, tp, from_team, to_team);
        }
        let ghost mid = self.teams@;
        let mut team = self.teams.remove(i);
        team.trades.remove(k);
        self.teams.insert(i, team);
        assert(self.teams@ =~= mid.update(i as int, team));
        assert(team_ids(self.teams@) =~= team_ids(old(self).teams@));
        self.flags.mark_all();
        Ok(())
    }

    /// Accepts or declines an outstanding challenge of the own team (see
    /// `challenge_resolved`). The game an acceptance calls for is set up
    /// by the caller.
    pub fn resolve_challenge(
        &mut self,
        proposer_team_id: TeamId,
        target_team_id: TeamId,
        accept: bool,
    ) -> (r: Result<(), WorldError>)
        ensures
            challenge_resolved(*old(self), *final(self), r, proposer_team_id, target_team_id, accept),
            keeps_ids(*old(self), *final(self)),
            old(self).wf() ==> final(self).wf(),
    {
        let i = match self.find_team(self.own_team_id) {
            Some(i) => i,
            None => return Err(WorldError::EntityNotFound),
        };
        let k = ProposalKey::Challenge { proposer_team_id, target_team_id };
        if !self.teams[i].challenges.has_sent(k) && !self.teams[i].challenges.has_received(k) {
            return Err(WorldError::StaleProposal);
        }
        if accept {
            let pt = match self.find_team(proposer_team_id) {
                Some(pt) => pt,
                None => return Err(WorldError::EntityNotFound),
            };
            let tt = match self.find_team(target_team_id) {
                Some(tt) => tt,
                None => return Err(WorldError::EntityNotFound),
            };
            let checked = self.teams[pt].can_challenge_team(&self.teams[tt]);
            if checked.is_err() {
                return Err(WorldError::StaleProposal);
            }
        }
        let mut team = self.teams.remove(i);
        team.challenges.remove(k);
        self.teams.insert(i, team);
        assert(self.teams@ =~= old(self).teams@.update(i as int, team));
        assert(team_ids(self.teams@) =~= team_ids(old(self).teams@));
        self.flags.mark_all();
        Ok(())
    }

    /// The planets a portal may lead a team at `location` to.
    pub fn portal_candidates(&self, location: &TeamLocation) -> (r: Vec<PlanetId>)
        ensures
            r@ == portal_destinations(self.planets@, *location),
    {
        let mut out: Vec<PlanetId> = Vec::new();
        let mut i: usize = 0;
        while i < self.planets.len()
            invariant
                i <= self.planets@.len(),
                out@ == portal_destinations(self.planets@.take(i as int), *location),
            decreases self.planets.len() - i,
        {
            let ghost prefix = self.planets@.take(i as int + 1);
            assert(prefix.drop_last() =~= self.planets@.take(i as int));
            let p = self.planets[i];
            let open = p.population > 0 && !p.has_peer && match *location {
                TeamLocation::Travelling { from, to, .. } => p.id != from && p.id != to,
                TeamLocation::Exploring { around, .. } => p.id != around,
                _ => false,
            };
            if open {
                out.push(p.id);
            }
            i += 1;
        }
        assert(self.planets@.take(i as int) =~= self.planets@);
        out
    }

    /// The teams standing on `planet_id`: the planet's roster, read off the
    /// teams' own locations so that it always agrees with them.
    pub fn teams_on_planet(&self, planet_id: PlanetId) -> (r: Vec<TeamId>)
        ensures
            r@ == teams_standing_on(self.teams@, planet_id),
    {
        let mut out: Vec<TeamId> = Vec::new();
        let mut i: usize = 0;
        while i < self.teams.len()
            invariant
                i <= self.teams@.len(),
                out@ == teams_standing_on(self.teams@.take(i as int), planet_id),
            decreases self.teams.len() - i,
        {
            let ghost prefix = self.teams@.take(i as int + 1);
            assert(prefix.drop_last() =~= self.teams@.take(i as int));
            if self.teams[i].current_location == (TeamLocation::OnPlanet { planet_id }) {
                out.push(self.teams[i].id);
            }
            i += 1;
        }
        assert(self.teams@.take(i as int) =~= self.teams@);
        out
    }

    /// Sends the own team, travelling or exploring, through a portal to
    /// `to`, which must be one of its portal destinations; no fuel is
    /// taken (see `Team::enter_portal`).
    pub fn send_through_portal(&mut self, to: PlanetId, now: Tick, distance: u128) -> (r: Result<
        (),
        WorldError,
    >)
        ensures
            old(self).own_position() < 0 ==> r == Err::<(), WorldError>(WorldError::EntityNotFound)
                && *final(self) == *old(self),
            old(self).own_position() >= 0 ==> {
                let i = old(self).own_position();
                let before = old(self).teams@[i];
                if portal_destinations(old(self).planets@, before.current_location).contains(to) {
                    &&& r is Ok
                    &&& only_team_changed(*old(self), *final(self), i)
                    &&& final(self).teams@[i].current_location == (TeamLocation::Travelling {
                        from: match before.current_location {
                            TeamLocation::Travelling { from, .. } => from,
                            TeamLocation::Exploring { around, .. } => around,
                            _ => before.home_planet_id,
                        },
                        to,
                        started: now,
                        duration: crate::team::PORTAL_TRAVEL_DURATION,
                        distance,
                    })
                    &&& crate::team::same_but_place(final(self).teams@[i], before)
                    &&& all_marked(final(self).flags)
                } else {
                    r == Err::<(), WorldError>(WorldError::InvalidStateTransition) && *final(self)
                        == *old(self)
                }
            },
            keeps_ids(*old(self), *final(self)),
            old(self).wf() ==> final(self).wf(),
    {
        let i = match self.find_team(self.own_team_id) {
            Some(i) => i,
            None => return Err(WorldError::EntityNotFound),
        };
        let location = self.teams[i].current_location;
        let candidates = self.portal_candidates(&location);
        let mut found = false;
        let mut j: usize = 0;
        while j < candidates.len()
            invariant
                j <= candidates@.len(),
                found == exists|k: int| 0 <= k < j && candidates@[k] == to,
            decreases candidates.len() - j,
        {
            if candidates[j] == to {
                found = true;
            }
            j += 1;
        }
        if !found {
            return Err(WorldError::InvalidStateTransition);
        }
        proof {
            if !(location is Travelling) && !(location is Exploring) {
                lemma_portal_destinations_need_motion(self.planets@, location);
            }
        }
        let mut team = self.teams.remove(i);
        let _ = team.enter_portal(to, now, distance);
        self.teams.insert(i, team);
        assert(self.teams@ =~= old(self).teams@.update(i as int, team));
        assert(team_ids(self.teams@) =~= team_ids(old(self).teams@));
        self.flags.mark_all();
        Ok(())
    }

    /// Records a pass of the long-interval effects at `now`; the mark never
    /// moves back.
    pub fn mark_long_interval(&mut self, now: Tick)
        ensures
            final(self).last_tick_long_interval == (if now > old(self).last_tick_long_interval {
                now
            } else {
                old(self).last_tick_long_interval
            }),
            final(self).teams == old(self).teams,
            final(self).planets == old(self).planets,
            final(self).players == old(self).players,
            final(self).own_team_id == old(self).own_team_id,
            final(self).last_tick_short_interval == old(self).last_tick_short_interval,
            final(self).flags == old(self).flags,
            keeps_ids(*old(self), *final(self)),
            old(self).wf() ==> final(self).wf(),
    {
        if now > self.last_tick_long_interval {
            self.last_tick_long_interval = now;
        }
    }

    fn keep_open(&self, i: usize, s: &Vec<Proposal>) -> (r: Vec<Proposal>)
        requires
            i < self.teams@.len(),
        ensures
            r@ == open_proposals(*self, self.teams@[i as int], s@),
    {
        let own = &self.teams[i];
        let mut out: Vec<Proposal> = Vec::new();
        let mut j: usize = 0;
        while j < s.len()
            invariant
                i < self.teams@.len(),
                own == self.teams@[i as int],
                j <= s@.len(),
                out@ == open_proposals(*self, *own, s@.take(j as int)),
            decreases s.len() - j,
        {
            let ghost prefix = s@.take(j as int + 1);
            assert(prefix.drop_last() =~= s@.take(j as int));
            let p = s[j];
            let other = if p.proposer_team_id() == own.id {
                p.target_team_id()
            } else {
                p.proposer_team_id()
            };
            let open = own.current_location.is_on_planet() && match self.find_team(other) {
                Some(ti) => self.teams[ti].current_location == own.current_location,
                None => false,
            };
            if open {
                out.push(p);
            }
            j += 1;
        }
        assert(s@.take(j as int) =~= s@);
        out
    }

    /// Drops the own team's proposals, sent or received, that can no longer
    /// be answered because the other team left the own team's planet, or
    /// the own team left it (see `still_open`).
    pub fn prune_stale_proposals(&mut self) -> (r: Result<(), WorldError>)
        ensures
            old(self).own_position() < 0 ==> r == Err::<(), WorldError>(WorldError::EntityNotFound)
                && *final(self) == *old(self),
            old(self).own_position() >= 0 ==> {
                let i = old(self).own_position();
                let own = old(self).teams@[i];
                &&& r is Ok
                &&& only_team_changed(*old(self), *final(self), i)
                &&& same_but_negotiations(final(self).teams@[i], own)
                &&& final(self).teams@[i].trades.sent@ == open_proposals(*old(self), own, own.trades.sent@)
                &&& final(self).teams@[i].trades.received@ == open_proposals(
                    *old(self),
                    own,
                    own.trades.received@,
                )
                &&& final(self).teams@[i].challenges.sent@ == open_proposals(
                    *old(self),
                    own,
                    own.challenges.sent@,
                )
                &&& final(self).teams@[i].challenges.received@ == open_proposals(
                    *old(self),
                    own,
                    own.challenges.received@,
                )
                &&& {
                    let t = final(self).teams@[i];
                    let changed = t.trades.sent@.len() != own.trades.sent@.len()
                        || t.trades.received@.len() != own.trades.received@.len()
                        || t.challenges.sent@.len() != own.challenges.sent@.len()
                        || t.challenges.received@.len() != own.challenges.received@.len();
                    &&& changed ==> all_marked(final(self).flags)
                    &&& !changed ==> final(self).flags == old(self).flags
                }
            },
            keeps_ids(*old(self), *final(self)),
            old(self).wf() ==> final(self).wf(),
    {
        let i = match self.find_team(self.own_team_id) {
            Some(i) => i,
            None => return Err(WorldError::EntityNotFound),
        };
        let trades_sent = self.keep_open(i, &self.teams[i].trades.sent);
        let trades_received = self.keep_open(i, &self.teams[i].trades.received);
        let challenges_sent = self.keep_open(i, &self.teams[i].challenges.sent);
        let challenges_received = self.keep_open(i, &self.teams[i].challenges.received);
        let changed = trades_sent.len() != self.teams[i].trades.sent.len()
            || trades_received.len() != self.teams[i].trades.received.len()
            || challenges_sent.len() != self.teams[i].challenges.sent.len()
            || challenges_received.len() != self.teams[i].challenges.received.len();
        let mut team = self.teams.remove(i);
        team.trades.sent = trades_sent;
        team.trades.received = trades_received;
        team.challenges.sent = challenges_sent;
        team.challenges.received = challenges_received;
        self.teams.insert(i, team);
        assert(self.teams@ =~= old(self).teams@.update(i as int, team));
        assert(team_ids(self.teams@) =~= team_ids(old(self).teams@));
        if changed {
            self.flags.mark_all();
        }
        Ok(())
    }

    /// Sends the own team on a space adventure around its planet (see
    /// `adventure_started`).
    pub fn start_space_adventure(&mut self) -> (r: Result<(), WorldError>)
        ensures
            old(self).own_position() < 0 ==> r == Err::<(), WorldError>(WorldError::EntityNotFound)
                && *final(self) == *old(self),
            old(self).own_position() >= 0 ==> {
                let i = old(self).own_position();
                &&& adventure_started(old(self).teams@[i], final(self).teams@[i], r)
                &&& r is Ok ==> only_team_changed(*old(self), *final(self), i) && all_marked(
                    final(self).flags,
                )
                &&& r is Err ==> *final(self) == *old(self)
            },
            keeps_ids(*old(self), *final(self)),
            old(self).wf() ==> final(self).wf(),
    {
        let i = match self.find_team(self.own_team_id) {
            Some(i) => i,
            None => return Err(WorldError::EntityNotFound),
        };
        if !self.teams[i].current_location.is_on_planet() {
            return Err(WorldError::TeamBusy);
        }
        let mut team = self.teams.remove(i);
        let r = team.start_space_adventure();
        self.teams.insert(i, team);
        assert(self.teams@ =~= old(self).teams@.update(i as int, team));
        assert(team_ids(self.teams@) =~= team_ids(old(self).teams@));
        self.flags.mark_all();
        r
    }

    /// Brings the own team back from its space adventure with what the
    /// adventure ended with (see `adventure_ended`).
    pub fn return_from_space_adventure(
        &mut self,
        harvested: ResourceMap,
        fuel: u32,
        durability: u32,
    ) -> (r: Result<(), WorldError>)
        ensures
            old(self).own_position() < 0 ==> r == Err::<(), WorldError>(WorldError::EntityNotFound)
                && *final(self) == *old(self),
            old(self).own_position() >= 0 ==> {
                let i = old(self).own_position();
                &&& adventure_ended(
                    old(self).teams@[i],
                    final(self).teams@[i],
                    r,
                    harvested@,
                    fuel as nat,
                    durability as nat,
                )
                &&& r is Ok ==> only_team_changed(*old(self), *final(self), i) && all_marked(
                    final(self).flags,
                )
                &&& r is Err ==> *final(self) == *old(self)
            },
            old(self).own_position() >= 0 && r is Ok ==> within_capacity(
                final(self).teams@[old(self).own_position()],
            ),
            keeps_ids(*old(self), *final(self)),
            old(self).wf() ==> final(self).wf(),
    {
        let i = match self.find_team(self.own_team_id) {
            Some(i) => i,
            None => return Err(WorldError::EntityNotFound),
        };
        match self.teams[i].current_location {
            TeamLocation::OnSpaceAdventure { .. } => {},
            _ => return Err(WorldError::InvalidStateTransition),
        }
        let mut team = self.teams.remove(i);
        let r = team.return_from_space_adventure(harvested, fuel, durability);
        self.teams.insert(i, team);
        assert(self.teams@ =~= old(self).teams@.update(i as int, team));
        assert(team_ids(self.teams@) =~= team_ids(old(self).teams@));
        self.flags.mark_all();
        r
    }

    /// The position of the first team with `id`.
    pub fn find_team(&self, id: TeamId) -> (r: Option<usize>)
        ensures
            match r {
                Some(i) => i < self.teams@.len() && self.teams@[i as int].id == id && i as int
                    == first_position(team_ids(self.teams@), id),
                None => first_position(team_ids(self.teams@), id) == -1,
            },
    {
        let mut i: usize = 0;
        while i < self.teams.len()
            invariant
                i <= self.teams@.len(),
                forall|j: int| 0 <= j < i ==> #[trigger] team_ids(self.teams@)[j] != id,
            decreases self.teams.len() - i,
        {
            if self.teams[i].id == id {
                proof {
                    lemma_first_position(team_ids(self.teams@), id, i as int);
                }
                return Some(i);
            }
            i += 1;
        }
        proof {
            lemma_first_position(team_ids(self.teams@), id, i as int);
        }
        None
    }

    /// The position of the first planet with `id`.
    pub fn find_planet(&self, id: PlanetId) -> (r: Option<usize>)
        ensures
            match r {
                Some(i) => i < self.planets@.len() && self.planets@[i as int].id == id && i as int
                    == first_position(planet_ids(self.planets@), id),
                None => first_position(planet_ids(self.planets@), id) == -1,
            },
    {
        let mut i: usize = 0;
        while i < self.planets.len()
            invariant
                i <= self.planets@.len(),
                forall|j: int| 0 <= j < i ==> #[trigger] planet_ids(self.planets@)[j] != id,
            decreases self.planets.len() - i,
        {
            if self.planets[i].id == id {
                proof {
                    lemma_first_position(planet_ids(self.planets@), id, i as int);
                }
                return Some(i);
            }
            i += 1;
        }
        proof {
            lemma_first_position(planet_ids(self.planets@), id, i as int);
        }
        None
    }

    /// The position of the first player with `id`.
    pub fn find_player(&self, id: PlayerId) -> (r: Option<usize>)
        ensures
            match r {
                Some(i) => i < self.players@.len() && self.players@[i as int].id == id && i as int
                    == first_position(player_ids(self.players@), id),
                None => first_position(player_ids(self.players@), id) == -1,
            },
    {
        let mut i: usize = 0;
        while i < self.players.len()
            invariant
                i <= self.players@.len(),
                forall|j: int| 0 <= j < i ==> #[trigger] player_ids(self.players@)[j] != id,
            decreases self.players.len() - i,
        {
            if self.players[i].id == id {
                proof {
                    lemma_first_position(player_ids(self.players@), id, i as int);
                }
                return Some(i);
            }
            i += 1;
        }
        proof {
            lemma_first_position(player_ids(self.players@), id, i as int);
        }
        None
    }
}

} // verus!
