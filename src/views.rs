use crate::team::{spec_location_planet, Team, TeamLocation};
use crate::world::{first_position, team_ids, Player, PlayerLocation, World};
use vstd::prelude::*;
use vstd::string::StringExecFns;

verus! {

/// The tabs of the own team's panel.
#[derive(Debug, Clone, Copy, PartialEq, Eq, Structural)]
pub enum MyTeamView {
    Info,
    Games,
    Market,
}

impl MyTeamView {
    /// The next tab, wrapping around.
    pub fn next(&self) -> (r: MyTeamView)
        ensures
            r == (match *self {
                MyTeamView::Info => MyTeamView::Games,
                MyTeamView::Games => MyTeamView::Market,
                MyTeamView::Market => MyTeamView::Info,
            }),
    {
        match self {
            MyTeamView::Info => MyTeamView::Games,
            MyTeamView::Games => MyTeamView::Market,
            MyTeamView::Market => MyTeamView::Info,
        }
    }
}

/// The filters of the players' panel.
#[derive(Debug, Clone, Copy, PartialEq, Eq, Structural)]
pub enum PlayerView {
    All,
    FreePirates,
    Tradable,
    OwnTeam,
}

pub open spec fn player_view_label(v: PlayerView) -> Seq<char> {
    match v {
        PlayerView::All => "All"@,
        PlayerView::FreePirates => "Free pirates"@,
        PlayerView::Tradable => "Open for trade"@,
        PlayerView::OwnTeam => "Own team"@,
    }
}

/// Whether `player` passes filter `view` in world `w`, as seen by the own
/// team: free pirates on the planet the own team is at (or bound for, or
/// circling); players of other teams standing on the own team's planet;
/// the own team's players; or everyone. Nobody passes when the own team is
/// unknown.
pub open spec fn player_view_rule(view: PlayerView, player: Player, w: World) -> bool {
    let i = w.own_position();
    if i < 0 {
        false
    } else {
        let own: Team = w.teams@[i];
        match view {
            PlayerView::All => true,
            PlayerView::FreePirates => player.team is None && match player.current_location {
                PlayerLocation::OnPlanet { planet_id } => planet_id == spec_location_planet(
                    own.current_location,
                ),
                PlayerLocation::WithTeam => false,
            },
            PlayerView::Tradable => match (own.current_location, player.team) {
                (TeamLocation::OnPlanet { planet_id }, Some(t)) => {
                    let ti = first_position(team_ids(w.teams@), t);
                    t != own.id && ti >= 0 && w.teams@[ti].current_location == (TeamLocation::OnPlanet {
                        planet_id,
                    })
                },
                _ => false,
            },
            PlayerView::OwnTeam => player.team == Some(own.id),
        }
    }
}

impl PlayerView {
    /// The next filter, wrapping around.
    pub fn next(&self) -> (r: PlayerView)
        ensures
            r == (match *self {
                PlayerView::All => PlayerView::FreePirates,
                PlayerView::FreePirates => PlayerView::Tradable,
                PlayerView::Tradable => PlayerView::OwnTeam,
                PlayerView::OwnTeam => PlayerView::All,
            }),
    {
        match self {
            PlayerView::All => PlayerView::FreePirates,
            PlayerView::FreePirates => PlayerView::Tradable,
            PlayerView::Tradable => PlayerView::OwnTeam,
            PlayerView::OwnTeam => PlayerView::All,
        }
    }

    /// Whether `player` passes this filter (see `player_view_rule`).
    pub fn rule(&self, player: &Player, world: &World) -> (r: bool)
        ensures
            r == player_view_rule(*self, *player, *world),
    {
        let i = match world.find_team(world.own_team_id) {
            Some(i) => i,
            None => return false,
        };
        let own = &world.teams[i];
        match self {
            PlayerView::All => true,
            PlayerView::FreePirates => {
                if player.team.is_some() {
                    return false;
                }
                match player.current_location {
                    PlayerLocation::OnPlanet { planet_id } => planet_id == own.current_location.planet(),
                    PlayerLocation::WithTeam => false,
                }
            },
            PlayerView::Tradable => {
                let own_planet_id = match own.current_location {
                    TeamLocation::OnPlanet { planet_id } => planet_id,
                    _ => return false,
                };
                let t = match player.team {
                    Some(t) => t,
                    None => return false,
                };
                if t == own.id {
                    return false;
                }
                match world.find_team(t) {
                    Some(ti) => match world.teams[ti].current_location {
                        TeamLocation::OnPlanet { planet_id } => planet_id == own_planet_id,
                        _ => false,
                    },
                    None => false,
                }
            },
            PlayerView::OwnTeam => player.team == Some(own.id),
        }
    }

    /// The filter's label.
    pub fn to_string(&self) -> (r: String)
        ensures
            r@ == player_view_label(*self),
    {
        match self {
            PlayerView::All => String::from_str("All"),
            PlayerView::FreePirates => String::from_str("Free pirates"),
            PlayerView::Tradable => String::from_str("Open for trade"),
            PlayerView::OwnTeam => String::from_str("Own team"),
        }
    }
}

} // verus!
