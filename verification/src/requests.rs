//! The requests the client sends to the FPL API and the URLs they are sent to.
use crate::text::{decimal, push_decimal};
use crate::types::{GameWeek, LeagueId, PlayerId, TeamId};
use vstd::prelude::*;

verus! {

/// All fixtures of the season.
#[derive(Debug)]
pub struct FixtureRequest {}

impl FixtureRequest {
    pub fn new() -> Self {
        Self {}
    }

    pub fn to_url(&self, base_url: &str) -> (url: String)
        ensures
            url@ == base_url@ + "/fixtures/"@,
    {
        let mut url = base_url.to_owned();
        url.append("/fixtures/");
        url
    }
}

impl Default for FixtureRequest {
    fn default() -> Self {
        Self::new()
    }
}

/// The overview of the season: clubs, players and game weeks.
#[derive(Debug, Default)]
pub struct GameStateRequest {}

impl GameStateRequest {
    pub fn to_url(&self, base_url: &str) -> (url: String)
        ensures
            url@ == base_url@ + "/bootstrap-static/"@,
    {
        let mut url = base_url.to_owned();
        url.append("/bootstrap-static/");
        url
    }
}

/// The live points of every player in a game week.
#[derive(Debug)]
pub struct GameWeekPlayersRequest {
    pub game_week: GameWeek,
}

/// The URL of a game week's live data.
pub open spec fn live_url(base_url: Seq<char>, game_week: GameWeek) -> Seq<char> {
    base_url + "/event/"@ + decimal(game_week.spec_value() as int) + "/live/"@
}

fn live_url_string(base_url: &str, game_week: &GameWeek) -> (url: String)
    ensures
        url@ == live_url(base_url@, *game_week),
{
    let mut url = base_url.to_owned();
    url.append("/event/");
    push_decimal(&mut url, **game_week as i64);
    url.append("/live/");
    url
}

impl GameWeekPlayersRequest {
    pub fn new(game_week: GameWeek) -> (r: Self)
        ensures
            r.game_week == game_week,
    {
        Self { game_week }
    }

    pub fn to_url(&self, base_url: &str) -> (url: String)
        ensures
            url@ == live_url(base_url@, self.game_week),
    {
        live_url_string(base_url, &self.game_week)
    }
}

/// The statistics of every player in a game week.
pub struct GameWeekPlayersStatsRequest {
    pub game_week: GameWeek,
}

impl GameWeekPlayersStatsRequest {
    pub fn new(game_week: GameWeek) -> (r: Self)
        ensures
            r.game_week == game_week,
    {
        Self { game_week }
    }

    pub fn to_url(&self, base_url: &str) -> (url: String)
        ensures
            url@ == live_url(base_url@, self.game_week),
    {
        live_url_string(base_url, &self.game_week)
    }
}

/// One page of the standings of a classic mini league.
#[derive(Debug)]
pub struct MiniLeagueRequest {
    pub league_id: LeagueId,
    pub page: u8,
}

impl MiniLeagueRequest {
    pub fn new(league_id: LeagueId, page: u8) -> (r: Self)
        ensures
            r.league_id == league_id,
            r.page == page,
    {
        Self { league_id, page }
    }

    pub fn to_url(&self, base_url: &str) -> (url: String)
        ensures
            url@ == base_url@ + "/leagues-classic/"@ + decimal(self.league_id.0 as int)
                + "/standings/?page_standings="@ + decimal(self.page as int),
    {
        let mut url = base_url.to_owned();
        url.append("/leagues-classic/");
        push_decimal(&mut url, self.league_id.0 as i64);
        url.append("/standings/?page_standings=");
        push_decimal(&mut url, self.page as i64);
        url
    }
}

/// A player's fixtures and history.
#[derive(Debug)]
pub struct PlayerRequest {
    pub player_id: PlayerId,
}

impl PlayerRequest {
    pub fn new(player_id: PlayerId) -> (r: Self)
        ensures
            r.player_id == player_id,
    {
        Self { player_id }
    }

    pub fn to_url(&self, base_url: &str) -> (url: String)
        ensures
            url@ == base_url@ + "/element-summary/"@ + decimal(self.player_id.0 as int) + "/"@,
    {
        let mut url = base_url.to_owned();
        url.append("/element-summary/");
        push_decimal(&mut url, self.player_id.0 as i64);
        url.append("/");
        url
    }
}

/// A player's photo, to be saved at `output_path`.
#[derive(Debug)]
pub struct PlayerPhotoRequest {
    pub player_code: u32,
    pub output_path: String,
}

impl PlayerPhotoRequest {
    pub fn new(player_code: u32, output_path: String) -> (r: Self)
        ensures
            r.player_code == player_code,
            r.output_path == output_path,
    {
        Self { player_code, output_path }
    }

    /// Photos are served from the club site, not from the API, so the base URL is not used.
    pub fn to_url(&self, _base_url: &str) -> (url: String)
        ensures
            url@ == "https://resources.premierleague.com/premierleague/photos/players/250x250/p"@
                + decimal(self.player_code as int) + ".png"@,
    {
        let mut url = String::from_str(
            "https://resources.premierleague.com/premierleague/photos/players/250x250/p",
        );
        push_decimal(&mut url, self.player_code as i64);
        url.append(".png");
        url
    }

    /// The photo comes back as bytes, not JSON.
    pub fn is_binary(&self) -> (b: bool)
        ensures
            b,
    {
        true
    }
}

/// A manager's team.
#[derive(Debug)]
pub struct TeamRequest {
    pub team_id: TeamId,
}

impl TeamRequest {
    pub fn new(team_id: TeamId) -> (r: Self)
        ensures
            r.team_id == team_id,
    {
        Self { team_id }
    }

    pub fn to_url(&self, base_url: &str) -> (url: String)
        ensures
            url@ == base_url@ + "/entry/"@ + decimal(self.team_id.0 as int) + "/"@,
    {
        let mut url = base_url.to_owned();
        url.append("/entry/");
        push_decimal(&mut url, self.team_id.0 as i64);
        url.append("/");
        url
    }
}

/// A manager's picks in a game week.
#[derive(Debug)]
pub struct TeamGameWeekRequest {
    pub team_id: TeamId,
    pub game_week: GameWeek,
}

impl TeamGameWeekRequest {
    pub fn new(team_id: TeamId, game_week: GameWeek) -> (r: Self)
        ensures
            r.team_id == team_id,
            r.game_week == game_week,
    {
        Self { team_id, game_week }
    }

    pub fn to_url(&self, base_url: &str) -> (url: String)
        ensures
            url@ == base_url@ + "/entry/"@ + decimal(self.team_id.0 as int) + "/event/"@
                + decimal(self.game_week.spec_value() as int) + "/picks/"@,
    {
        let mut url = base_url.to_owned();
        url.append("/entry/");
        push_decimal(&mut url, self.team_id.0 as i64);
        url.append("/event/");
        push_decimal(&mut url, *self.game_week as i64);
        url.append("/picks/");
        url
    }
}

/// A manager's transfers over the season.
#[derive(Debug)]
pub struct TransfersRequest {
    team_id: TeamId,
}

impl TransfersRequest {
    pub fn new(team_id: TeamId) -> (r: Self)
        ensures
            r.spec_team_id() == team_id,
    {
        Self { team_id }
    }

    /// The team whose transfers are requested.
    pub closed spec fn spec_team_id(&self) -> TeamId {
        self.team_id
    }

    pub fn to_url(&self, base_url: &str) -> (url: String)
        ensures
            url@ == base_url@ + "/entry/"@ + decimal(self.spec_team_id().0 as int) + "/transfers"@,
    {
        let mut url = base_url.to_owned();
        url.append("/entry/");
        push_decimal(&mut url, self.team_id.0 as i64);
        url.append("/transfers");
        url
    }
}

} // verus!
