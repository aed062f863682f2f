use fpl::requests::{
    FixtureRequest, GameStateRequest, GameWeekPlayersRequest, GameWeekPlayersStatsRequest, MiniLeagueRequest,
    PlayerPhotoRequest, PlayerRequest, TeamGameWeekRequest, TeamRequest, TransfersRequest,
};
use fpl::types::{GameWeek, LeagueId, PlayerId, TeamId};

const BASE: &str = "https://fantasy.premierleague.com/api";

#[test]
fn team_request_url() {
    let request = TeamRequest::new(TeamId::new(1871038));
    assert_eq!(request.to_url(BASE), "https://fantasy.premierleague.com/api/entry/1871038/");
}

#[test]
fn team_game_week_request_url() {
    let game_week = GameWeek::new(23).expect("GameWeek 22 should be valid");
    let request = TeamGameWeekRequest::new(TeamId::new(1871038), game_week);
    assert_eq!(request.to_url(BASE), "https://fantasy.premierleague.com/api/entry/1871038/event/23/picks/");
}

#[test]
fn mini_league_request_url() {
    let request = MiniLeagueRequest::new(LeagueId::new(577969), 1);
    assert_eq!(
        request.to_url(BASE),
        "https://fantasy.premierleague.com/api/leagues-classic/577969/standings/?page_standings=1"
    );
}

#[test]
fn player_request_url() {
    let request = PlayerRequest::new(PlayerId::new(180));
    assert_eq!(request.to_url(BASE), "https://fantasy.premierleague.com/api/element-summary/180/");
}

#[test]
fn fixture_request_url() {
    assert_eq!(FixtureRequest::new().to_url(BASE), "https://fantasy.premierleague.com/api/fixtures/");
}

#[test]
fn game_week_players_request_url() {
    let game_week = GameWeek::new(24).expect("GameWeek 20 should be valid.");
    assert_eq!(
        GameWeekPlayersRequest::new(game_week).to_url(BASE),
        "https://fantasy.premierleague.com/api/event/24/live/"
    );
    assert_eq!(
        GameWeekPlayersStatsRequest::new(game_week).to_url(BASE),
        "https://fantasy.premierleague.com/api/event/24/live/"
    );
}

#[test]
fn transfers_request_url() {
    let request = TransfersRequest::new(TeamId::new(1871038));
    assert_eq!(request.to_url(BASE), "https://fantasy.premierleague.com/api/entry/1871038/transfers");
}

#[test]
fn game_state_request_url() {
    assert_eq!(GameStateRequest::default().to_url(BASE), "https://fantasy.premierleague.com/api/bootstrap-static/");
}

#[test]
fn player_photos_are_binary_and_ignore_the_base() {
    let request = PlayerPhotoRequest::new(223340, "photos/p223340.png".to_string());
    assert!(request.is_binary());
    assert_eq!(
        request.to_url(BASE),
        "https://resources.premierleague.com/premierleague/photos/players/250x250/p223340.png"
    );
}
