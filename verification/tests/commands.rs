use fpl::commands::user_hits_in_range;
use fpl::commands::captains::get_captain_rows;
use fpl::commands::deadline::{deadline_game_week, deadline_row, get_deadline_rows};
use fpl::commands::register::{followed_league_ids, next_standings_page};
use fpl::commands::{
    build_table_data, get_league_chip_rows, get_league_hit_rows, get_user_chip_rows, get_user_hit_rows,
    get_whohas_club_rows, get_whohas_player_rows, LivePoints,
};
use fpl::responses::ClassicLeague;
use fpl::types::{GameWeek, LeagueId, PlayerId, TeamId};

fn s(x: &str) -> String {
    x.to_string()
}

#[test]
fn user_hits_list_weeks_and_total() {
    let rows = get_user_hit_rows(&vec![(3, 4), (10, 8)]);
    assert_eq!(
        rows,
        vec![
            s("**__Hits__**\n"),
            s("**GW3** - 1"),
            s("**GW10** - 2"),
            s("\n**Total:** 3 (-12 points)"),
        ]
    );
    assert_eq!(get_user_hit_rows(&vec![]), vec![s("Has not taken a hit")]);
}

#[test]
fn league_hits_are_grouped_by_week_earliest_first() {
    let hits = vec![
        (12, s("Ann"), s("Ann FC"), 4),
        (3, s("Bob"), s("Bob United"), 8),
        (12, s("Cat"), s("Cat City"), 4),
    ];
    let rows = get_league_hit_rows(&hits);
    assert_eq!(
        rows,
        vec![
            s("**__Hits__**\n"),
            s("**GW3** - Bob (Bob United) **2**"),
            s("**GW12** - Ann (Ann FC) **1**, Cat (Cat City) **1**"),
        ]
    );
    assert_eq!(get_league_hit_rows(&vec![]), vec![s("No one has taken a hit")]);
}

#[test]
fn whohas_player_sections() {
    let gw = GameWeek::new(7).unwrap();
    let owners = vec![
        (s("Ann"), s("Ann FC"), true, false, 2),
        (s("Bob"), s("Bob United"), false, false, 0),
        (s("Cat"), s("Cat City"), false, true, 1),
        (s("Dan"), s("Dan Town"), true, false, 3),
    ];
    let rows = get_whohas_player_rows("Salah", gw, &owners);
    assert_eq!(
        rows,
        vec![
            s("**__Salah owners in GW7__**\n"),
            s("**__Captained__**"),
            s("- **Ann** (Ann FC) "),
            s("- **Dan** (Dan Town) (Triple Captain)"),
            s("**__Vice Captained__**"),
            s("- **Cat** (Cat City) "),
            s("**__Regular__**"),
            s("- **Bob** (Bob United) (Benched)"),
        ]
    );
    assert_eq!(get_whohas_player_rows("Salah", gw, &vec![]), vec![s("No one has Salah in **GW7**.")]);
}

#[test]
fn whohas_club_players_in_name_order() {
    let gw = GameWeek::new(7).unwrap();
    let owners = vec![
        (s("Salah"), s("Ann"), s("Ann FC")),
        (s("Alisson"), s("Bob"), s("Bob United")),
        (s("Salah"), s("Cat"), s("Cat City")),
    ];
    let rows = get_whohas_club_rows("Liverpool", gw, &owners);
    assert_eq!(
        rows,
        vec![
            s("**__Liverpool assets in GW7__**\n"),
            s("- **Alisson:** Bob (Bob United)"),
            s("- **Salah:** Ann (Ann FC), Cat (Cat City)"),
        ]
    );
    assert_eq!(
        get_whohas_club_rows("Liverpool", gw, &vec![]),
        vec![s("No one has anyone from Liverpool in **GW7**.")]
    );
}

#[test]
fn user_chips_and_unknown_chip() {
    let rows = get_user_chip_rows(&vec![(s("wildcard"), 4), (s("3xc"), 20)]).unwrap();
    assert_eq!(rows, vec![s("**GW4**: Wildcard"), s("**GW20**: Triple Captain")]);
    let err = get_user_chip_rows(&vec![(s("bboost"), 2), (s("mystery"), 9), (s("other"), 10)]).unwrap_err();
    assert_eq!(err.text(), "mystery");
}

#[test]
fn league_chips_per_team_earliest_first() {
    let chips = vec![
        (TeamId::new(2), s("Bob"), s("Bob United"), s("freehit"), 30),
        (TeamId::new(1), s("Ann"), s("Ann FC"), s("3xc"), 12),
        (TeamId::new(2), s("Bob"), s("Bob United"), s("wildcard"), 5),
        (TeamId::new(2), s("Bob"), s("Bob United"), s("custom"), 5),
    ];
    let rows = get_league_chip_rows(&chips);
    assert_eq!(
        rows,
        vec![
            s("**Bob** (Bob United)\n- **GW5** Wildcard, **GW5** custom, **GW30** Free Hit"),
            s("**Ann** (Ann FC)\n- **GW12** Triple Captain"),
        ]
    );
}

#[test]
fn captains_lines() {
    let rows = get_captain_rows(&vec![(s("Ann"), PlayerId::new(328), s("Salah"))]);
    assert_eq!(rows, vec![s("**Ann** captained **Salah**")]);
}

fn live(name: &str, discord: Option<i64>, week: (i16, i64), overall: (i16, i64)) -> LivePoints {
    LivePoints {
        player_first_name: s("First"),
        player_last_name: name.to_string(),
        name: format!("{name} XI"),
        discord_id: discord,
        week_points: week.0,
        calculated_week_points: week.1,
        overall_points: overall.0,
        calculated_overall_points: overall.1,
    }
}

#[test]
fn table_ranks_by_live_points() {
    let points = vec![
        live("Ann", Some(11), (40, 45), (900, 905)),
        live("Bob", None, (60, 62), (880, 882)),
        live("Cat", Some(12), (40, 45), (950, 955)),
    ];
    let week = build_table_data(&points, "Current Gameweek", 12).unwrap();
    assert_eq!(week.title, "Current Gameweek League Standings");
    let names: Vec<&str> = week.rows.iter().map(|r| r.name.as_str()).collect();
    assert_eq!(names, vec!["Bob XI", "Ann XI", "Cat XI"]);
    assert_eq!(week.rows[0].team_name, "First Bob");
    assert_eq!((week.rows[0].confirmed_points, week.rows[0].live_points), (60, 62));
    assert!(week.rows[2].caller && !week.rows[1].caller && !week.rows[0].caller);

    let overall = build_table_data(&points, "Overall", 99).unwrap();
    let names: Vec<&str> = overall.rows.iter().map(|r| r.name.as_str()).collect();
    assert_eq!(names, vec!["Cat XI", "Ann XI", "Bob XI"]);
    assert_eq!((overall.rows[0].confirmed_points, overall.rows[0].live_points), (950, 955));

    assert!(build_table_data(&points, "Yesterday", 12).is_none());
    let empty = build_table_data(&vec![], "Yesterday", 12).unwrap();
    assert_eq!(empty.title, "Yesterday League Standings");
    assert!(empty.rows.is_empty());
}

#[test]
fn deadlines_start_from_the_requested_week() {
    // 2024-08-16 17:30:00 UTC, 2024-08-24 10:00:00 UTC, 2024-08-31 10:00:00 UTC
    let deadlines = vec![(s("Gameweek 1"), 1723829400), (s("Gameweek 2"), 1724493600), (s("Gameweek 3"), 1725098400)];
    assert_eq!(deadline_row("Gameweek 1", 1723829400).unwrap(), "**Gameweek 1**: August 16th,  5:30 PM, 2024");
    let rows = get_deadline_rows(&deadlines, GameWeek::new(2).unwrap()).unwrap();
    assert_eq!(
        rows,
        vec![
            s("**Gameweek 2**: August 24th, 10:00 AM, 2024"),
            s("**Gameweek 3**: August 31st, 10:00 AM, 2024"),
            s("**Gameweek 1**: August 16th,  5:30 PM, 2024"),
        ]
    );
    assert!(deadline_row("Far future", i64::MAX).is_none());
}

#[test]
fn deadline_week_is_next_unless_last() {
    let gw5 = GameWeek::new(5).unwrap();
    assert_eq!(deadline_game_week(None, gw5), GameWeek::new(6).unwrap());
    assert_eq!(deadline_game_week(None, GameWeek::last()), GameWeek::last());
    assert_eq!(deadline_game_week(Some(gw5), GameWeek::last()), gw5);
}

#[test]
fn register_follows_small_private_leagues_once() {
    let leagues = vec![
        ClassicLeague { id: 10, admin_entry: Some(1), rank_count: 25 },
        ClassicLeague { id: 11, admin_entry: None, rank_count: 5 },
        ClassicLeague { id: 12, admin_entry: Some(2), rank_count: 26 },
        ClassicLeague { id: 10, admin_entry: Some(1), rank_count: 25 },
        ClassicLeague { id: 13, admin_entry: Some(3), rank_count: 1 },
    ];
    assert_eq!(followed_league_ids(&leagues), vec![LeagueId::new(10), LeagueId::new(13)]);
    assert_eq!(next_standings_page(1, true), Some(2));
    assert_eq!(next_standings_page(4, false), None);
}

#[test]
fn user_hits_checked_against_i16() {
    assert!(user_hits_in_range(&vec![]));
    assert!(user_hits_in_range(&vec![(1, 4), (2, 8)]));
    // 8191 hits cost 32764 points; one more hit and the points no longer fit.
    assert!(user_hits_in_range(&vec![(1, 32764)]));
    assert!(!user_hits_in_range(&vec![(1, 32764), (2, 4)]));
    assert!(!user_hits_in_range(&vec![(1, i16::MAX), (2, 4)]));
}

#[test]
fn titles_and_compared_users() {
    let gw = GameWeek::new(7).unwrap();
    assert_eq!(fpl::commands::transfers_title("Ann FC", gw), "Transfers for Ann FC in GW7");
    assert_eq!(fpl::commands::differentials_title("A and B", gw), "Differentials for A and B in GW7");
    assert_eq!(fpl::commands::compared_names("A", "B"), "A and B");
    assert_eq!(fpl::commands::compared_users(5, 9), vec![5, 9]);
    let empty = fpl::commands::get_transfers_data(&vec![]);
    assert_eq!(fpl::commands::transfers_text_reply(&empty), Some(vec![s("No transfers.")]));
}
