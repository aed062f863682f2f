use fpl::commands::team::picks_in_range;
use fpl::commands::team::{get_basic_team_data, get_player_data, PickError, PickRecord, TeamQueryResult};
use fpl::commands::{get_differentials_data, get_transfers_data, get_unique_players_data, transfer_card};
use fpl::commands::{DifferentialRecord, TransferRecord, UniqueRecord};
use fpl::images::bands::Placement;
use fpl::images::colours::{GREEN_COLOUR, GREY_COLOUR, OFF_WHITE_COLOUR, PURPLE_COLOUR, WHITE_COLOUR};
use fpl::images::team::{transfer_text, TeamLayout};
use fpl::images::{
    calculate_player_card_xs, CornerRounding, DifferentialsRenderer, FontWeight, GameStatus, PlayerGameInfo,
    PlayerInfo, TableData, TableRenderer, TeamData, TransferInfo, TransfersRenderer, UniqueRenderer,
};
use fpl::images::player_card::card_row_heights;
use fpl::images::UniquePlayers;
use fpl::types::{Chip, GameWeek};

fn s(x: &str) -> String {
    x.to_string()
}

fn card(name: &str) -> PlayerInfo {
    PlayerInfo::new(s(name), 1, vec![PlayerGameInfo::Status(GameStatus::Played(6))], false, false)
}

#[test]
fn player_card_texts_and_colours() {
    let mut p = PlayerInfo::new(
        s("Salah"),
        118748,
        vec![PlayerGameInfo::Status(GameStatus::Played(12)), PlayerGameInfo::Fixture(s("BOU (H)"))],
        true,
        false,
    );
    assert_eq!(p.display_name(), "Salah (C)");
    assert_eq!(p.status_text(), "12 pts, BOU (H)");
    assert_eq!(p.status_background(), PURPLE_COLOUR);
    assert_eq!(p.border(), GREEN_COLOUR);
    assert_eq!(p.name_background(), WHITE_COLOUR);
    assert_eq!(p.name_colour(), PURPLE_COLOUR);
    assert_eq!(p.status_colour(), WHITE_COLOUR);
    p.border_color(s("#123456")).status_active_bg_color(s("#abcdef"));
    assert_eq!(p.border(), "#123456");
    assert_eq!(p.status_background(), "#abcdef");

    let benched = PlayerInfo::new(
        s("Saka"),
        223340,
        vec![PlayerGameInfo::Status(GameStatus::NotPlayed), PlayerGameInfo::Fixture(s("ARS (A)"))],
        false,
        true,
    );
    assert_eq!(benched.display_name(), "Saka (VC)");
    assert_eq!(benched.status_text(), "-, ARS (A)");
    assert_eq!(benched.status_background(), GREY_COLOUR);
    assert_eq!(card_row_heights(200), (133, 33));
}

#[test]
fn font_weights_and_roundings() {
    assert_eq!(FontWeight::Black.to_number(), "900");
    assert_eq!(FontWeight::default().to_number(), "500");
    assert_eq!(CornerRounding::default(), CornerRounding::All);
}

#[test]
fn cards_spread_with_equal_gaps() {
    assert_eq!(calculate_player_card_xs(100, 500, 2), vec![100, 300]);
    assert_eq!(calculate_player_card_xs(150, 1000, 4), vec![80, 310, 540, 770]);
    // Cards wider than the row are laid side by side from the left.
    assert_eq!(calculate_player_card_xs(300, 500, 2), vec![0, 300]);
}

#[test]
fn table_layout_rows() {
    let mut data = TableData::new(s("Overall League Standings"));
    data.add_row(s("Ann XI"), s("Ann A"), 900, 905, false);
    data.add_row(s("Bob XI"), s("Bob B"), 880, 882, true);
    data.add_row(s("Cat XI"), s("Cat C"), 870, 871, false);
    let layout = TableRenderer::default().layout(&data);
    assert_eq!(layout.height, 80 + 60 + 3 * 80);
    assert_eq!((layout.title_x, layout.title_y, layout.header_center), (500, 50, 110));
    assert_eq!((layout.confirmed_x, layout.live_x), (500, 800));
    let fills: Vec<&str> = layout.rows.iter().map(|r| r.fill.as_str()).collect();
    assert_eq!(fills, vec!["#FFFFFF", GREEN_COLOUR, "#FFFFFF"]);
    assert_eq!(layout.rows[1].y, 220);
    assert_eq!(layout.rows[1].text_y, 265);
    assert_eq!(layout.rows[1].names_y, 260);
    assert_eq!(layout.rows[2].rank, "3");
    assert_eq!(layout.rows[0].live_points, "905");
}

fn transfer_record(team: &str, out: &str, inn: &str, minutes_in: i16) -> TransferRecord {
    TransferRecord {
        user_first_name: s("First"),
        user_last_name: s(team),
        name: format!("{team} FC"),
        player_in_name: s(inn),
        player_in_code: 2,
        player_in_opponents: None,
        player_in_points: 9,
        player_in_minutes: minutes_in,
        player_out_name: s(out),
        player_out_code: 1,
        player_out_opponents: Some(s("MUN (H)")),
        player_out_points: 1,
        player_out_minutes: 0,
    }
}

#[test]
fn transfers_grouped_per_team_and_laid_out_largest_first() {
    let records = vec![
        transfer_record("Ann", "Haaland", "Isak", 90),
        transfer_record("Bob", "Palmer", "Saka", 0),
        transfer_record("Bob", "Watkins", "Wood", 90),
    ];
    let transfers = get_transfers_data(&records);
    let keys: Vec<&str> = transfers.user_to_transfers.iter().map(|e| e.0.as_str()).collect();
    assert_eq!(keys, vec!["First Ann (Ann FC)", "First Bob (Bob FC)"]);
    assert_eq!(transfers.user_to_transfers[1].1.len(), 2);
    let (out, inn) = &transfers.user_to_transfers[0].1[0];
    assert_eq!(out.status_text(), "MUN (H)");
    assert_eq!(out.status_background(), GREY_COLOUR);
    assert_eq!(inn.status_text(), "9");
    assert_eq!(inn.status_background(), PURPLE_COLOUR);
    let (_, not_played) = &transfers.user_to_transfers[1].1[0];
    assert_eq!(not_played.status_text(), "N/A");

    let layout = TransfersRenderer::default().layout(&transfers);
    // Bob has two transfers and comes first; both boxes share one band of two.
    assert_eq!(layout.bands.len(), 1);
    assert_eq!(layout.height, 80 + 2 * 150);
    let band = &layout.bands[0];
    assert_eq!(band.boxes[0].entry, 1);
    assert_eq!(band.boxes[1].entry, 0);
    assert_eq!(band.dividers, vec![500]);
    assert_eq!(band.divider_bottom, 80);
    assert_eq!(band.boxes[1].title, Placement { x: 500, y: 0, width: 500, height: 80 });
    let row = band.boxes[0].rows[1];
    assert_eq!(row.out_card, Placement { x: 100, y: 80 + 150 + 20, width: 100, height: 110 });
    assert_eq!(row.in_card, Placement { x: 300, y: 250, width: 100, height: 110 });
    assert_eq!(row.text, Placement { x: 212, y: 250, width: 75, height: 110 });
}

#[test]
fn transfer_cards_show_points_or_opponents() {
    let played = transfer_card(s("Isak"), 7, &None, 13, 90);
    assert_eq!(played.status_text(), "13");
    let unplayed = transfer_card(s("Isak"), 7, &Some(s("NEW (A)")), 13, 0);
    assert_eq!(unplayed.status_text(), "NEW (A)");
}

#[test]
fn differentials_grouped_and_laid_out() {
    let record = |team: &str, player: &str| DifferentialRecord {
        name: format!("{team} FC"),
        user_first_name: s("First"),
        user_last_name: s(team),
        player_name: s(player),
        code: 5,
        is_captain: false,
        is_vice_captain: false,
        opponents: None,
    };
    let data = get_differentials_data(&vec![record("Ann", "A1"), record("Bob", "B1"), record("Bob", "B2"), record("Bob", "B3")]);
    let keys: Vec<&str> = data.user_to_differentials.iter().map(|e| e.0.as_str()).collect();
    assert_eq!(keys, vec!["First Ann (Ann FC)", "First Bob (Bob FC)"]);
    assert_eq!(data.user_to_differentials[0].1[0].status_text(), "N/A");
    let renderer = DifferentialsRenderer::default();
    assert_eq!(renderer.calculate_team_box_height(&data.user_to_differentials[1]), 100 + 2 * 250);
    let layout = renderer.layout(&data);
    assert_eq!(layout.height, 600);
    let band = &layout.bands[0];
    assert_eq!(band.boxes[0].entry, 1);
    assert_eq!(band.divider_x, 500);
    // Bob's third card starts a second row, alone in it.
    assert_eq!(band.boxes[0].cards[2], Placement { x: 162, y: 100 + 250 + 20, width: 175, height: 210 });
    assert_eq!(band.boxes[1].cards[0].x, 500 + 162);
}

#[test]
fn unique_players_rows() {
    let record = |name: &str, multiplier: i16| UniqueRecord {
        web_name: s(name),
        code: 3,
        multiplier,
        is_captain: false,
        is_vice_captain: false,
        opponents: Some(s("LIV (H)")),
    };
    let data = get_unique_players_data(&vec![record("A", 1), record("B", 0), record("C", 1), record("D", 2)]);
    assert_eq!(data.players[1].status_background(), GREY_COLOUR);
    assert_eq!(data.players[0].status_background(), PURPLE_COLOUR);
    let layout = UniqueRenderer::default().layout(&data);
    assert_eq!(layout.height, 600);
    assert_eq!(layout.rows.len(), 2);
    assert_eq!(layout.rows[0].border_y, u32::MAX);
    assert_eq!(layout.rows[1].border_y, 299);
    assert_eq!(layout.rows[1].fill, OFF_WHITE_COLOUR);
    assert_eq!(layout.rows[1].cards, vec![Placement { x: 400, y: 320, width: 200, height: 260 }]);
    let empty = UniqueRenderer::default().layout(&UniquePlayers::new());
    assert_eq!((empty.height, empty.rows.len()), (0, 0));
}

fn pick(name: &str, id: i16, position: i16, kind: &str) -> PickRecord {
    PickRecord {
        name: s(name),
        code: id as i32,
        points: 2,
        captain: false,
        vice_captain: false,
        multiplier: if position > 11 { 0 } else { 1 },
        position,
        player_position: s(kind),
        started: true,
        minutes: 90,
        player_id: id,
        short_name: s("ARS"),
        is_home: true,
    }
}

#[test]
fn picks_are_placed_on_the_pitch() {
    let mut records = vec![
        pick("Keeper", 1, 1, "Goalkeeper"),
        pick("Def", 2, 2, "Defender"),
        pick("Mid", 3, 6, "Midfielder"),
        pick("Fwd", 4, 10, "Attacker"),
        pick("Bench B", 5, 14, "Defender"),
        pick("Bench A", 6, 12, "Goalkeeper"),
        pick("Boss", 7, 16, "Manager"),
    ];
    // A second game of the midfielder, not yet started, and a double game played twice.
    let mut second = pick("Mid", 3, 6, "Midfielder");
    second.started = false;
    second.is_home = false;
    second.short_name = s("CHE");
    records.push(second);
    let mut captain_game = pick("Fwd", 4, 10, "Attacker");
    captain_game.points = 7;
    records.push(captain_game);

    let builder = get_basic_team_data(
        &TeamQueryResult {
            team_name: s("My XI"),
            gw_rank: None,
            overall_rank: 1234567,
            chip: Some(s("bboost")),
            points: Some(64),
        },
        20,
        TeamData::builder(),
    )
    .unwrap();
    let data = get_player_data(&records, builder).unwrap().build().unwrap();
    assert_eq!(data.goalkeeper.name, "Keeper");
    assert_eq!(data.defenders[0].name, "Def");
    assert_eq!(data.midfielders[0].status_text(), "2 pts, CHE (A)");
    // Both of the forward's games were played: only the first is shown.
    assert_eq!(data.forwards[0].status_text(), "2 pts");
    let bench: Vec<&str> = data.bench.iter().map(|p| p.name.as_str()).collect();
    assert_eq!(bench, vec!["Bench A", "Bench B"]);
    assert_eq!(data.bench[0].status_text(), "2 pts");
    assert_eq!(data.assman.as_ref().unwrap().name, "Boss");
    assert_eq!(data.gw_rank, 0);
    assert_eq!(data.chip, Some(Chip::BenchBoost));
    assert_eq!(data.points_box_rounding(), CornerRounding::Top);
    let rows = data.get_player_rows();
    let sizes: Vec<usize> = rows.iter().map(|r| r.len()).collect();
    assert_eq!(sizes, vec![1, 1, 1, 1, 3]);
    assert_eq!(rows[4][0].name, "Boss");

    let header = data.header_texts();
    assert_eq!(header.overall_rank, "1,234,567");
    assert_eq!(header.gw_rank, "0");
    assert_eq!(header.points, "64");
    assert_eq!(header.game_week, "GW20");
    assert_eq!(header.chip.as_deref(), Some("Bench Boost"));

    assert!(TeamLayout::default().fits(&data));
    let mut tall = TeamLayout::default();
    tall.player_card_height = u32::MAX / 4;
    assert!(!tall.fits(&data));
    let layout = TeamLayout::default().layout(&data);
    assert_eq!(layout.height, 200 + (5 * 200 + 6 * 50) + 50);
    assert_eq!(layout.header_band, 225);
    assert_eq!(layout.transfers_y, 1300 + 225);
    assert_eq!(layout.card_rows[0][0], Placement { x: 425, y: 250, width: 150, height: 200 });
    assert_eq!(layout.card_rows[4][0].y, 250 + 4 * 250);
}

#[test]
fn picks_outside_the_team_are_refused() {
    let err = get_player_data(&vec![pick("Odd", 1, 3, "Striker")], TeamData::builder()).unwrap_err();
    assert!(matches!(err, PickError::UnknownPosition(ref t) if t == "Striker"));
    let err = get_player_data(&vec![pick("Odd", 1, 17, "Defender")], TeamData::builder()).unwrap_err();
    assert!(matches!(err, PickError::PositionOutOfRange(17)));
    assert!(get_basic_team_data(
        &TeamQueryResult { team_name: s("X"), gw_rank: Some(1), overall_rank: 1, chip: None, points: None },
        39,
        TeamData::builder()
    )
    .is_none());
}

#[test]
fn team_builder_names_what_is_missing() {
    assert_eq!(TeamData::builder().build().unwrap_err(), "Team Name Required");
    let partial = TeamData::builder().team_name(s("X")).gw_rank(1).overall_rank(2).points(3);
    assert_eq!(partial.build().unwrap_err(), "Game Week Required");
    let no_keeper = TeamData::builder()
        .team_name(s("X"))
        .gw_rank(1)
        .overall_rank(2)
        .points(3)
        .game_week(GameWeek::new(1).unwrap());
    assert_eq!(no_keeper.build().unwrap_err(), "Goalkeeper Required");
}

#[test]
fn transfer_rows_show_prices_in_millions() {
    let t = TransferInfo::new(s("Isak"), 2, 85, s("Haaland"), 1, 150);
    assert_eq!(transfer_text(&t), "Haaland (£15) —› Isak (£8.5)");
    let data = TeamData::builder()
        .team_name(s("X"))
        .gw_rank(1)
        .overall_rank(2)
        .points(3)
        .game_week(GameWeek::new(1).unwrap())
        .goalkeeper(card("K"))
        .add_transfer(TransferInfo::new(s("A"), 1, 45, s("B"), 2, 101))
        .build()
        .unwrap();
    assert_eq!(data.transfer_texts(), vec![s("B (£10.1) —› A (£4.5)")]);
}

#[test]
fn points_of_played_games_checked_against_i16() {
    let mut records = vec![pick("Keeper", 1, 1, "Goalkeeper")];
    assert!(picks_in_range(&records));
    records[0].points = 20000;
    records[0].multiplier = 2;
    assert!(!picks_in_range(&records));
    // A bench player counts once, and a game not yet started shows no points.
    records[0].position = 12;
    assert!(picks_in_range(&records));
    records[0].position = 1;
    records[0].started = false;
    assert!(picks_in_range(&records));
}

#[test]
fn images_checked_against_their_coordinates() {
    let one = get_unique_players_data(&vec![UniqueRecord {
        web_name: s("A"),
        code: 3,
        multiplier: 1,
        is_captain: false,
        is_vice_captain: false,
        opponents: None,
    }]);
    let mut unique = UniqueRenderer::default();
    assert!(unique.fits(one.players.len()));
    assert!(unique.fits(0));
    unique.players_per_row = 0;
    assert!(!unique.fits(1));
    unique = UniqueRenderer::default();
    unique.player_row_height = u32::MAX;
    assert!(unique.fits(1));
    assert!(!unique.fits(4));
    assert!(TableRenderer::default().fits(3));
    let differentials = get_differentials_data(&vec![]);
    assert!(DifferentialsRenderer::default().fits(&differentials));
    let mut wide = DifferentialsRenderer::default();
    wide.player_card_width = u32::MAX;
    assert!(!wide.fits(&differentials));
    assert!(TransfersRenderer::default().fits(&get_transfers_data(&vec![])));
}

#[test]
fn tall_bands_fit_while_the_image_height_fits() {
    // Two boxes side by side: the image is one box tall, though two boxes would not fit.
    let transfers = get_transfers_data(&vec![transfer_record("Ann", "A", "B", 90), transfer_record("Bob", "C", "D", 90)]);
    let mut renderer = TransfersRenderer::default();
    renderer.player_row_height = 3_000_000_000;
    assert!(renderer.fits(&transfers));
    assert_eq!(renderer.layout(&transfers).height, 80 + 3_000_000_000);
    renderer.transfer_boxes_per_row = 1;
    assert!(!renderer.fits(&transfers));

    let record = |team: &str| DifferentialRecord {
        name: format!("{team} FC"),
        user_first_name: s("First"),
        user_last_name: s(team),
        player_name: s("P"),
        code: 5,
        is_captain: false,
        is_vice_captain: false,
        opponents: None,
    };
    let differentials = get_differentials_data(&vec![record("Ann"), record("Bob")]);
    let mut renderer = DifferentialsRenderer::default();
    renderer.player_row_height = 3_000_000_000;
    assert!(renderer.fits(&differentials));
    assert_eq!(renderer.layout(&differentials).height, 100 + 3_000_000_000);
    renderer.team_boxes_per_row = 1;
    assert!(!renderer.fits(&differentials));
}

#[test]
fn transfer_dividers_need_only_the_boxes_of_a_band() {
    // Many boxes to a band are allowed on a wide image, as long as the boxes drawn fit.
    let transfers = get_transfers_data(&vec![transfer_record("Ann", "A", "B", 90), transfer_record("Bob", "C", "D", 90)]);
    let mut renderer = TransfersRenderer::default();
    renderer.width = 2_000_000_000;
    renderer.transfer_boxes_per_row = 1000;
    assert!(renderer.fits(&transfers));
    assert_eq!(renderer.layout(&transfers).bands[0].dividers, vec![1_000_000_000]);
    renderer.width = u32::MAX;
    renderer.transfer_boxes_per_row = 3;
    let three = get_transfers_data(&vec![
        transfer_record("Ann", "A", "B", 90),
        transfer_record("Bob", "C", "D", 90),
        transfer_record("Cat", "E", "F", 90),
    ]);
    assert!(!renderer.fits(&three));
}

#[test]
fn unique_rows_need_only_the_players_they_hold() {
    let mut unique = UniqueRenderer::default();
    unique.width = u32::MAX;
    unique.players_per_row = 1_000_000_000;
    let none = get_unique_players_data(&vec![]);
    assert!(unique.fits(none.players.len()));
    assert!(unique.fits(3));
    unique.player_card_width = u32::MAX / 2;
    assert!(unique.fits(2));
    assert!(!unique.fits(3));
}

#[test]
fn points_box_rounding_follows_the_chip() {
    let keeper = card("Keeper");
    let base = TeamData::builder()
        .team_name(s("X"))
        .gw_rank(1)
        .overall_rank(2)
        .points(3)
        .game_week(GameWeek::new(1).unwrap())
        .goalkeeper(keeper);
    let plain = base.build().unwrap();
    assert_eq!(plain.points_box_rounding(), CornerRounding::All);
}
