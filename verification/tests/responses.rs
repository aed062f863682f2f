use fpl::responses::{collect_bonus_values, total_bonuses, totals_in_range};
use fpl::responses::{fixture_bonuses, Pick, StatEntry, StatValue};
use fpl::types::{FixtureId, PlayerId, PlayerPosition};

fn v(value: i16, element: u32) -> StatValue {
    StatValue { value, element: PlayerId::new(element) }
}

#[test]
fn bonuses_add_up_per_player() {
    let fixture = FixtureId::new(12).unwrap();
    let stats = vec![
        StatEntry { identifier: "goals_scored".to_string(), a: vec![v(1, 7)], h: vec![] },
        StatEntry { identifier: "bonus".to_string(), a: vec![v(3, 7)], h: vec![v(2, 9)] },
        StatEntry { identifier: "bps".to_string(), a: vec![v(40, 7), v(12, 8)], h: vec![v(35, 9)] },
        StatEntry { identifier: "bonus".to_string(), a: vec![], h: vec![v(1, 9)] },
    ];
    let bonuses = fixture_bonuses(fixture, &stats);
    let table: Vec<(u32, i16, i16)> = bonuses.iter().map(|b| (b.player_id.0, b.bonus, b.bps)).collect();
    assert_eq!(table, vec![(7, 3, 40), (9, 3, 35), (8, 0, 12)]);
    assert!(bonuses.iter().all(|b| b.fixture_id == fixture));
    assert!(fixture_bonuses(fixture, &vec![]).is_empty());
}

#[test]
fn benched_picks() {
    let pick = |position: i16, multiplier: i16| Pick {
        element: PlayerId::new(1),
        position,
        multiplier,
        is_captain: false,
        is_vice_captain: false,
        element_type: PlayerPosition::Defender,
    };
    assert!(pick(12, 0).is_benched());
    assert!(!pick(12, 1).is_benched());
    assert!(!pick(11, 0).is_benched());
}

#[test]
fn bonus_totals_checked_against_i16() {
    let fine = vec![StatEntry { identifier: "bps".to_string(), a: vec![v(30000, 7), v(30000, 8)], h: vec![v(-30000, 7)] }];
    let values = collect_bonus_values(&fine);
    assert!(totals_in_range(&values));
    let table: Vec<(u32, i16)> = total_bonuses(&values, FixtureId::new(1).unwrap()).iter().map(|b| (b.player_id.0, b.bps)).collect();
    assert_eq!(table, vec![(7, 0), (8, 30000)]);
    let too_much = vec![
        StatEntry { identifier: "bps".to_string(), a: vec![v(30000, 7)], h: vec![] },
        StatEntry { identifier: "bps".to_string(), a: vec![], h: vec![v(5000, 7)] },
    ];
    assert!(!totals_in_range(&collect_bonus_values(&too_much)));
    // The two kinds keep separate totals, and other statistics count for nothing.
    let split = vec![
        StatEntry { identifier: "bonus".to_string(), a: vec![v(30000, 7)], h: vec![] },
        StatEntry { identifier: "bps".to_string(), a: vec![v(30000, 7)], h: vec![] },
        StatEntry { identifier: "saves".to_string(), a: vec![v(30000, 7)], h: vec![] },
    ];
    assert!(totals_in_range(&collect_bonus_values(&split)));
}
