use fpl::types::{
    Chip, ClubId, ClubIdError, ElementType, FixtureId, FixtureIdError, GameWeek, GameWeekError, LeagueId,
    PlayerId, PlayerPosition, TeamId,
};

#[test]
fn game_week_next_and_previous_undo_each_other() {
    let gw = GameWeek::new(5).unwrap();
    assert_eq!(gw.next().unwrap().previous().unwrap(), gw);
    assert_eq!(gw.previous().unwrap().next().unwrap(), gw);
    assert!(GameWeek::new(38).unwrap().next().is_none());
    assert!(GameWeek::new(1).unwrap().previous().is_none());
}

#[test]
fn game_week_range_is_one_to_thirty_eight() {
    assert_eq!(GameWeek::new(0), Err(GameWeekError(0)));
    assert_eq!(GameWeek::new(39), Err(GameWeekError(39)));
    assert!(GameWeek::new(1).unwrap().is_first());
    assert!(GameWeek::new(38).unwrap().is_last());
    assert_eq!(GameWeek::first(), GameWeek::new(1).unwrap());
    assert_eq!(GameWeek::last(), GameWeek::new(38).unwrap());
    assert_eq!(GameWeek::new(22).unwrap().to_string(), "22");
    assert_eq!(*GameWeek::new(17).unwrap(), 17u8);
    assert!(GameWeek::new(17).unwrap() == 17u8);
    assert_eq!(GameWeek::try_from(40u8), Err(GameWeekError(40)));
}

#[test]
fn club_and_fixture_ids_are_checked() {
    assert_eq!(ClubId::new(0), Err(ClubIdError(0)));
    assert_eq!(ClubId::new(21), Err(ClubIdError(21)));
    assert_eq!(ClubId::new(20).unwrap().to_string(), "20");
    assert_eq!(FixtureId::new(0), Err(FixtureIdError(0)));
    assert_eq!(FixtureId::new(381), Err(FixtureIdError(381)));
    assert_eq!(FixtureId::new(380).unwrap().to_string(), "GW380");
}

#[test]
fn element_types_name_positions() {
    assert!(ElementType::new(0).is_none());
    assert!(ElementType::new(5).is_none());
    assert_eq!(ElementType::new(1).unwrap().to_position(), "Goalkeeper");
    assert_eq!(ElementType::new(2).unwrap().to_position(), "Defender");
    assert_eq!(ElementType::new(3).unwrap().to_position(), "Midfielder");
    assert_eq!(ElementType::new(4).unwrap().to_position(), "Attacker");
    assert_eq!(ElementType::new(4).unwrap().value(), 4);
    assert_eq!(ElementType::new(3).unwrap().to_string(), "3");
    let err = ElementType::try_from(9u8).unwrap_err();
    assert_eq!(err, "Element type must be between 1 and 4, got 9");
}

#[test]
fn chip_names_parse_back() {
    for chip in [Chip::WildCard, Chip::FreeHit, Chip::TripleCaptain, Chip::BenchBoost] {
        assert_eq!(Chip::parse(chip.as_str()).unwrap(), chip);
        assert_eq!(chip.to_string(), chip.as_str());
    }
    assert_eq!(Chip::TripleCaptain.as_str(), "3xc");
    assert_eq!(Chip::BenchBoost.as_str(), "bboost");
    assert_eq!(Chip::WildCard.pretty_name(), "Wildcard");
    assert_eq!(Chip::FreeHit.pretty_name(), "Free Hit");
    assert_eq!(Chip::TripleCaptain.pretty_name(), "Triple Captain");
    assert_eq!(Chip::BenchBoost.pretty_name(), "Bench Boost");
    let err = Chip::parse("nochip").unwrap_err();
    assert_eq!(err.text(), "nochip");
    assert_eq!("freehit".parse::<Chip>().unwrap(), Chip::FreeHit);
}

#[test]
fn positions_parse_back() {
    for p in [
        PlayerPosition::Goalkeeper,
        PlayerPosition::Defender,
        PlayerPosition::Midfielder,
        PlayerPosition::Attacker,
        PlayerPosition::Manager,
    ] {
        assert_eq!(PlayerPosition::parse(p.as_str()).unwrap(), p);
    }
    let err = PlayerPosition::parse("Striker").unwrap_err();
    assert_eq!(err.0, "Striker");
}

#[test]
fn ids_print_their_numbers() {
    assert_eq!(PlayerId::new(180).to_string(), "180");
    assert_eq!(PlayerId::new(180).as_u32(), 180);
    assert_eq!(TeamId::new(1871038).to_string(), "1871038");
    assert_eq!(TeamId::new(1871038).as_u32(), 1871038);
    assert_eq!(LeagueId::new(577969).to_string(), "577969");
}
