pub mod club_id;
pub mod fixture_id;
pub mod game_week;

pub use club_id::{ClubId, ClubIdError};
pub use fixture_id::{FixtureId, FixtureIdError};
pub use game_week::{GameWeek, GameWeekError};
pub mod element_type;
pub use element_type::ElementType;
pub mod chip;
pub use chip::{chip_name, chip_pretty_name, is_chip_name, shown_chip, Chip, ParseChipError};
pub mod league_id;
pub mod player_id;
pub mod team_id;
pub use league_id::LeagueId;
pub use player_id::PlayerId;
pub use team_id::TeamId;
pub mod player_position;
pub use player_position::{position_name, position_named, ParsePositionError, PlayerPosition};
