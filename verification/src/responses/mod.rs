//! The parts of the FPL API's responses that the library reasons about.
pub mod team;
pub mod team_game_week;
pub use team::{ClassicLeague, ClassicLeagues};
pub use team_game_week::{ErrorResponse, Pick};
pub mod fixtures;
pub use fixtures::{collect_bonus_values, fixture_bonuses, total_bonuses, totals_in_range, GameWeekBonus, StatEntry, StatValue};
