pub mod hits;

pub use hits::{get_league_hit_rows, get_user_hit_rows, user_hits_in_range};
pub mod whohas;
pub use whohas::{get_whohas_club_rows, get_whohas_player_rows};
pub mod chips;
pub use chips::{get_league_chip_rows, get_user_chip_rows};
pub mod table;
pub use table::{build_table_data, LivePoints};
pub mod differentials;
pub use differentials::{compared_names, compared_users, differentials_title, get_differentials_data, DifferentialRecord};
pub mod transfers;
pub use transfers::{get_transfers_data, transfer_card, transfers_text_reply, transfers_title, TransferRecord};
pub mod unique;
pub use unique::{get_unique_players_data, UniqueRecord};
pub mod team;
pub mod captains;
pub mod deadline;
pub use captains::get_captain_rows;
pub use deadline::{deadline_game_week, deadline_row, get_deadline_rows};
pub mod register;
pub use register::{followed_league_ids, next_standings_page, MAX_MINI_LEAGUE_ENTRIES};
