pub mod colours;
pub mod util;

pub use util::{calculate_player_card_xs, CornerRounding, FontWeight};
pub mod player_card;
pub use player_card::{GameStatus, PlayerGameInfo, PlayerInfo};
pub mod differentials;
pub use differentials::{DifferentialKey, Differentials, DifferentialsRenderer};
pub mod table;
pub mod transfers;
pub mod unique;
pub use table::{TableData, TableRenderer, TableRow};
pub use transfers::{Transfers, TransfersKey, TransfersRenderer};
pub use unique::{UniquePlayers, UniqueRenderer};
pub mod team;
pub use team::{TeamData, TeamDataBuilder, TransferInfo};
pub mod bands;
