//! The data behind a player card: who the player is, how their games went, and the card's colours.
use super::colours::{GREEN_COLOUR, GREY_COLOUR, PURPLE_COLOUR, WHITE_COLOUR};
use crate::text::{decimal, joined, push_decimal};
use vstd::prelude::*;

verus! {

/// Whether a player's game has been played, and the points scored in it.
#[derive(Debug)]
pub enum GameStatus {
    NotPlayed,
    Played(i16),
}

/// What a player card shows about one of the player's games.
#[derive(Debug)]
pub enum PlayerGameInfo {
    Status(GameStatus),
    Fixture(String),
    FreeText(String),
}

impl Clone for GameStatus {
    fn clone(&self) -> (c: Self)
        ensures
            c == *self,
    {
        match self {
            GameStatus::NotPlayed => GameStatus::NotPlayed,
            GameStatus::Played(p) => GameStatus::Played(*p),
        }
    }
}

impl Clone for PlayerGameInfo {
    fn clone(&self) -> (c: Self)
        ensures
            c == *self,
    {
        match self {
            PlayerGameInfo::Status(s) => PlayerGameInfo::Status(s.clone()),
            PlayerGameInfo::Fixture(f) => PlayerGameInfo::Fixture(f.clone()),
            PlayerGameInfo::FreeText(t) => PlayerGameInfo::FreeText(t.clone()),
        }
    }
}

/// The text a card shows for one game: `-` when not played, the points when played,
/// otherwise the fixture or free text itself.
pub open spec fn game_text(g: PlayerGameInfo) -> Seq<char> {
    match g {
        PlayerGameInfo::Status(GameStatus::NotPlayed) => "-"@,
        PlayerGameInfo::Status(GameStatus::Played(points)) => decimal(points as int) + " pts"@,
        PlayerGameInfo::Fixture(fixture) => fixture@,
        PlayerGameInfo::FreeText(text) => text@,
    }
}

/// A game as plain values.
pub enum GameView {
    NotPlayed,
    Played(i16),
    Fixture(Seq<char>),
    FreeText(Seq<char>),
}

/// The game as plain values.
pub open spec fn game_view(g: PlayerGameInfo) -> GameView {
    match g {
        PlayerGameInfo::Status(GameStatus::NotPlayed) => GameView::NotPlayed,
        PlayerGameInfo::Status(GameStatus::Played(points)) => GameView::Played(points),
        PlayerGameInfo::Fixture(fixture) => GameView::Fixture(fixture@),
        PlayerGameInfo::FreeText(text) => GameView::FreeText(text@),
    }
}

/// Whether a game lights a card's status row: a played game, or free text.
pub open spec fn game_is_active(g: PlayerGameInfo) -> bool {
    match g {
        PlayerGameInfo::Status(GameStatus::Played(_)) => true,
        PlayerGameInfo::FreeText(_) => true,
        _ => false,
    }
}

impl PlayerGameInfo {
    pub fn pretty_str(&self) -> (s: String)
        ensures
            s@ == game_text(*self),
    {
        match self {
            PlayerGameInfo::Status(status) => match status {
                GameStatus::NotPlayed => {
                    proof { reveal_strlit("-"); }
                    String::from_str("-")
                },
                GameStatus::Played(points) => {
                    let mut s = String::new();
                    push_decimal(&mut s, *points as i64);
                    s.append(" pts");
                    s
                },
            },
            PlayerGameInfo::Fixture(fixture) => fixture.clone(),
            PlayerGameInfo::FreeText(text) => text.clone(),
        }
    }
}

/// A player as a card shows them, with the card's colours.
#[derive(Debug)]
pub struct PlayerInfo {
    pub name: String,
    pub code: u32,
    pub games: Vec<PlayerGameInfo>,
    pub captain: bool,
    pub vice_captain: bool,
    pub border_color: String,
    pub name_bg_color: String,
    pub name_text_color: String,
    pub status_active_bg_color: String,
    pub status_inactive_bg_color: String,
    pub status_text_color: String,
}

impl Clone for PlayerInfo {
    fn clone(&self) -> (c: Self)
        ensures
            c@ == self@,
    {
        let games = self.games.clone();
        proof {
            assert forall|i: int| 0 <= i < games.len() implies games[i] == self.games[i] by {
                assert(cloned::<PlayerGameInfo>(self.games[i], games[i]));
            }
            assert(games@ =~= self.games@);
        }
        PlayerInfo {
            name: self.name.clone(),
            code: self.code,
            games,
            captain: self.captain,
            vice_captain: self.vice_captain,
            border_color: self.border_color.clone(),
            name_bg_color: self.name_bg_color.clone(),
            name_text_color: self.name_text_color.clone(),
            status_active_bg_color: self.status_active_bg_color.clone(),
            status_inactive_bg_color: self.status_inactive_bg_color.clone(),
            status_text_color: self.status_text_color.clone(),
        }
    }
}

/// The card's colours: border, name background, name text, active and inactive status
/// background, and status text.
pub struct CardColours {
    pub border: Seq<char>,
    pub name_bg: Seq<char>,
    pub name_text: Seq<char>,
    pub status_active_bg: Seq<char>,
    pub status_inactive_bg: Seq<char>,
    pub status_text: Seq<char>,
}

/// The colours a new card has.
pub open spec fn default_card_colours() -> CardColours {
    CardColours {
        border: GREEN_COLOUR@,
        name_bg: WHITE_COLOUR@,
        name_text: PURPLE_COLOUR@,
        status_active_bg: PURPLE_COLOUR@,
        status_inactive_bg: GREY_COLOUR@,
        status_text: WHITE_COLOUR@,
    }
}

/// What a card shows, as plain values.
pub struct PlayerCard {
    pub name: Seq<char>,
    pub code: u32,
    pub games: Seq<PlayerGameInfo>,
    pub captain: bool,
    pub vice_captain: bool,
    pub colours: CardColours,
}

impl View for PlayerInfo {
    type V = PlayerCard;

    open spec fn view(&self) -> PlayerCard {
        PlayerCard {
            name: self.name@,
            code: self.code,
            games: self.games@,
            captain: self.captain,
            vice_captain: self.vice_captain,
            colours: CardColours {
                border: self.border_color@,
                name_bg: self.name_bg_color@,
                name_text: self.name_text_color@,
                status_active_bg: self.status_active_bg_color@,
                status_inactive_bg: self.status_inactive_bg_color@,
                status_text: self.status_text_color@,
            },
        }
    }
}

/// A fresh card for the given player, in the default colours.
pub open spec fn new_card(
    name: Seq<char>,
    code: u32,
    games: Seq<PlayerGameInfo>,
    captain: bool,
    vice_captain: bool,
) -> PlayerCard {
    PlayerCard { name, code, games, captain, vice_captain, colours: default_card_colours() }
}

impl PlayerInfo {
    pub fn new(
        name: String,
        code: u32,
        games: Vec<PlayerGameInfo>,
        captain: bool,
        vice_captain: bool,
    ) -> (p: Self)
        ensures
            p@ == new_card(name@, code, games@, captain, vice_captain),
    {
        Self {
            name,
            code,
            games,
            captain,
            vice_captain,
            border_color: GREEN_COLOUR.to_owned(),
            name_bg_color: WHITE_COLOUR.to_owned(),
            name_text_color: PURPLE_COLOUR.to_owned(),
            status_active_bg_color: PURPLE_COLOUR.to_owned(),
            status_inactive_bg_color: GREY_COLOUR.to_owned(),
            status_text_color: WHITE_COLOUR.to_owned(),
        }
    }

    pub fn border_color(&mut self, color: String) -> (r: &mut Self)
        ensures
            r@ == (PlayerCard { colours: CardColours { border: color@, ..old(self)@.colours }, ..old(self)@ }),
            *final(self) == *final(r),
    {
        self.border_color = color;
        self
    }

    pub fn name_bg_color(&mut self, color: String) -> (r: &mut Self)
        ensures
            r@ == (PlayerCard { colours: CardColours { name_bg: color@, ..old(self)@.colours }, ..old(self)@ }),
            *final(self) == *final(r),
    {
        self.name_bg_color = color;
        self
    }

    pub fn name_text_color(&mut self, color: String) -> (r: &mut Self)
        ensures
            r@ == (PlayerCard { colours: CardColours { name_text: color@, ..old(self)@.colours }, ..old(self)@ }),
            *final(self) == *final(r),
    {
        self.name_text_color = color;
        self
    }

    pub fn status_active_bg_color(&mut self, color: String) -> (r: &mut Self)
        ensures
            r@ == (PlayerCard { colours: CardColours { status_active_bg: color@, ..old(self)@.colours }, ..old(self)@ }),
            *final(self) == *final(r),
    {
        self.status_active_bg_color = color;
        self
    }

    pub fn status_inactive_bg_color(&mut self, color: String) -> (r: &mut Self)
        ensures
            r@ == (PlayerCard { colours: CardColours { status_inactive_bg: color@, ..old(self)@.colours }, ..old(self)@ }),
            *final(self) == *final(r),
    {
        self.status_inactive_bg_color = color;
        self
    }

    pub fn status_text_color(&mut self, color: String) -> (r: &mut Self)
        ensures
            r@ == (PlayerCard { colours: CardColours { status_text: color@, ..old(self)@.colours }, ..old(self)@ }),
            *final(self) == *final(r),
    {
        self.status_text_color = color;
        self
    }

    /// The colour of the card's border.
    pub fn border(&self) -> (s: &str)
        ensures
            s@ == self@.colours.border,
    {
        self.border_color.as_str()
    }

    /// The background colour of the name row.
    pub fn name_background(&self) -> (s: &str)
        ensures
            s@ == self@.colours.name_bg,
    {
        self.name_bg_color.as_str()
    }

    /// The colour of the name.
    pub fn name_colour(&self) -> (s: &str)
        ensures
            s@ == self@.colours.name_text,
    {
        self.name_text_color.as_str()
    }

    /// The colour of the status text.
    pub fn status_colour(&self) -> (s: &str)
        ensures
            s@ == self@.colours.status_text,
    {
        self.status_text_color.as_str()
    }

    /// The name row of the card: the name, marked `(C)` for the captain or `(VC)` for the
    /// vice captain.
    pub fn display_name(&self) -> (s: String)
        ensures
            s@ == card_name(self@),
    {
        let mut s = self.name.clone();
        if self.captain {
            s.append(" (C)");
        } else if self.vice_captain {
            s.append(" (VC)");
        }
        s
    }

    /// The status row of the card: the text of each game, separated by `, `.
    pub fn status_text(&self) -> (s: String)
        ensures
            s@ == card_status_text(self@),
    {
        let mut s = String::new();
        let mut i: usize = 0;
        while i < self.games.len()
            invariant
                0 <= i <= self.games.len(),
                s@ == joined(self.games@.take(i as int).map_values(|g: PlayerGameInfo| game_text(g)), ", "@),
            decreases self.games.len() - i,
        {
            let ghost before = self.games@.take(i as int).map_values(|g: PlayerGameInfo| game_text(g));
            let ghost after = self.games@.take(i + 1).map_values(|g: PlayerGameInfo| game_text(g));
            assert(after.drop_last() =~= before);
            assert(after.last() == game_text(self.games@[i as int]));
            if i > 0 {
                s.append(", ");
            }
            let part = self.games[i].pretty_str();
            s.append(part.as_str());
            i = i + 1;
        }
        assert(self.games@.take(self.games.len() as int) =~= self.games@);
        s
    }

    /// The background of the status row: the active colour when some game was played or is
    /// free text, the inactive colour otherwise.
    pub fn status_background(&self) -> (s: String)
        ensures
            s@ == card_status_background(self@),
    {
        let mut i: usize = 0;
        while i < self.games.len()
            invariant
                0 <= i <= self.games.len(),
                forall|j: int| 0 <= j < i ==> !game_is_active(#[trigger] self.games@[j]),
            decreases self.games.len() - i,
        {
            let active = match &self.games[i] {
                PlayerGameInfo::Status(GameStatus::Played(_)) => true,
                PlayerGameInfo::FreeText(_) => true,
                _ => false,
            };
            if active {
                assert(game_is_active(self@.games[i as int]));
                return self.status_active_bg_color.clone();
            }
            i = i + 1;
        }
        self.status_inactive_bg_color.clone()
    }
}

/// The name row of a card.
pub open spec fn card_name(p: PlayerCard) -> Seq<char> {
    if p.captain {
        p.name + " (C)"@
    } else if p.vice_captain {
        p.name + " (VC)"@
    } else {
        p.name
    }
}

/// The status row of a card.
pub open spec fn card_status_text(p: PlayerCard) -> Seq<char> {
    joined(p.games.map_values(|g: PlayerGameInfo| game_text(g)), ", "@)
}

/// The background colour of a card's status row.
pub open spec fn card_status_background(p: PlayerCard) -> Seq<char> {
    if exists|j: int| 0 <= j < p.games.len() && game_is_active(#[trigger] p.games[j]) {
        p.colours.status_active_bg
    } else {
        p.colours.status_inactive_bg
    }
}

/// A card's status row takes the active colour as soon as any one of its games, wherever it
/// stands in the list, was played or is free text.
pub proof fn lemma_status_active_when_any_game_active(p: PlayerCard, j: int)
    requires
        0 <= j < p.games.len(),
        p.games[j] matches PlayerGameInfo::Status(GameStatus::Played(_)) || p.games[j] is FreeText,
    ensures
        card_status_background(p) == p.colours.status_active_bg,
{
    assert(game_is_active(p.games[j]));
}

/// A card's status row takes the inactive colour when none of its games was played or is
/// free text: every game is an upcoming fixture or was not played.
pub proof fn lemma_status_inactive_when_no_game_active(p: PlayerCard)
    requires
        forall|j: int|
            0 <= j < p.games.len() ==> (#[trigger] p.games[j] is Fixture || p.games[j] matches PlayerGameInfo::Status(
                GameStatus::NotPlayed,
            )),
    ensures
        card_status_background(p) == p.colours.status_inactive_bg,
{
    assert forall|j: int| 0 <= j < p.games.len() implies !game_is_active(#[trigger] p.games[j]) by {
        assert(p.games[j] is Fixture || p.games[j] matches PlayerGameInfo::Status(GameStatus::NotPlayed));
    }
}

/// The heights of a card's photo and of each of its two text rows: the photo takes two
/// thirds of the card and the rows share the rest.
pub fn card_row_heights(height: u32) -> (r: (u32, u32))
    requires
        height * 2 <= u32::MAX,
    ensures
        r.0 == height * 2 / 3,
        r.1 == (height - r.0) / 2,
{
    let image_height = height * 2 / 3;
    let text_row_height = (height - image_height) / 2;
    (image_height, text_row_height)
}

} // verus!
