//! The records the merge works on, and their mathematical views.

use vstd::prelude::*;

verus! {

/// A game as the launcher lists it.
#[derive(Debug, Clone, PartialEq, Eq)]
pub struct Game {
    pub title: String,
    pub launch_command: String,
    pub path_box_art: Option<String>,
    pub path_game_dir: Option<String>,
}

/// A custom entry of the configuration: a title, and up to three fields that
/// override or complete a detected game of that title.
#[derive(Debug, Clone, PartialEq, Eq)]
pub struct ConfigEntry {
    pub title: String,
    pub launch_command: Option<String>,
    pub path_box_art: Option<String>,
    pub path_game_dir: Option<String>,
}

/// The parsed configuration: an optional base directory for box art and the
/// custom entries in the order in which the file lists them.
#[derive(Debug, Clone, PartialEq, Eq)]
pub struct Config {
    pub box_art_dir: Option<String>,
    pub entries: Vec<ConfigEntry>,
}

/// What a `Game` is to the contracts: its four fields as character sequences.
pub struct GameView {
    pub title: Seq<char>,
    pub launch_command: Seq<char>,
    pub path_box_art: Option<Seq<char>>,
    pub path_game_dir: Option<Seq<char>>,
}

/// What a `ConfigEntry` is to the contracts.
pub struct EntryView {
    pub title: Seq<char>,
    pub launch_command: Option<Seq<char>>,
    pub path_box_art: Option<Seq<char>>,
    pub path_game_dir: Option<Seq<char>>,
}

/// What a `Config` is to the contracts.
pub struct ConfigView {
    pub box_art_dir: Option<Seq<char>>,
    pub entries: Seq<EntryView>,
}

/// The characters of an optional string.
pub open spec fn text(o: Option<String>) -> Option<Seq<char>> {
    match o {
        Some(s) => Some(s@),
        None => None,
    }
}

impl View for Game {
    type V = GameView;

    open spec fn view(&self) -> GameView {
        GameView {
            title: self.title@,
            launch_command: self.launch_command@,
            path_box_art: text(self.path_box_art),
            path_game_dir: text(self.path_game_dir),
        }
    }
}

impl View for ConfigEntry {
    type V = EntryView;

    open spec fn view(&self) -> EntryView {
        EntryView {
            title: self.title@,
            launch_command: text(self.launch_command),
            path_box_art: text(self.path_box_art),
            path_game_dir: text(self.path_game_dir),
        }
    }
}

impl View for Config {
    type V = ConfigView;

    open spec fn view(&self) -> ConfigView {
        ConfigView { box_art_dir: text(self.box_art_dir), entries: entries_view(self.entries@) }
    }
}

/// The views of a list of games, in order.
pub open spec fn games_view(games: Seq<Game>) -> Seq<GameView> {
    Seq::new(games.len(), |i: int| games[i]@)
}

/// The views of a list of entries, in order.
pub open spec fn entries_view(entries: Seq<ConfigEntry>) -> Seq<EntryView> {
    Seq::new(entries.len(), |i: int| entries[i]@)
}

/// The characters of each string of a list, in order.
pub open spec fn texts_view(texts: Seq<String>) -> Seq<Seq<char>> {
    Seq::new(texts.len(), |i: int| texts[i]@)
}

/// The view of a game that may be absent.
pub open spec fn found_view(o: Option<Game>) -> Option<GameView> {
    match o {
        Some(g) => Some(g@),
        None => None,
    }
}

/// The view of a borrowed game that may be absent.
pub open spec fn match_view(o: Option<&Game>) -> Option<GameView> {
    match o {
        Some(g) => Some(g@),
        None => None,
    }
}

/// A copy of an optional string.
pub fn copy_text(o: &Option<String>) -> (r: Option<String>)
    ensures
        text(r) == text(*o),
{
    match o {
        Some(s) => Some(s.clone()),
        None => None,
    }
}

/// A copy of a game, field by field.
pub fn copy_game(g: &Game) -> (r: Game)
    ensures
        r@ == g@,
{
    Game {
        title: g.title.clone(),
        launch_command: g.launch_command.clone(),
        path_box_art: copy_text(&g.path_box_art),
        path_game_dir: copy_text(&g.path_game_dir),
    }
}

} // verus!
