//! The merge of custom entries into the detected games.

use vstd::prelude::*;
use crate::model::{
    copy_game, copy_text, found_view, games_view, match_view, text, texts_view, Config,
    ConfigView, EntryView, Game, GameView,
};
use crate::paths::{box_art_override, recorded_box_art};

verus! {

/// The first game of the list with the given title, if there is one.
pub open spec fn first_match(detected: Seq<GameView>, title: Seq<char>) -> Option<GameView>
    decreases detected.len(),
{
    if detected.len() == 0 {
        None
    } else if detected.first().title == title {
        Some(detected.first())
    } else {
        first_match(detected.drop_first(), title)
    }
}

/// Whether some game of the list has the given title.
pub open spec fn titled(games: Seq<GameView>, title: Seq<char>) -> bool {
    exists|i: int| 0 <= i < games.len() && #[trigger] games[i].title == title
}

/// The game that an entry stands for, given the detected game it matches (if
/// any), its title, its launch command and game directory as written, and its
/// box art as recorded. With a match, each field is the entry's where the
/// entry has one and the matched game's otherwise. Without a match the entry
/// stands only if it has all three fields.
pub open spec fn resolve(
    matching: Option<GameView>,
    title: Seq<char>,
    launch_command: Option<Seq<char>>,
    box_art: Option<Seq<char>>,
    game_dir: Option<Seq<char>>,
) -> Option<GameView> {
    match matching {
        Some(g) => Some(
            GameView {
                title,
                launch_command: match launch_command {
                    Some(l) => l,
                    None => g.launch_command,
                },
                path_box_art: if box_art is Some { box_art } else { g.path_box_art },
                path_game_dir: if game_dir is Some { game_dir } else { g.path_game_dir },
            },
        ),
        None => if launch_command is Some && box_art is Some && game_dir is Some {
            Some(
                GameView {
                    title,
                    launch_command: launch_command->0,
                    path_box_art: box_art,
                    path_game_dir: game_dir,
                },
            )
        } else {
            None
        },
    }
}

/// The game that an entry of the configuration stands for among the detected
/// games, or `None` where the entry is rejected.
pub open spec fn resolved(detected: Seq<GameView>, base: Option<Seq<char>>, e: EntryView) -> Option<GameView> {
    resolve(
        first_match(detected, e.title),
        e.title,
        e.launch_command,
        recorded_box_art(e.path_box_art, base),
        e.path_game_dir,
    )
}

/// `resolved` as a function of the entry.
pub open spec fn resolver(detected: Seq<GameView>, base: Option<Seq<char>>) -> spec_fn(EntryView) -> Option<GameView> {
    |e: EntryView| resolved(detected, base, e)
}

/// The title of an entry that is rejected, `None` for one that stands.
pub open spec fn rejecter(detected: Seq<GameView>, base: Option<Seq<char>>) -> spec_fn(EntryView) -> Option<Seq<char>> {
    |e: EntryView| if resolved(detected, base, e) is None { Some(e.title) } else { None }
}

/// Whether a detected game stays beside the given custom games: it does
/// unless one of them has its title.
pub open spec fn keeper(customs: Seq<GameView>) -> spec_fn(GameView) -> bool {
    |g: GameView| !titled(customs, g.title)
}

/// The custom games: what the entries that stand resolve to, in the order of
/// the configuration.
pub open spec fn custom_games(detected: Seq<GameView>, config: ConfigView) -> Seq<GameView> {
    config.entries.filter_map(resolver(detected, config.box_art_dir))
}

/// The titles of the rejected entries, in the order of the configuration.
pub open spec fn rejected_titles(detected: Seq<GameView>, config: ConfigView) -> Seq<Seq<char>> {
    config.entries.filter_map(rejecter(detected, config.box_art_dir))
}

/// The merged list: every detected game whose title no custom game has, in
/// the detected order, then the custom games.
pub open spec fn merged(detected: Seq<GameView>, config: ConfigView) -> Seq<GameView> {
    let customs = custom_games(detected, config);
    detected.filter(keeper(customs)) + customs
}

/// A game whose title is `title` and before which no game has that title is
/// the first match.
pub proof fn lemma_first_match_at(detected: Seq<GameView>, title: Seq<char>, i: int)
    requires
        0 <= i < detected.len(),
        detected[i].title == title,
        forall|j: int| 0 <= j < i ==> (#[trigger] detected[j]).title != title,
    ensures
        first_match(detected, title) == Some(detected[i]),
    decreases i,
{
    if i > 0 {
        let rest = detected.drop_first();
        assert(detected[0].title != title);
        assert forall|j: int| 0 <= j < i - 1 implies (#[trigger] rest[j]).title != title by {
            assert(rest[j] == detected[j + 1]);
        }
        lemma_first_match_at(rest, title, i - 1);
    }
}

/// There is a first match exactly when some game has the title, and the
/// first match has the title and is one of the games.
pub proof fn lemma_first_match_titled(detected: Seq<GameView>, title: Seq<char>)
    ensures
        first_match(detected, title) is Some <==> titled(detected, title),
        first_match(detected, title) matches Some(g) ==> g.title == title && detected.contains(g),
    decreases detected.len(),
{
    if detected.len() > 0 {
        let rest = detected.drop_first();
        lemma_first_match_titled(rest, title);
        if detected.first().title == title {
            assert(detected[0].title == title);
        } else {
            if titled(rest, title) {
                let i = choose|i: int| 0 <= i < rest.len() && #[trigger] rest[i].title == title;
                assert(detected[i + 1].title == title);
                let g = first_match(rest, title)->0;
                let k = choose|k: int| 0 <= k < rest.len() && rest[k] == g;
                assert(detected[k + 1] == g);
            }
            if titled(detected, title) {
                let i = choose|i: int| 0 <= i < detected.len() && #[trigger] detected[i].title == title;
                assert(rest[i - 1].title == title);
            }
        }
    }
}

/// The index of the first game with the given title.
pub fn find_match(detected: &Vec<Game>, title: &String) -> (r: Option<usize>)
    ensures
        match r {
            Some(k) => k < detected.len() && detected@[k as int].title@ == title@
                && (forall|j: int| 0 <= j < k ==> (#[trigger] detected@[j]).title@ != title@)
                && first_match(games_view(detected@), title@) == Some(detected@[k as int]@),
            None => (forall|j: int| 0 <= j < detected.len() ==> (#[trigger] detected@[j]).title@ != title@)
                && first_match(games_view(detected@), title@) is None,
        },
{
    let ghost dv = games_view(detected@);
    let mut k: usize = 0;
    while k < detected.len()
        invariant
            k <= detected.len(),
            dv == games_view(detected@),
            forall|j: int| 0 <= j < k ==> (#[trigger] detected@[j]).title@ != title@,
        decreases detected.len() - k,
    {
        if detected[k].title == *title {
            proof {
                assert forall|j: int| 0 <= j < k implies (#[trigger] dv[j]).title != title@ by {
                    assert(detected@[j].title@ != title@);
                }
                lemma_first_match_at(dv, title@, k as int);
            }
            return Some(k);
        }
        k += 1;
    }
    proof {
        lemma_first_match_titled(dv, title@);
        if titled(dv, title@) {
            let i = choose|i: int| 0 <= i < dv.len() && #[trigger] dv[i].title == title@;
            assert(detected@[i].title@ == title@);
        }
    }
    None
}

/// Whether some game of the list has the given title.
pub fn has_title(games: &Vec<Game>, title: &String) -> (r: bool)
    ensures
        r == titled(games_view(games@), title@),
{
    match find_match(games, title) {
        Some(k) => {
            proof {
                assert(games_view(games@)[k as int].title == title@);
            }
            true
        },
        None => {
            proof {
                lemma_first_match_titled(games_view(games@), title@);
            }
            false
        },
    }
}

/// Builds the game that an entry stands for, from the detected game it
/// matches (if any), its title, its launch command and game directory as
/// written, and its box art as recorded. Returns `None` exactly where there
/// is no match and one of the three fields is missing.
pub fn resolve_entry(
    matching: Option<&Game>,
    title: &String,
    launch_command: &Option<String>,
    path_box_art: Option<String>,
    path_game_dir: &Option<String>,
) -> (r: Option<Game>)
    ensures
        found_view(r) == resolve(
            match_view(matching),
            title@,
            text(*launch_command),
            text(path_box_art),
            text(*path_game_dir),
        ),
{
    match matching {
        Some(g) => {
            let launch = match launch_command {
                Some(l) => l.clone(),
                None => g.launch_command.clone(),
            };
            let art = match path_box_art {
                Some(p) => Some(p),
                None => copy_text(&g.path_box_art),
            };
            let dir = match path_game_dir {
                Some(d) => Some(d.clone()),
                None => copy_text(&g.path_game_dir),
            };
            Some(Game { title: title.clone(), launch_command: launch, path_box_art: art, path_game_dir: dir })
        },
        None => match (launch_command, path_box_art, path_game_dir) {
            (Some(l), Some(p), Some(d)) => Some(
                Game {
                    title: title.clone(),
                    launch_command: l.clone(),
                    path_box_art: Some(p),
                    path_game_dir: Some(d.clone()),
                },
            ),
            _ => None,
        },
    }
}

/// What a merge gives: the merged games, and the titles of the entries that
/// were rejected, for the caller to report.
#[derive(Debug, Clone, PartialEq, Eq)]
pub struct MergeReport {
    pub games: Vec<Game>,
    pub rejected: Vec<String>,
}

/// Merges the custom entries of a configuration into the detected games.
///
/// Each entry is resolved against the first detected game of its title. The
/// result holds the detected games whose title no resolved entry has, in
/// their order, then the resolved entries in the order of the configuration.
/// An entry that has no match and lacks a field is left out, and its title is
/// listed under `rejected`.
pub fn merge_entries(detected: &Vec<Game>, config: &Config) -> (out: MergeReport)
    ensures
        games_view(out.games@) == merged(games_view(detected@), config@),
        texts_view(out.rejected@) == rejected_titles(games_view(detected@), config@),
{
    let ghost dv = games_view(detected@);
    let ghost cv = config@;
    let mut customs: Vec<Game> = Vec::new();
    let mut rejected: Vec<String> = Vec::new();
    let mut i: usize = 0;
    while i < config.entries.len()
        invariant
            i <= config.entries.len(),
            dv == games_view(detected@),
            cv == config@,
            games_view(customs@) =~= cv.entries.take(i as int).filter_map(resolver(dv, cv.box_art_dir)),
            texts_view(rejected@) =~= cv.entries.take(i as int).filter_map(rejecter(dv, cv.box_art_dir)),
        decreases config.entries.len() - i,
    {
        let entry = &config.entries[i];
        let matching = match find_match(detected, &entry.title) {
            Some(k) => Some(&detected[k]),
            None => None,
        };
        let art = box_art_override(&entry.path_box_art, &config.box_art_dir);
        let game = resolve_entry(matching, &entry.title, &entry.launch_command, art, &entry.path_game_dir);
        proof {
            assert(cv.entries[i as int] == entry@);
            assert(found_view(game) == resolved(dv, cv.box_art_dir, entry@));
            cv.entries.lemma_filter_map_take_succ(resolver(dv, cv.box_art_dir), i as int);
            cv.entries.lemma_filter_map_take_succ(rejecter(dv, cv.box_art_dir), i as int);
        }
        match game {
            Some(g) => customs.push(g),
            None => rejected.push(entry.title.clone()),
        }
        i += 1;
    }
    proof {
        assert(cv.entries.take(i as int) =~= cv.entries);
    }
    let ghost cs = games_view(customs@);
    let mut games: Vec<Game> = Vec::new();
    let mut n: usize = 0;
    while n < detected.len()
        invariant
            n <= detected.len(),
            dv == games_view(detected@),
            cs == games_view(customs@),
            games_view(games@) =~= dv.take(n as int).filter(keeper(cs)),
        decreases detected.len() - n,
    {
        let g = &detected[n];
        let replaced = has_title(&customs, &g.title);
        proof {
            assert(dv.take(n as int + 1) =~= dv.take(n as int).push(dv[n as int]));
            dv.take(n as int).lemma_filter_push(dv[n as int], keeper(cs));
        }
        if !replaced {
            games.push(copy_game(g));
        }
        n += 1;
    }
    proof {
        assert(dv.take(n as int) =~= dv);
    }
    games.append(&mut customs);
    proof {
        assert(games_view(games@) =~= dv.filter(keeper(cs)) + cs);
    }
    MergeReport { games, rejected }
}

/// Merges the custom entries of a configuration into the detected games and
/// returns the merged list alone.
pub fn add_custom_entries(detected: &Vec<Game>, config: &Config) -> (games: Vec<Game>)
    ensures
        games_view(games@) == merged(games_view(detected@), config@),
{
    merge_entries(detected, config).games
}

} // verus!
