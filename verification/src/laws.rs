//! What holds of every merge.

use vstd::prelude::*;
use crate::model::{ConfigView, EntryView, GameView};
use crate::merge::{
    custom_games, first_match, keeper, lemma_first_match_titled, merged, rejected_titles, rejecter,
    resolved, resolver, titled,
};
use crate::paths::placed;

verus! {

/// Whether an entry overrides nothing: it has a title and no other field.
pub open spec fn bare(e: EntryView) -> bool {
    e.launch_command is None && e.path_box_art is None && e.path_game_dir is None
}

/// Whether an entry brings all three fields itself.
pub open spec fn complete(e: EntryView) -> bool {
    e.launch_command is Some && e.path_box_art is Some && e.path_game_dir is Some
}

/// An entry that stands resolves to a game of its own title.
pub proof fn lemma_resolved_title(detected: Seq<GameView>, base: Option<Seq<char>>, e: EntryView)
    ensures
        resolved(detected, base, e) matches Some(g) ==> g.title == e.title,
{
}

/// Each custom game is what some entry of the configuration resolves to.
pub proof fn lemma_custom_origin(detected: Seq<GameView>, config: ConfigView, x: GameView)
    requires
        custom_games(detected, config).contains(x),
    ensures
        exists|j: int|
            0 <= j < config.entries.len() && #[trigger] resolved(
                detected,
                config.box_art_dir,
                config.entries[j],
            ) == Some(x),
{
    let f = resolver(detected, config.box_art_dir);
    config.entries.lemma_filter_map_contains(f, x);
    let t = choose|t: EntryView| #[trigger] config.entries.contains(t) && f(t) == Some(x);
    let j = choose|j: int| 0 <= j < config.entries.len() && config.entries[j] == t;
    assert(resolved(detected, config.box_art_dir, config.entries[j]) == Some(x));
}

/// What an element maps to is among the mapped elements that were kept.
proof fn lemma_filter_map_holds<A, B>(s: Seq<A>, f: spec_fn(A) -> Option<B>, k: int, x: B)
    requires
        0 <= k < s.len(),
        f(s[k]) == Some(x),
    ensures
        s.filter_map(f).contains(x),
    decreases s.len(),
{
    let rest = s.drop_last();
    let out = rest.filter_map(f);
    if k == s.len() - 1 {
        assert((out + seq![x])[out.len() as int] == x);
    } else {
        lemma_filter_map_holds(rest, f, k, x);
        let i = choose|i: int| 0 <= i < out.len() && out[i] == x;
        match f(s.last()) {
            Some(y) => {
                assert((out + seq![y])[i] == x);
            },
            None => {},
        }
    }
}

/// What an entry that stands resolves to is one of the custom games.
pub proof fn lemma_custom_present(detected: Seq<GameView>, config: ConfigView, k: int)
    requires
        0 <= k < config.entries.len(),
        resolved(detected, config.box_art_dir, config.entries[k]) is Some,
    ensures
        custom_games(detected, config).contains(
            resolved(detected, config.box_art_dir, config.entries[k])->0,
        ),
{
    let f = resolver(detected, config.box_art_dir);
    lemma_filter_map_holds(config.entries, f, k, f(config.entries[k])->0);
}

/// Each game of the merged list is a detected game whose title no custom
/// game has, or a custom game.
pub proof fn lemma_merged_origin(detected: Seq<GameView>, config: ConfigView, i: int)
    requires
        0 <= i < merged(detected, config).len(),
    ensures
        (detected.contains(merged(detected, config)[i]) && !titled(
            custom_games(detected, config),
            merged(detected, config)[i].title,
        )) || custom_games(detected, config).contains(merged(detected, config)[i]),
{
    let customs = custom_games(detected, config);
    let kept = detected.filter(keeper(customs));
    let x = merged(detected, config)[i];
    if i < kept.len() {
        assert(kept[i] == x);
        detected.lemma_filter_pred(keeper(customs), i);
        assert(kept.contains(x));
        detected.lemma_filter_contains_rev(keeper(customs), x);
    } else {
        assert(customs[i - kept.len()] == x);
    }
}

/// A custom game is in the merged list.
pub proof fn lemma_custom_merged(detected: Seq<GameView>, config: ConfigView, x: GameView)
    requires
        custom_games(detected, config).contains(x),
    ensures
        merged(detected, config).contains(x),
{
    let customs = custom_games(detected, config);
    let kept = detected.filter(keeper(customs));
    let i = choose|i: int| 0 <= i < customs.len() && customs[i] == x;
    assert(merged(detected, config)[kept.len() + i] == x);
}

/// A filter that every element passes changes nothing.
proof fn lemma_filter_all<A>(s: Seq<A>, pred: spec_fn(A) -> bool)
    requires
        forall|i: int| 0 <= i < s.len() ==> pred(#[trigger] s[i]),
    ensures
        s.filter(pred) == s,
    decreases s.len(),
{
    reveal(Seq::filter);
    if s.len() > 0 {
        let rest = s.drop_last();
        assert forall|i: int| 0 <= i < rest.len() implies pred(#[trigger] rest[i]) by {
            assert(rest[i] == s[i]);
        }
        lemma_filter_all(rest, pred);
        assert(rest.push(s.last()) =~= s);
    }
}

/// Where no entry stands, whether because the configuration lists none or
/// because each one is rejected, the merged list is the detected list, in
/// its order.
pub proof fn law_nothing_custom_changes_nothing(detected: Seq<GameView>, config: ConfigView)
    requires
        forall|j: int|
            0 <= j < config.entries.len() ==> #[trigger] resolved(
                detected,
                config.box_art_dir,
                config.entries[j],
            ) is None,
    ensures
        merged(detected, config) == detected,
{
    let customs = custom_games(detected, config);
    if customs.len() > 0 {
        assert(customs.contains(customs[0]));
        lemma_custom_origin(detected, config, customs[0]);
    }
    assert(customs =~= Seq::<GameView>::empty());
    lemma_filter_all(detected, keeper(customs));
    assert(detected + customs =~= detected);
}

/// Merging a configuration without entries, whatever its box art directory,
/// gives the detected list unchanged, and rejects nothing.
pub proof fn law_empty_config_is_identity(detected: Seq<GameView>, config: ConfigView)
    requires
        config.entries.len() == 0,
    ensures
        merged(detected, config) == detected,
        rejected_titles(detected, config).len() == 0,
{
    law_nothing_custom_changes_nothing(detected, config);
}

/// An entry that overrides nothing and matches a detected game resolves to
/// the first detected game of its title, and that game is in the merged list.
/// Where every entry of that title overrides nothing, each game of the merged
/// list with that title is that game.
pub proof fn law_bare_entry_keeps_match(detected: Seq<GameView>, config: ConfigView, k: int)
    requires
        0 <= k < config.entries.len(),
        bare(config.entries[k]),
        first_match(detected, config.entries[k].title) is Some,
    ensures
        resolved(detected, config.box_art_dir, config.entries[k]) == first_match(
            detected,
            config.entries[k].title,
        ),
        merged(detected, config).contains(first_match(detected, config.entries[k].title)->0),
        (forall|j: int|
            0 <= j < config.entries.len() && (#[trigger] config.entries[j]).title
                == config.entries[k].title ==> bare(config.entries[j])) ==> (forall|i: int|
            0 <= i < merged(detected, config).len() && (#[trigger] merged(detected, config)[i]).title
                == config.entries[k].title ==> merged(detected, config)[i] == first_match(
                detected,
                config.entries[k].title,
            )->0),
{
    let e = config.entries[k];
    let g = first_match(detected, e.title)->0;
    let customs = custom_games(detected, config);
    lemma_first_match_titled(detected, e.title);
    assert(resolved(detected, config.box_art_dir, e) == Some(g));
    lemma_custom_present(detected, config, k);
    lemma_custom_merged(detected, config, g);
    let at = choose|at: int| 0 <= at < customs.len() && customs[at] == g;
    assert(customs[at].title == e.title);
    if forall|j: int|
        0 <= j < config.entries.len() && (#[trigger] config.entries[j]).title == e.title ==> bare(
            config.entries[j],
        ) {
        assert forall|i: int|
            0 <= i < merged(detected, config).len() && (#[trigger] merged(detected, config)[i]).title
                == e.title implies merged(detected, config)[i] == g by {
            let x = merged(detected, config)[i];
            lemma_merged_origin(detected, config, i);
            lemma_custom_origin(detected, config, x);
            let j = choose|j: int|
                0 <= j < config.entries.len() && #[trigger] resolved(
                    detected,
                    config.box_art_dir,
                    config.entries[j],
                ) == Some(x);
            assert(config.entries[j].title == e.title);
            assert(bare(config.entries[j]));
        }
    }
}

/// Where an entry stands, every detected game of its title is replaced: each
/// game of the merged list with that title is a custom game, however many
/// detected games had the title.
pub proof fn law_standing_entry_replaces_its_title(
    detected: Seq<GameView>,
    config: ConfigView,
    k: int,
    i: int,
)
    requires
        0 <= k < config.entries.len(),
        resolved(detected, config.box_art_dir, config.entries[k]) is Some,
        0 <= i < merged(detected, config).len(),
        merged(detected, config)[i].title == config.entries[k].title,
    ensures
        detected.filter(keeper(custom_games(detected, config))).len() <= i,
        custom_games(detected, config).contains(merged(detected, config)[i]),
{
    let customs = custom_games(detected, config);
    let kept = detected.filter(keeper(customs));
    let r = resolved(detected, config.box_art_dir, config.entries[k])->0;
    lemma_custom_present(detected, config, k);
    let at = choose|at: int| 0 <= at < customs.len() && customs[at] == r;
    assert(customs[at].title == config.entries[k].title);
    if i < kept.len() {
        assert(kept[i] == merged(detected, config)[i]);
        detected.lemma_filter_pred(keeper(customs), i);
    } else {
        assert(customs[i - kept.len()] == merged(detected, config)[i]);
    }
}

/// A detected game whose title no standing entry has stays in the merged list.
pub proof fn law_untouched_game_stays(detected: Seq<GameView>, config: ConfigView, d: int)
    requires
        0 <= d < detected.len(),
        forall|j: int|
            0 <= j < config.entries.len() && #[trigger] resolved(
                detected,
                config.box_art_dir,
                config.entries[j],
            ) is Some ==> config.entries[j].title != detected[d].title,
    ensures
        merged(detected, config).contains(detected[d]),
{
    let customs = custom_games(detected, config);
    let kept = detected.filter(keeper(customs));
    if titled(customs, detected[d].title) {
        let c = choose|c: int| 0 <= c < customs.len() && #[trigger] customs[c].title == detected[d].title;
        assert(customs.contains(customs[c]));
        lemma_custom_origin(detected, config, customs[c]);
    }
    detected.lemma_filter_contains(keeper(customs), d);
    let at = choose|at: int| 0 <= at < kept.len() && kept[at] == detected[d];
    assert(merged(detected, config)[at] == detected[d]);
}

/// Whether the game at index `i` is the only one of the list with the title.
pub open spec fn sole_at(games: Seq<GameView>, i: int, title: Seq<char>) -> bool {
    &&& 0 <= i < games.len()
    &&& games[i].title == title
    &&& forall|m: int| 0 <= m < games.len() && (#[trigger] games[m]).title == title ==> m == i
}

/// Whether the entry at index `k` is the only one of the list with its title.
pub open spec fn sole_entry(entries: Seq<EntryView>, k: int) -> bool {
    &&& 0 <= k < entries.len()
    &&& forall|j: int|
        0 <= j < entries.len() && (#[trigger] entries[j]).title == entries[k].title ==> j == k
}

/// Among the games that a list of entries resolves to, the one that comes
/// from the only entry of its title is the only game of that title.
proof fn lemma_sole_custom(
    detected: Seq<GameView>,
    base: Option<Seq<char>>,
    entries: Seq<EntryView>,
    k: int,
)
    requires
        sole_entry(entries, k),
        resolved(detected, base, entries[k]) is Some,
    ensures
        exists|i: int|
            #[trigger] sole_at(entries.filter_map(resolver(detected, base)), i, entries[k].title)
                && entries.filter_map(resolver(detected, base))[i] == resolved(
                detected,
                base,
                entries[k],
            )->0,
    decreases entries.len(),
{
    let f = resolver(detected, base);
    let t = entries[k].title;
    let r = resolved(detected, base, entries[k])->0;
    let rest = entries.drop_last();
    let before = rest.filter_map(f);
    let out = entries.filter_map(f);
    if k == entries.len() - 1 {
        assert(out =~= before + seq![r]);
        assert forall|m: int| 0 <= m < before.len() implies (#[trigger] before[m]).title != t by {
            assert(before.contains(before[m]));
            rest.lemma_filter_map_contains(f, before[m]);
            let s = choose|s: EntryView| #[trigger] rest.contains(s) && f(s) == Some(before[m]);
            let j = choose|j: int| 0 <= j < rest.len() && rest[j] == s;
            assert(entries[j] == s);
        }
        assert(sole_at(out, before.len() as int, t));
    } else {
        assert(rest[k] == entries[k]);
        assert forall|j: int| 0 <= j < rest.len() && (#[trigger] rest[j]).title == rest[k].title implies j
            == k by {
            assert(entries[j] == rest[j]);
        }
        lemma_sole_custom(detected, base, rest, k);
        let i = choose|i: int| #[trigger] sole_at(before, i, t) && before[i] == r;
        assert(entries[entries.len() - 1].title != t);
        match f(entries.last()) {
            Some(y) => {
                assert(out =~= before + seq![y]);
                assert(y.title != t);
            },
            None => {
                assert(out =~= before);
            },
        }
        assert forall|m: int| 0 <= m < out.len() && (#[trigger] out[m]).title == t implies m == i by {
            if m < before.len() {
                assert(before[m] == out[m]);
            }
        }
        assert(out[i] == before[i]);
        assert(sole_at(out, i, t));
    }
}

/// An entry that stands and is the only entry of its title gives the one
/// game of that title in the merged list.
pub proof fn law_sole_entry_sole_game(detected: Seq<GameView>, config: ConfigView, k: int)
    requires
        sole_entry(config.entries, k),
        resolved(detected, config.box_art_dir, config.entries[k]) is Some,
    ensures
        exists|i: int|
            #[trigger] sole_at(merged(detected, config), i, config.entries[k].title) && merged(
                detected,
                config,
            )[i] == resolved(detected, config.box_art_dir, config.entries[k])->0,
{
    let t = config.entries[k].title;
    let r = resolved(detected, config.box_art_dir, config.entries[k])->0;
    let customs = custom_games(detected, config);
    let kept = detected.filter(keeper(customs));
    let out = merged(detected, config);
    lemma_sole_custom(detected, config.box_art_dir, config.entries, k);
    let i = choose|i: int| #[trigger] sole_at(customs, i, t) && customs[i] == r;
    assert(customs[i].title == t);
    assert forall|m: int| 0 <= m < out.len() && (#[trigger] out[m]).title == t implies m == kept.len()
        + i by {
        if m < kept.len() {
            assert(kept[m] == out[m]);
            detected.lemma_filter_pred(keeper(customs), m);
        } else {
            assert(customs[m - kept.len()] == out[m]);
        }
    }
    assert(out[kept.len() + i] == r);
    assert(sole_at(out, kept.len() + i, t));
}

/// An entry that matches no detected game and brings all three fields
/// resolves to a game of exactly those fields, the box art placed against the
/// base directory, and that game is in the merged list. Where no other entry
/// has its title, it is the only game of that title in the merged list.
pub proof fn law_complete_entry_is_added(detected: Seq<GameView>, config: ConfigView, k: int)
    requires
        0 <= k < config.entries.len(),
        complete(config.entries[k]),
        first_match(detected, config.entries[k].title) is None,
    ensures
        resolved(detected, config.box_art_dir, config.entries[k]) == Some(
            GameView {
                title: config.entries[k].title,
                launch_command: config.entries[k].launch_command->0,
                path_box_art: Some(placed(config.entries[k].path_box_art->0, config.box_art_dir)),
                path_game_dir: config.entries[k].path_game_dir,
            },
        ),
        merged(detected, config).contains(
            resolved(detected, config.box_art_dir, config.entries[k])->0,
        ),
        sole_entry(config.entries, k) ==> exists|i: int|
            #[trigger] sole_at(merged(detected, config), i, config.entries[k].title) && merged(
                detected,
                config,
            )[i] == resolved(detected, config.box_art_dir, config.entries[k])->0,
{
    lemma_custom_present(detected, config, k);
    lemma_custom_merged(
        detected,
        config,
        resolved(detected, config.box_art_dir, config.entries[k])->0,
    );
    if sole_entry(config.entries, k) {
        law_sole_entry_sole_game(detected, config, k);
    }
}

/// An entry that matches no detected game and lacks a field is rejected: it
/// resolves to nothing and its title is reported. Where every entry of that
/// title is rejected, no game of the merged list has that title.
pub proof fn law_incomplete_entry_is_rejected(detected: Seq<GameView>, config: ConfigView, k: int)
    requires
        0 <= k < config.entries.len(),
        !complete(config.entries[k]),
        first_match(detected, config.entries[k].title) is None,
    ensures
        resolved(detected, config.box_art_dir, config.entries[k]) is None,
        rejected_titles(detected, config).contains(config.entries[k].title),
        (forall|j: int|
            0 <= j < config.entries.len() && (#[trigger] config.entries[j]).title
                == config.entries[k].title ==> resolved(
                detected,
                config.box_art_dir,
                config.entries[j],
            ) is None) ==> !titled(merged(detected, config), config.entries[k].title),
{
    let e = config.entries[k];
    let out = merged(detected, config);
    lemma_filter_map_holds(config.entries, rejecter(detected, config.box_art_dir), k, e.title);
    lemma_first_match_titled(detected, e.title);
    if (forall|j: int|
        0 <= j < config.entries.len() && (#[trigger] config.entries[j]).title == e.title
            ==> resolved(detected, config.box_art_dir, config.entries[j]) is None) && titled(
        out,
        e.title,
    ) {
        let i = choose|i: int| 0 <= i < out.len() && #[trigger] out[i].title == e.title;
        let x = out[i];
        lemma_merged_origin(detected, config, i);
        if custom_games(detected, config).contains(x) {
            lemma_custom_origin(detected, config, x);
            let j = choose|j: int|
                0 <= j < config.entries.len() && #[trigger] resolved(
                    detected,
                    config.box_art_dir,
                    config.entries[j],
                ) == Some(x);
            assert(config.entries[j].title == e.title);
        } else {
            let d = choose|d: int| 0 <= d < detected.len() && detected[d] == x;
            assert(detected[d].title == e.title);
        }
    }
}

} // verus!
