use rofi_games::merge::{find_match, has_title, resolve_entry};
use rofi_games::model::{copy_game, copy_text};
use rofi_games::paths::{box_art_override, place_box_art};
use rofi_games::{add_custom_entries, get_regex, merge_entries, value_or_backup, Config, ConfigEntry, Game};

fn game(title: &str, launch: &str, art: Option<&str>, dir: Option<&str>) -> Game {
    Game {
        title: title.to_string(),
        launch_command: launch.to_string(),
        path_box_art: art.map(|s| s.to_string()),
        path_game_dir: dir.map(|s| s.to_string()),
    }
}

fn entry(title: &str, launch: Option<&str>, art: Option<&str>, dir: Option<&str>) -> ConfigEntry {
    ConfigEntry {
        title: title.to_string(),
        launch_command: launch.map(|s| s.to_string()),
        path_box_art: art.map(|s| s.to_string()),
        path_game_dir: dir.map(|s| s.to_string()),
    }
}

fn config(base: Option<&str>, entries: Vec<ConfigEntry>) -> Config {
    Config { box_art_dir: base.map(|s| s.to_string()), entries }
}

fn chess() -> Game {
    game("Chess", "chess.exe", Some("c.png"), Some("/games/chess"))
}

#[test]
fn override_of_launch_command_keeps_other_fields() {
    let detected = vec![chess()];
    let cfg = config(None, vec![entry("Chess", Some("chess2.exe"), None, None)]);
    let out = add_custom_entries(&detected, &cfg);
    assert_eq!(out, vec![game("Chess", "chess2.exe", Some("c.png"), Some("/games/chess"))]);
}

#[test]
fn entry_without_match_and_fields_is_rejected() {
    let detected: Vec<Game> = vec![];
    let cfg = config(None, vec![entry("Foo", None, None, None)]);
    let report = merge_entries(&detected, &cfg);
    assert_eq!(report.games, Vec::<Game>::new());
    assert_eq!(report.rejected, vec!["Foo".to_string()]);
    assert_eq!(add_custom_entries(&detected, &cfg), Vec::<Game>::new());
}

#[test]
fn custom_entry_replaces_every_game_of_its_title() {
    let detected = vec![
        game("Go", "steam-go", Some("/a/go.png"), Some("/steam/go")),
        game("Go", "lutris-go", Some("/b/go.png"), Some("/lutris/go")),
    ];
    let cfg = config(None, vec![entry("Go", Some("my-go"), Some("/c/go.png"), Some("/my/go"))]);
    let out = add_custom_entries(&detected, &cfg);
    assert_eq!(out, vec![game("Go", "my-go", Some("/c/go.png"), Some("/my/go"))]);
}

#[test]
fn empty_entry_list_returns_detected_unchanged() {
    let detected = vec![
        game("B", "b", None, Some("/b")),
        chess(),
        game("A", "a", Some("a.png"), None),
        game("B", "b2", None, None),
    ];
    let report = merge_entries(&detected, &config(None, vec![]));
    assert_eq!(report.games, detected);
    assert!(report.rejected.is_empty());
    let with_base = add_custom_entries(&detected, &config(Some("/covers"), vec![]));
    assert_eq!(with_base, detected);
}

#[test]
fn empty_config_on_empty_detected_gives_nothing() {
    let out = add_custom_entries(&vec![], &config(None, vec![]));
    assert!(out.is_empty());
}

#[test]
fn bare_entry_resolves_to_its_match() {
    let detected = vec![game("A", "a", None, None), chess(), game("Z", "z", None, None)];
    let cfg = config(Some("/covers"), vec![entry("Chess", None, None, None)]);
    let out = add_custom_entries(&detected, &cfg);
    assert_eq!(out, vec![game("A", "a", None, None), game("Z", "z", None, None), chess()]);
    assert_eq!(out.iter().filter(|g| g.title == "Chess").count(), 1);
}

#[test]
fn bare_entry_inherits_missing_fields_of_its_match() {
    let detected = vec![game("Solo", "solo", None, None)];
    let cfg = config(None, vec![entry("Solo", None, None, None)]);
    let report = merge_entries(&detected, &cfg);
    assert_eq!(report.games, vec![game("Solo", "solo", None, None)]);
    assert!(report.rejected.is_empty());
}

#[test]
fn bare_entry_takes_the_first_of_two_matches() {
    let detected = vec![
        game("Go", "first", Some("/1.png"), Some("/one")),
        game("Other", "o", None, None),
        game("Go", "second", Some("/2.png"), Some("/two")),
    ];
    let cfg = config(None, vec![entry("Go", None, None, None)]);
    let out = add_custom_entries(&detected, &cfg);
    assert_eq!(
        out,
        vec![game("Other", "o", None, None), game("Go", "first", Some("/1.png"), Some("/one"))]
    );
}

#[test]
fn complete_entry_without_match_is_appended_once() {
    let detected = vec![chess()];
    let cfg = config(None, vec![entry("Foo", Some("foo"), Some("/art/foo.png"), Some("/games/foo"))]);
    let report = merge_entries(&detected, &cfg);
    assert_eq!(
        report.games,
        vec![chess(), game("Foo", "foo", Some("/art/foo.png"), Some("/games/foo"))]
    );
    assert!(report.rejected.is_empty());
}

#[test]
fn incomplete_entry_without_match_is_left_out_and_reported() {
    let detected = vec![chess()];
    for e in [
        entry("Foo", None, Some("/f.png"), Some("/foo")),
        entry("Foo", Some("foo"), None, Some("/foo")),
        entry("Foo", Some("foo"), Some("/f.png"), None),
    ] {
        let report = merge_entries(&detected, &config(None, vec![e]));
        assert_eq!(report.games, vec![chess()]);
        assert_eq!(report.rejected, vec!["Foo".to_string()]);
    }
}

#[test]
fn rejected_entry_does_not_stop_the_others() {
    let detected = vec![chess(), game("Go", "go", None, None)];
    let cfg = config(
        None,
        vec![
            entry("Missing", Some("m"), None, None),
            entry("Go", None, Some("/go.png"), None),
            entry("Gone", None, None, None),
            entry("New", Some("new"), Some("/new.png"), Some("/new")),
        ],
    );
    let report = merge_entries(&detected, &cfg);
    assert_eq!(
        report.games,
        vec![
            chess(),
            game("Go", "go", Some("/go.png"), None),
            game("New", "new", Some("/new.png"), Some("/new")),
        ]
    );
    assert_eq!(report.rejected, vec!["Missing".to_string(), "Gone".to_string()]);
}

#[test]
fn two_entries_of_one_title_both_stand() {
    let detected = vec![chess()];
    let cfg = config(
        None,
        vec![entry("Chess", Some("one"), None, None), entry("Chess", None, None, Some("/two"))],
    );
    let out = add_custom_entries(&detected, &cfg);
    assert_eq!(
        out,
        vec![
            game("Chess", "one", Some("c.png"), Some("/games/chess")),
            game("Chess", "chess.exe", Some("c.png"), Some("/two")),
        ]
    );
}

#[test]
fn relative_box_art_is_joined_to_the_base_directory() {
    let detected = vec![chess()];
    let cfg = config(Some("/covers"), vec![entry("Chess", None, Some("chess.png"), None)]);
    let out = add_custom_entries(&detected, &cfg);
    assert_eq!(out, vec![game("Chess", "chess.exe", Some("/covers/chess.png"), Some("/games/chess"))]);
}

#[test]
fn absolute_box_art_ignores_the_base_directory() {
    let detected = vec![chess()];
    let cfg = config(Some("/covers"), vec![entry("Chess", None, Some("/else/chess.png"), None)]);
    let out = add_custom_entries(&detected, &cfg);
    assert_eq!(out, vec![game("Chess", "chess.exe", Some("/else/chess.png"), Some("/games/chess"))]);
}

#[test]
fn relative_box_art_without_base_directory_stands_as_given() {
    let detected: Vec<Game> = vec![];
    let cfg = config(None, vec![entry("Foo", Some("foo"), Some("foo.png"), Some("/foo"))]);
    let out = add_custom_entries(&detected, &cfg);
    assert_eq!(out, vec![game("Foo", "foo", Some("foo.png"), Some("/foo"))]);
}

#[test]
fn inherited_box_art_is_not_joined() {
    let detected = vec![chess()];
    let cfg = config(Some("/covers"), vec![entry("Chess", Some("x"), None, None)]);
    let out = add_custom_entries(&detected, &cfg);
    assert_eq!(out, vec![game("Chess", "x", Some("c.png"), Some("/games/chess"))]);
}

#[test]
fn box_art_override_cases() {
    let base = Some("covers".to_string());
    assert_eq!(box_art_override(&None, &base), None);
    assert_eq!(box_art_override(&None, &None), None);
    assert_eq!(
        box_art_override(&Some("a/b.png".to_string()), &base),
        Some("covers/a/b.png".to_string())
    );
    assert_eq!(
        box_art_override(&Some("b.png".to_string()), &Some("covers/".to_string())),
        Some("covers/b.png".to_string())
    );
    assert_eq!(box_art_override(&Some("/b.png".to_string()), &base), Some("/b.png".to_string()));
    assert_eq!(box_art_override(&Some("b.png".to_string()), &None), Some("b.png".to_string()));
}

#[test]
fn place_box_art_cases() {
    let p = || "p.png".to_string();
    let j = || "base/p.png".to_string();
    assert_eq!(place_box_art(p(), true, true, j()), "base/p.png");
    assert_eq!(place_box_art(p(), true, false, j()), "p.png");
    assert_eq!(place_box_art(p(), false, true, j()), "p.png");
    assert_eq!(place_box_art(p(), false, false, j()), "p.png");
}

#[test]
fn find_match_gives_the_first_index() {
    let detected = vec![game("A", "a", None, None), game("B", "b1", None, None), game("B", "b2", None, None)];
    assert_eq!(find_match(&detected, &"A".to_string()), Some(0));
    assert_eq!(find_match(&detected, &"B".to_string()), Some(1));
    assert_eq!(find_match(&detected, &"C".to_string()), None);
    assert_eq!(find_match(&vec![], &"A".to_string()), None);
    assert!(has_title(&detected, &"B".to_string()));
    assert!(!has_title(&detected, &"b".to_string()));
}

#[test]
fn resolve_entry_cases() {
    let g = chess();
    let t = "Chess".to_string();
    assert_eq!(resolve_entry(Some(&g), &t, &None, None, &None), Some(chess()));
    assert_eq!(
        resolve_entry(Some(&g), &t, &Some("l".to_string()), Some("a".to_string()), &Some("d".to_string())),
        Some(game("Chess", "l", Some("a"), Some("d")))
    );
    assert_eq!(
        resolve_entry(None, &t, &Some("l".to_string()), Some("a".to_string()), &Some("d".to_string())),
        Some(game("Chess", "l", Some("a"), Some("d")))
    );
    assert_eq!(resolve_entry(None, &t, &None, Some("a".to_string()), &Some("d".to_string())), None);
    assert_eq!(resolve_entry(None, &t, &Some("l".to_string()), None, &Some("d".to_string())), None);
    assert_eq!(resolve_entry(None, &t, &Some("l".to_string()), Some("a".to_string()), &None), None);
}

#[test]
fn value_or_backup_cases() {
    assert_eq!(value_or_backup(Some("rofi".to_string()), "fallback"), "rofi");
    assert_eq!(value_or_backup(None, "fallback"), "fallback");
    assert_eq!(value_or_backup(Some(String::new()), "fallback"), "");
}

#[test]
fn get_regex_compiles_a_valid_pattern() {
    let re = get_regex(r"^(\d+)-(\w+)$").expect("the pattern is valid");
    assert_eq!(re.as_str(), r"^(\d+)-(\w+)$");
    assert!(re.is_match("42-chess"));
    assert!(!re.is_match("chess-42!"));
}

#[test]
fn get_regex_refuses_an_invalid_pattern() {
    let refused = get_regex("foo(bar");
    assert!(refused.is_err());
    assert!(!refused.unwrap_err().is_empty());
    assert!(get_regex(r"\w{1000}").is_err());
}

#[test]
fn copies_keep_every_field() {
    assert_eq!(copy_game(&chess()), chess());
    assert_eq!(copy_game(&game("Solo", "solo", None, None)), game("Solo", "solo", None, None));
    assert_eq!(copy_text(&Some("a".to_string())), Some("a".to_string()));
    assert_eq!(copy_text(&None), None);
}

#[test]
fn untouched_games_keep_their_order_around_a_replaced_title() {
    let detected = vec![
        game("C", "c", None, None),
        game("Go", "go1", None, None),
        game("A", "a", None, None),
        game("Go", "go2", None, None),
        game("B", "b", None, None),
    ];
    let cfg = config(None, vec![entry("Go", Some("mine"), None, None)]);
    let out = add_custom_entries(&detected, &cfg);
    assert_eq!(
        out,
        vec![
            game("C", "c", None, None),
            game("A", "a", None, None),
            game("B", "b", None, None),
            game("Go", "mine", None, None),
        ]
    );
}
