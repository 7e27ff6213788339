use std::cmp::Ordering;
use std::path::PathBuf;

use load64::catalog::{natural_game_order, sort_by_game_order, Catalog};
use load64::character_section::CharacterSection;
use load64::cursor::Cursor;
use load64::game::{Game, GameId};
use load64::media::{Media, MediaSet, MediaSlots, MediaType};
use load64::rom::Rom;
use load64::section::{Section, SectionId, UUID_KIND_MASK, UUID_KIND_RANDOM};
use load64::text::{first_char_or_space, same_text, text_no_later};
use load64::year::{parse_year, year_text};

fn media() -> MediaSet {
    MediaSet::new(
        None,
        Media::new(MediaType::BoxFront2DThumbnail, PathBuf::from("thumbnail.png")),
        None,
        None,
        None,
    )
}

fn game(id: &str, title: &str, sort_key: &str) -> Game {
    Game::new(
        GameId::new(id.to_string()),
        title.to_string(),
        sort_key.to_string(),
        None,
        None,
        None,
        media(),
        Vec::new(),
        PathBuf::from("/games"),
        false,
    )
}

fn id(text: &str) -> GameId {
    GameId::new(text.to_string())
}

fn catalog_of(games: &[Game]) -> Catalog {
    let mut catalog = Catalog::new();
    for game in games {
        catalog.insert(game.clone());
    }
    catalog
}

fn section_of(games: &[Game]) -> (CharacterSection, Catalog) {
    let catalog = catalog_of(games);
    let mut section = CharacterSection::new(&games[0]);
    for game in games {
        section.add_game(game, &catalog).unwrap();
    }
    (section, catalog)
}

#[test]
fn section_ids_are_random_uuids() {
    let a = SectionId::new();
    let b = SectionId::new();
    assert_ne!(a, b);
    assert_eq!(a.as_u128() & UUID_KIND_MASK, UUID_KIND_RANDOM);
    assert_eq!(b.as_u128() & UUID_KIND_MASK, UUID_KIND_RANDOM);
    assert_eq!(a, a.clone());
}

#[test]
fn section_takes_the_uppercase_of_the_first_character() {
    assert_eq!(CharacterSection::new(&game("1", "Monkey", "monkey")).character(), 'M');
    assert_eq!(CharacterSection::new(&game("1", "Monkey", "Monkey")).character(), 'M');
    assert_eq!(CharacterSection::new(&game("1", "1942", "1942")).character(), '1');
    assert_eq!(CharacterSection::new(&game("1", "Etoile", "\u{e9}toile")).character(), '\u{c9}');
    assert_eq!(CharacterSection::new(&game("1", "Nameless", "")).character(), ' ');
    assert_eq!(CharacterSection::with_character('m').character(), 'm');
}

#[test]
fn section_title_names_the_character() {
    assert_eq!(CharacterSection::with_character('Q').title(), "Section 'Q'");
    assert_eq!(CharacterSection::with_character(' ').title(), "Section ' '");
}

#[test]
fn section_matches_keys_by_their_first_character() {
    let section = CharacterSection::with_character('M');
    assert!(section.satisfies("M"));
    assert!(section.satisfies("m"));
    assert!(section.satisfies("monkey"));
    assert!(!section.satisfies("z"));
    assert!(!section.satisfies(""));
    assert!(!section.satisfies("am"));
}

#[test]
fn sections_are_ordered_by_character() {
    let a = CharacterSection::with_character('A');
    let m = CharacterSection::with_character('M');
    assert!(a.sorts_no_later(&m));
    assert!(!m.sorts_no_later(&a));
    assert!(a.sorts_no_later(&a));
}

#[test]
fn mismatch_is_an_error_and_changes_nothing() {
    let monkey = game("1", "Monkey Island", "monkey-island");
    let zak = game("2", "Zak McKracken", "zak-mckracken");
    let (mut section, catalog) = section_of(&[monkey.clone()]);
    let result = section.add_game(&zak, &catalog_of(&[monkey, zak.clone()]));
    assert_eq!(result, Err("Game 'Zak McKracken' does not belong in Section 'M'".to_string()));
    assert_eq!(section.game_ids().len(), 1);
    assert_eq!(section.first_game_id(), Some(&id("1")));
    assert_eq!(catalog.len(), 1);
}

#[test]
fn empty_section_has_no_first_or_last_game() {
    let section = CharacterSection::with_character('M');
    assert_eq!(section.first_game_id(), None);
    assert_eq!(section.last_game_id(), None);
    assert_eq!(section.next_game_id(&id("1")), None);
    assert_eq!(section.previous_game_id(&id("1")), None);
    assert!(Cursor::first_game(&section).is_none());
    assert!(Cursor::last_game(&section).is_none());
}

#[test]
fn section_steps_between_members() {
    let (section, _) = section_of(&[
        game("1", "Maniac Mansion", "maniac-mansion"),
        game("2", "Marble Madness", "marble-madness"),
        game("3", "Monkey Island", "monkey-island"),
    ]);
    assert_eq!(section.first_game_id(), Some(&id("1")));
    assert_eq!(section.last_game_id(), Some(&id("3")));
    assert_eq!(section.next_game_id(&id("1")), Some(&id("2")));
    assert_eq!(section.next_game_id(&id("2")), Some(&id("3")));
    assert_eq!(section.next_game_id(&id("3")), None);
    assert_eq!(section.previous_game_id(&id("3")), Some(&id("2")));
    assert_eq!(section.previous_game_id(&id("1")), None);
    assert_eq!(section.next_game_id(&id("4")), None);
    assert_eq!(section.previous_game_id(&id("4")), None);
}

#[test]
fn cursors_name_section_and_game() {
    let (section, _) = section_of(&[
        game("1", "Maniac Mansion", "maniac-mansion"),
        game("2", "Monkey Island", "monkey-island"),
    ]);
    let first = Cursor::first_game(&section).unwrap();
    assert_eq!(first.section_id(), section.id());
    assert_eq!(first.game_id(), &id("1"));
    let last = Cursor::last_game(&section).unwrap();
    assert_eq!(last.game_id(), &id("2"));
    let other = Cursor::for_game(&section, &id("7"));
    assert_eq!(other.section_id(), section.id());
    assert_eq!(other.game_id(), &id("7"));
    let copy = other.clone();
    assert_eq!(copy.section_id(), other.section_id());
    assert_eq!(copy.game_id(), other.game_id());
    let made = Cursor::new(*section.id(), id("8"));
    assert_eq!(made.game_id(), &id("8"));
}

#[test]
fn ids_are_sorted_by_the_games_they_name() {
    let catalog = catalog_of(&[
        game("1", "Zork", "zork"),
        game("2", "Alice", "alice"),
        game("3", "Monkey", "monkey"),
        game("4", "Alice again", "alice"),
    ]);
    let mut ids = vec![id("1"), id("4"), id("3"), id("2"), id("1")];
    sort_by_game_order(&mut ids, &catalog);
    assert_eq!(ids, vec![id("4"), id("2"), id("3"), id("1"), id("1")]);
    assert!(natural_game_order(&id("2"), &id("1"), &catalog));
    assert!(!natural_game_order(&id("1"), &id("2"), &catalog));
    assert!(natural_game_order(&id("2"), &id("4"), &catalog));
    assert!(natural_game_order(&id("4"), &id("2"), &catalog));
}

#[test]
fn catalog_stores_games_under_their_ids() {
    let mut catalog = Catalog::new();
    assert_eq!(catalog.len(), 0);
    assert!(!catalog.contains(&id("1")));
    assert!(catalog.get(&id("1")).is_none());
    catalog.insert(game("1", "Alice", "alice"));
    catalog.insert(game("2", "Zork", "zork"));
    catalog.insert(game("1", "Monkey", "monkey"));
    assert_eq!(catalog.len(), 2);
    assert!(catalog.contains(&id("1")));
    assert_eq!(catalog.get(&id("1")).unwrap().title(), "Monkey");
    assert_eq!(catalog.get(&id("2")).unwrap().title(), "Zork");
}

#[test]
fn games_compare_by_sort_key_only() {
    let a = game("9", "Zebra", "alpha");
    let b = game("1", "Aardvark", "beta");
    assert_eq!(a.partial_cmp(&b), Some(Ordering::Less));
    assert_eq!(b.partial_cmp(&a), Some(Ordering::Greater));
    assert_eq!(a.partial_cmp(&game("2", "Other", "alpha")), Some(Ordering::Equal));
    assert!(a < b);
    assert!(a.sorts_no_later(&b));
    assert!(!b.sorts_no_later(&a));
}

#[test]
fn game_reads_its_first_character() {
    assert_eq!(game("1", "Monkey", "monkey").first_character(), 'm');
    assert_eq!(game("1", "Nameless", "").first_character(), ' ');
    assert!(game("1", "Monkey", "monkey").starts_with('m'));
    assert!(!game("1", "Monkey", "monkey").starts_with('M'));
    assert!(!game("1", "Nameless", "").starts_with(' '));
}

#[test]
fn hidden_flag_is_all_that_set_hidden_changes() {
    let mut changed = game("1", "Monkey", "monkey");
    let before = changed.clone();
    changed.set_hidden(true);
    assert!(changed.is_hidden());
    assert!(changed != before);
    changed.set_hidden(false);
    assert!(changed == before);
}

#[test]
fn copy_of_a_game_is_the_same_game() {
    let game = Game::new(
        id("1"),
        "Monkey".to_string(),
        "monkey".to_string(),
        Some(1990),
        Some("LucasArts".to_string()),
        None,
        media(),
        vec![Rom::new(PathBuf::from("/games/monkey/roms/monkey.d64"))],
        PathBuf::from("/games/monkey"),
        true,
    );
    let copy = game.clone();
    assert!(copy == game);
    assert_eq!(copy.game_dir(), &PathBuf::from("/games/monkey"));
    assert_eq!(copy.roms()[0].path(), &PathBuf::from("/games/monkey/roms/monkey.d64"));
    assert_eq!(copy.sort_key(), "monkey");
    assert_eq!(copy.id().as_str(), "1");
    assert_eq!(copy.media_set().box_front_2d_thumbnail().path(), &PathBuf::from("thumbnail.png"));
    assert_eq!(
        copy.media_set().box_front_2d_thumbnail().media_type(),
        &MediaType::BoxFront2DThumbnail
    );
}

#[test]
fn texts_are_ordered_by_code_point() {
    assert!(text_no_later("", ""));
    assert!(text_no_later("", "a"));
    assert!(!text_no_later("a", ""));
    assert!(text_no_later("a", "a"));
    assert!(text_no_later("a", "ab"));
    assert!(!text_no_later("ab", "a"));
    assert!(text_no_later("ab", "b"));
    assert!(text_no_later("Z", "a"));
    assert!(!text_no_later("a", "Z"));
    assert!(text_no_later("z", "\u{e9}"));
    assert!(text_no_later("\u{ffff}", "\u{10000}"));
    assert_eq!(text_no_later("game-10", "game-9"), "game-10" <= "game-9");
}

#[test]
fn texts_are_the_same_only_character_by_character() {
    assert!(same_text("", ""));
    assert!(same_text("autostart", "autostart"));
    assert!(!same_text("autostart", "autostart-warp"));
    assert!(!same_text("autostart-warp", "autostart"));
    assert!(!same_text("a", "b"));
    assert!(!same_text("", "a"));
}

#[test]
fn first_character_of_an_empty_text_is_a_space() {
    assert_eq!(first_char_or_space(""), ' ');
    assert_eq!(first_char_or_space("x"), 'x');
    assert_eq!(first_char_or_space("\u{e9}toile"), '\u{e9}');
}

#[test]
fn years_are_read_as_std_reads_them() {
    let texts = [
        "1990", "0", "0000", "65535", "65536", "99999", "+1985", "+", "", "-1", "-0", "19 90",
        " 1990", "1990 ", "19a0", "1_990", "\u{661}\u{669}", "065535", "+065536", "++1",
        "429496729600001", "00000000000000000001",
    ];
    for text in texts {
        assert_eq!(parse_year(text), text.parse::<u16>().ok(), "{}", text);
    }
    assert_eq!(parse_year("1990"), Some(1990));
    assert_eq!(parse_year("65535"), Some(65535));
    assert_eq!(parse_year("65536"), None);
    assert_eq!(parse_year("+7"), Some(7));
    assert_eq!(parse_year(""), None);
}

#[test]
fn media_names_stand_for_kinds() {
    assert_eq!(MediaType::from_name("2d-box-front"), Some(MediaType::BoxFront2D));
    assert_eq!(
        MediaType::from_name("2d-box-front-thumbnail"),
        Some(MediaType::BoxFront2DThumbnail)
    );
    assert_eq!(MediaType::from_name("screenshot-loading"), Some(MediaType::ScreenshotLoading));
    assert_eq!(MediaType::from_name("screenshot-title"), Some(MediaType::ScreenshotTitle));
    assert_eq!(MediaType::from_name("screenshot-gameplay"), Some(MediaType::ScreenshotGameplay));
    assert_eq!(MediaType::from_name("3d-box"), None);
    assert_eq!(MediaType::from_name(""), None);
}

#[test]
fn default_media_files_are_listed_in_order() {
    assert_eq!(
        MediaType::default_files(),
        vec![
            ("2d-box-front.png", MediaType::BoxFront2D),
            ("2d-box-front.jpg", MediaType::BoxFront2D),
            ("2d-box-front-thumbnail.png", MediaType::BoxFront2DThumbnail),
            ("2d-box-front-thumbnail.jpg", MediaType::BoxFront2DThumbnail),
            ("screenshot-loading.png", MediaType::ScreenshotLoading),
            ("screenshot-title.png", MediaType::ScreenshotTitle),
            ("screenshot-gameplay.png", MediaType::ScreenshotGameplay),
        ]
    );
}

#[test]
fn media_slots_keep_the_last_of_each_kind() {
    let mut slots = MediaSlots::new();
    slots.put(Media::new(MediaType::BoxFront2D, PathBuf::from("front.png")));
    slots.put(Media::new(MediaType::BoxFront2D, PathBuf::from("front.jpg")));
    slots.put(Media::new(MediaType::ScreenshotTitle, PathBuf::from("title.png")));
    let set = slots.into_media_set(|| PathBuf::from("default.png"));
    assert_eq!(set.box_front_2d().unwrap().path(), &PathBuf::from("front.jpg"));
    assert_eq!(set.screenshot_title().unwrap().path(), &PathBuf::from("title.png"));
    assert!(set.screenshot_loading().is_none());
    assert!(set.screenshot_gameplay().is_none());
    assert_eq!(set.box_front_2d_thumbnail().path(), &PathBuf::from("default.png"));
    assert_eq!(set.box_front_2d_thumbnail().media_type(), &MediaType::BoxFront2DThumbnail);
}

#[test]
fn media_slots_ask_for_a_default_only_without_a_thumbnail() {
    let mut slots = MediaSlots::new();
    slots.put(Media::new(MediaType::BoxFront2DThumbnail, PathBuf::from("thumb.jpg")));
    slots.put(Media::new(MediaType::ScreenshotLoading, PathBuf::from("loading.png")));
    slots.put(Media::new(MediaType::ScreenshotGameplay, PathBuf::from("gameplay.png")));
    let set = slots.into_media_set(|| unreachable!());
    assert_eq!(set.box_front_2d_thumbnail().path(), &PathBuf::from("thumb.jpg"));
    assert_eq!(set.screenshot_loading().unwrap().path(), &PathBuf::from("loading.png"));
    assert_eq!(set.screenshot_gameplay().unwrap().path(), &PathBuf::from("gameplay.png"));
    assert!(set.box_front_2d().is_none());
}

#[test]
fn rom_extensions_are_the_four_image_kinds() {
    for extension in ["d64", "t64", "prg", "crt"] {
        assert!(Rom::is_rom_extension(extension));
    }
    for extension in ["", "D64", "d6", "d644", "png", "toml"] {
        assert!(!Rom::is_rom_extension(extension));
    }
}

#[test]
fn years_are_written_as_std_writes_them() {
    for year in [0u16, 1, 9, 10, 11, 99, 100, 101, 1982, 1990, 9999, 10000, 65534, 65535] {
        assert_eq!(year_text(year), year.to_string());
        assert_eq!(parse_year(&year_text(year)), Some(year));
    }
    assert_eq!(year_text(1990), "1990");
    assert_eq!(year_text(0), "0");
}

#[test]
fn metadata_line_joins_year_and_publisher() {
    let with = |year: Option<u16>, publisher: Option<&str>| {
        Game::new(
            id("1"),
            "Monkey".to_string(),
            "monkey".to_string(),
            year,
            publisher.map(str::to_string),
            Some("notes".to_string()),
            media(),
            Vec::new(),
            PathBuf::from("/games"),
            false,
        )
        .metadata_line()
    };
    assert_eq!(with(Some(1990), Some("LucasArts")), Some("1990 - LucasArts".to_string()));
    assert_eq!(with(Some(1990), None), Some("1990".to_string()));
    assert_eq!(with(None, Some("LucasArts")), Some("LucasArts".to_string()));
    assert_eq!(with(None, None), None);
    assert_eq!(with(Some(0), Some("")), Some("0 - ".to_string()));
}

#[test]
fn hidden_games_are_shown_only_on_request() {
    let mut game = game("1", "Monkey", "monkey");
    assert!(game.is_visible(false));
    assert!(game.is_visible(true));
    game.set_hidden(true);
    assert!(!game.is_visible(false));
    assert!(game.is_visible(true));
}
