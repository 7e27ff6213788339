use std::path::PathBuf;

use load64::game::{Game, GameId};
use load64::media::{Media, MediaSet, MediaType};

fn default_media_set() -> MediaSet {
    MediaSet::new(
        None,
        Media::new(MediaType::BoxFront2DThumbnail, PathBuf::from("test-default.png")),
        None,
        None,
        None,
    )
}

fn test_game(id: &str, title: &str, sort_key: &str) -> Game {
    Game::new(
        GameId::new(id.to_string()),
        title.to_string(),
        sort_key.to_string(),
        None,
        None,
        None,
        default_media_set(),
        Vec::new(),
        PathBuf::from("/tmp/test"),
        false,
    )
}

#[test]
fn test_games_sorted_by_sort_key() {
    let game1 = test_game("1", "Zak McKracken", "zak-mckracken");
    let game2 = test_game("2", "Monkey Island", "monkey-island");
    let game3 = test_game("3", "Maniac Mansion", "maniac-mansion");

    let mut games = vec![game1, game2, game3];
    games.sort_by(|a, b| a.partial_cmp(b).unwrap());

    assert!(games[0].starts_with('m'));
    assert!(games[1].starts_with('m'));
    assert!(games[2].starts_with('z'));
}

#[test]
fn test_accessor_with_all_fields() {
    let game = Game::new(
        GameId::new("1".to_string()),
        "Monkey Island".to_string(),
        "monkey-island".to_string(),
        Some(1990),
        Some("LucasArts".to_string()),
        Some("Classic adventure game".to_string()),
        default_media_set(),
        Vec::new(),
        PathBuf::from("/tmp/test"),
        false,
    );

    assert_eq!(game.title(), "Monkey Island");
    assert_eq!(game.year(), Some(1990));
    assert_eq!(game.publisher(), Some("LucasArts"));
    assert_eq!(game.notes(), Some("Classic adventure game"));
    assert!(game.media_set().box_front_2d().is_none());
    assert!(game.roms().is_empty());
    assert!(!game.is_hidden());
}

#[test]
fn test_accessor_with_none_fields() {
    let game = test_game("1", "Unknown Game", "unknown-game");

    assert_eq!(game.title(), "Unknown Game");
    assert_eq!(game.year(), None);
    assert_eq!(game.publisher(), None);
    assert_eq!(game.notes(), None);
    assert!(game.media_set().box_front_2d().is_none());
    assert!(game.roms().is_empty());
}
