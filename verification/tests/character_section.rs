use std::path::PathBuf;

use load64::catalog::Catalog;
use load64::character_section::CharacterSection;
use load64::game::{Game, GameId};
use load64::media::{Media, MediaSet, MediaType};
use load64::section::Section;

fn new_game(id: &str, title: &str, sort_key: &str) -> Game {
    Game::new(
        GameId::new(id.to_string()),
        title.to_string(),
        sort_key.to_string(),
        None,
        None,
        None,
        MediaSet::new(
            None,
            Media::new(MediaType::BoxFront2DThumbnail, PathBuf::from("test-default.png")),
            None,
            None,
            None,
        ),
        Vec::new(),
        PathBuf::from("/tmp/test"),
        false,
    )
}

fn catalog_of(games: &[&Game]) -> Catalog {
    let mut catalog = Catalog::new();
    for game in games {
        catalog.insert((*game).clone());
    }
    catalog
}

fn title_of(id: Option<&GameId>, games: &Catalog) -> Option<String> {
    id.map(|id| games.get(id).unwrap().title().to_string())
}

#[test]
fn test_character_section_adds_matching_games() {
    let mut section = CharacterSection::with_character('M');
    let game = new_game("1", "Monkey Island", "monkey-island");

    assert!(section.add_game(&game, &catalog_of(&[&game])).is_ok());
}

#[test]
fn test_character_section_rejects_non_matching_games() {
    let mut section = CharacterSection::with_character('M');
    let game = new_game("1", "Zak McKracken", "zak-mckracken");

    assert!(section.add_game(&game, &catalog_of(&[&game])).is_err());
}

#[test]
fn test_character_section_sorts_games() {
    let mut section = CharacterSection::with_character('M');

    let game1 = new_game("1", "Monkey Island 2", "monkey-island-2");
    let game2 = new_game("2", "Maniac Mansion", "maniac-mansion");
    let game3 = new_game("3", "Monkey Island", "monkey-island");
    let games = catalog_of(&[&game1, &game2, &game3]);

    section.add_game(&game1, &games).unwrap();
    section.add_game(&game2, &games).unwrap();
    section.add_game(&game3, &games).unwrap();

    assert_eq!(section.game_ids().len(), 3);
    assert_eq!(games.get(&section.game_ids()[0]).unwrap().starts_with('m'), true);
    assert_eq!(section.game_ids(), &[game2.id().clone(), game3.id().clone(), game1.id().clone()]);
}

#[test]
fn test_character_section_next_navigation() {
    let mut section = CharacterSection::with_character('M');

    let game1 = new_game("1", "Maniac Mansion", "maniac-mansion");
    let game2 = new_game("2", "Monkey Island", "monkey-island");
    let game3 = new_game("3", "Marble Madness", "marble-madness");
    let games = catalog_of(&[&game1, &game2, &game3]);

    section.add_game(&game1, &games).unwrap();
    section.add_game(&game2, &games).unwrap();
    section.add_game(&game3, &games).unwrap();

    let first = section.first_game_id();
    assert_eq!(title_of(first, &games), Some("Maniac Mansion".to_string()));

    let second = section.next_game_id(first.unwrap());
    assert!(second.is_some());
    assert_eq!(title_of(second, &games), Some("Marble Madness".to_string()));

    let third = section.next_game_id(second.unwrap());
    assert!(third.is_some());
    assert_eq!(title_of(third, &games), Some("Monkey Island".to_string()));

    let fourth = section.next_game_id(third.unwrap());
    assert!(fourth.is_none());
    assert_eq!(title_of(section.last_game_id(), &games), Some("Monkey Island".to_string()));
}

#[test]
fn test_character_section_previous_navigation() {
    let mut section = CharacterSection::with_character('M');

    let game1 = new_game("1", "Maniac Mansion", "maniac-mansion");
    let game2 = new_game("2", "Monkey Island", "monkey-island");
    let game3 = new_game("3", "Marble Madness", "marble-madness");
    let games = catalog_of(&[&game1, &game2, &game3]);

    section.add_game(&game1, &games).unwrap();
    section.add_game(&game2, &games).unwrap();
    section.add_game(&game3, &games).unwrap();

    let first = section.first_game_id();
    assert_eq!(title_of(first, &games), Some("Maniac Mansion".to_string()));

    let before = section.previous_game_id(first.unwrap());
    assert!(before.is_none());
    assert_eq!(title_of(section.first_game_id(), &games), Some("Maniac Mansion".to_string()));
}

#[test]
fn test_character_section_navigation_empty() {
    let section = CharacterSection::with_character('M');
    let id = GameId::new("1".to_string());

    assert!(section.next_game_id(&id).is_none());
    assert!(section.previous_game_id(&id).is_none());

    assert_eq!(section.game_ids().len(), 0);
}

#[test]
fn first_member_needs_no_game_in_the_catalog() {
    let mut section = CharacterSection::with_character('M');
    let game = new_game("1", "Monkey Island", "monkey-island");

    assert!(section.add_game(&game, &Catalog::new()).is_ok());
    assert_eq!(section.game_ids(), &[game.id().clone()]);
}
