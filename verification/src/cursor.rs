use vstd::prelude::*;

use crate::game::GameId;
use crate::section::{first_member, last_member, Section, SectionId};

verus! {

/// A position in a library: a section and a game, both by identity. It holds
/// no index, so it stays meaningful when the library's collections are
/// reordered.
pub struct Cursor {
    section_id: SectionId,
    game_id: GameId,
}

/// What a `Cursor` holds, the game's id as its characters.
pub ghost struct CursorView {
    pub section_id: SectionId,
    pub game_id: Seq<char>,
}

impl View for Cursor {
    type V = CursorView;

    closed spec fn view(&self) -> CursorView {
        CursorView { section_id: self.section_id, game_id: self.game_id@ }
    }
}

impl Clone for Cursor {
    fn clone(&self) -> (copy: Self)
        ensures
            copy == *self,
    {
        Self { section_id: self.section_id, game_id: self.game_id.clone() }
    }
}

/// The position of `member` in the section `section_id`, where there is such
/// a member.
pub open spec fn position_at(section_id: SectionId, member: Option<Seq<char>>) -> Option<
    CursorView,
> {
    match member {
        Some(game_id) => Some(CursorView { section_id, game_id }),
        None => None,
    }
}

/// What an optional cursor holds.
pub open spec fn optional_view(cursor: Option<Cursor>) -> Option<CursorView> {
    match cursor {
        Some(c) => Some(c@),
        None => None,
    }
}

impl Cursor {
    pub fn new(section_id: SectionId, game_id: GameId) -> (cursor: Self)
        ensures
            cursor@ == (CursorView { section_id, game_id: game_id@ }),
    {
        Self { section_id, game_id }
    }

    /// The position of the first game of `section`, if it has any game.
    pub fn first_game<S: Section>(section: &S) -> (cursor: Option<Self>)
        ensures
            optional_view(cursor) == position_at(
                section.spec_id(),
                first_member(section.member_ids()),
            ),
    {
        match section.first_game_id() {
            Some(game_id) => Some(Self { section_id: *section.id(), game_id: game_id.clone() }),
            None => None,
        }
    }

    /// The position of the last game of `section`, if it has any game.
    pub fn last_game<S: Section>(section: &S) -> (cursor: Option<Self>)
        ensures
            optional_view(cursor) == position_at(
                section.spec_id(),
                last_member(section.member_ids()),
            ),
    {
        match section.last_game_id() {
            Some(game_id) => Some(Self { section_id: *section.id(), game_id: game_id.clone() }),
            None => None,
        }
    }

    /// The position of the game `game_id` in `section`.
    pub fn for_game<S: Section>(section: &S, game_id: &GameId) -> (cursor: Self)
        ensures
            cursor@ == (CursorView { section_id: section.spec_id(), game_id: game_id@ }),
    {
        Self { section_id: *section.id(), game_id: game_id.clone() }
    }

    pub fn section_id(&self) -> (section_id: &SectionId)
        ensures
            *section_id == self@.section_id,
    {
        &self.section_id
    }

    pub fn game_id(&self) -> (game_id: &GameId)
        ensures
            game_id@ == self@.game_id,
    {
        &self.game_id
    }
}

} // verus!
