use vstd::prelude::*;

use crate::cursor::{optional_view, Cursor, CursorView};
use crate::game::{Game, GameId};
use crate::library::Library;
use crate::section::Section;

verus! {

/// What a user can ask of the cursor.
#[derive(Debug)]
pub enum Intent {
    NextGame,
    PreviousGame,
    NextSection,
    PreviousSection,
    /// Jump to the section that a typed character selects.
    ToSection(char),
    /// Jump to the game with an id.
    ToGame(GameId),
}

impl Clone for Intent {
    fn clone(&self) -> (copy: Self)
        ensures
            copy == *self,
    {
        match self {
            Intent::NextGame => Intent::NextGame,
            Intent::PreviousGame => Intent::PreviousGame,
            Intent::NextSection => Intent::NextSection,
            Intent::PreviousSection => Intent::PreviousSection,
            Intent::ToSection(c) => Intent::ToSection(*c),
            Intent::ToGame(id) => Intent::ToGame(id.clone()),
        }
    }
}

impl<S: Section, F: Fn(&Game) -> S> Library<S, F> {
    /// Where `intent` leads from `cursor`. Without a cursor the steps lead
    /// nowhere. A jump that finds nothing leaves the cursor where it is.
    pub open spec fn after_intent(&self, cursor: Option<CursorView>, intent: Intent) -> Option<
        CursorView,
    > {
        match intent {
            Intent::NextGame => match cursor {
                Some(c) if self.spec_sections().len() > 0 => Some(self.after_game(c)),
                _ => None,
            },
            Intent::PreviousGame => match cursor {
                Some(c) if self.spec_sections().len() > 0 => Some(self.before_game(c)),
                _ => None,
            },
            Intent::NextSection => match cursor {
                Some(c) if self.spec_sections().len() > 0 => Some(self.after_section(c)),
                _ => None,
            },
            Intent::PreviousSection => match cursor {
                Some(c) if self.spec_sections().len() > 0 => Some(self.before_section(c)),
                _ => None,
            },
            Intent::ToSection(c) => match self.section_for_key(seq![c]) {
                Some(found) => Some(found),
                None => cursor,
            },
            Intent::ToGame(id) => match self.position_of_game(id@) {
                Some(found) => Some(found),
                None => cursor,
            },
        }
    }

    /// Where to go on after the library was built anew: to the game that
    /// `cursor` named, if the library still has it, and else to the start.
    pub open spec fn revalidated(&self, cursor: CursorView) -> Option<CursorView> {
        match self.position_of_game(cursor.game_id) {
            Some(found) => Some(found),
            None => self.start(),
        }
    }

    /// The cursor after `intent`.
    pub fn navigate(&self, cursor: Option<Cursor>, intent: &Intent) -> (next: Option<Cursor>)
        requires
            self.wf(),
            self.spec_sections().len() > 0 ==> (cursor matches Some(c) ==> self.has_section(
                c@.section_id,
            )),
        ensures
            optional_view(next) == self.after_intent(optional_view(cursor), *intent),
            next matches Some(c) ==> (self.has_section(c@.section_id) || optional_view(cursor)
                == Some(c@)),
    {
        match intent {
            Intent::NextGame => match cursor {
                Some(c) => self.next_game(&c),
                None => None,
            },
            Intent::PreviousGame => match cursor {
                Some(c) => self.previous_game(&c),
                None => None,
            },
            Intent::NextSection => match cursor {
                Some(c) => self.next_section(&c),
                None => None,
            },
            Intent::PreviousSection => match cursor {
                Some(c) => self.previous_section(&c),
                None => None,
            },
            Intent::ToSection(c) => {
                let mut key = String::new();
                key.push(*c);
                assert(key@ =~= seq![*c]);
                match self.to_section(key.as_str()) {
                    Some(found) => Some(found),
                    None => cursor,
                }
            },
            Intent::ToGame(id) => match self.to_game(id) {
                Some(found) => Some(found),
                None => cursor,
            },
        }
    }

    /// A cursor for this library in place of one that was made for another:
    /// at the same game if the library has it, and else at the start.
    pub fn revalidate(&self, cursor: &Cursor) -> (fresh: Option<Cursor>)
        requires
            self.wf(),
        ensures
            optional_view(fresh) == self.revalidated(cursor@),
            fresh matches Some(c) ==> self.admits(c@),
    {
        match self.to_game(cursor.game_id()) {
            Some(found) => Some(found),
            None => self.get_cursor(),
        }
    }
}

} // verus!
