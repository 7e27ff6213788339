use vstd::prelude::*;
use vstd::string::StringExecFns;

use crate::catalog::{
    game_order, id_texts, lemma_game_order_total_preorder, sort_by_game_order, Catalog,
};
use crate::game::{Game, GameId, GameView};
use crate::section::{mismatch_message, Section, SectionId};
use crate::sorting::lemma_stable_sort;
use crate::text::{leading_char, to_uppercase_head, uppercase_head};

verus! {

/// The section of the games whose sort keys begin, case aside, with one
/// character.
pub struct CharacterSection {
    id: SectionId,
    character: char,
    game_ids: Vec<GameId>,
}

impl CharacterSection {
    /// The character that the section stands for.
    pub closed spec fn bucket(&self) -> char {
        self.character
    }

    /// An empty section for the games that `game` stands for: those whose
    /// sort key begins with the same character, case aside.
    pub fn new(game: &Game) -> (section: Self)
        ensures
            section.bucket() == uppercase_head(leading_char(game@.sort_key)),
            section.member_ids() == Seq::<Seq<char>>::empty(),
            section.accepts_game(game@),
    {
        Self::with_character(to_uppercase_head(game.first_character()))
    }

    /// An empty section that stands for `character`, taken as it is.
    pub fn with_character(character: char) -> (section: Self)
        ensures
            section.bucket() == character,
            section.member_ids() == Seq::<Seq<char>>::empty(),
    {
        let section = Self { id: SectionId::new(), character, game_ids: Vec::new() };
        assert(section.member_ids() =~= Seq::<Seq<char>>::empty());
        section
    }

    /// The character that the section stands for.
    pub fn character(&self) -> (character: char)
        ensures
            character == self.bucket(),
    {
        self.character
    }

    /// The ids of the members, in order.
    pub fn game_ids(&self) -> (ids: &[GameId])
        ensures
            id_texts(ids@) == self.member_ids(),
    {
        self.game_ids.as_slice()
    }

    /// Two games belong in the same section if and only if their sort keys
    /// begin, case aside, with the same character.
    pub proof fn lemma_same_section_same_character(&self, a: GameView, b: GameView)
        requires
            self.accepts_game(a),
        ensures
            self.accepts_game(b) <==> uppercase_head(leading_char(a.sort_key)) == uppercase_head(
                leading_char(b.sort_key),
            ),
    {
    }

    /// The place of the first occurrence of `id` among the members.
    fn position(&self, id: &GameId) -> (found: Option<usize>)
        ensures
            match found {
                Some(i) => i < self.game_ids.len() && self.member_ids().index_of_first(id@)
                    == Some(i as int),
                None => self.member_ids().index_of_first(id@) is None,
            },
    {
        let ghost members = self.member_ids();
        let mut i: usize = 0;
        while i < self.game_ids.len()
            invariant
                i <= self.game_ids.len(),
                members == self.member_ids(),
                forall|j: int| 0 <= j < i ==> members[j] != id@,
            decreases self.game_ids.len() - i,
        {
            if self.game_ids[i] == *id {
                proof {
                    assert(members[i as int] == id@);
                    members.index_of_first_ensures(id@);
                }
                return Some(i);
            }
            i += 1;
        }
        proof {
            members.index_of_first_ensures(id@);
        }
        None
    }
}

impl Section for CharacterSection {
    closed spec fn spec_id(&self) -> SectionId {
        self.id
    }

    open spec fn title_text(&self) -> Seq<char> {
        "Section '"@ + seq![self.bucket()] + "'"@
    }

    closed spec fn member_ids(&self) -> Seq<Seq<char>> {
        id_texts(self.game_ids@)
    }

    open spec fn accepts_game(&self, game: GameView) -> bool {
        uppercase_head(leading_char(game.sort_key)) == self.bucket()
    }

    open spec fn matches_key(&self, key: Seq<char>) -> bool {
        key.len() > 0 && uppercase_head(key[0]) == self.bucket()
    }

    open spec fn ranks_no_later(&self, other: &Self) -> bool {
        self.bucket() as u32 <= other.bucket() as u32
    }

    proof fn lemma_rank_total(a: &Self, b: &Self) {
    }

    proof fn lemma_rank_transitive(a: &Self, b: &Self, c: &Self) {
    }

    proof fn lemma_accepts_exclusive(a: &Self, b: &Self, shared: GameView, other: GameView) {
    }

    fn id(&self) -> (id: &SectionId) {
        &self.id
    }

    fn title(&self) -> (title: String) {
        let mut title = "Section '".to_owned();
        title.push(self.character);
        title.append("'");
        assert(title@ =~= self.title_text());
        title
    }

    fn accepts(&self, game: &Game) -> (accepted: bool) {
        to_uppercase_head(game.first_character()) == self.character
    }

    fn satisfies(&self, value: &str) -> (matched: bool) {
        broadcast use vstd::string::group_string_axioms;

        let mut it = value.chars();
        match it.next() {
            Some(c) => to_uppercase_head(c) == self.character,
            None => false,
        }
    }

    fn sorts_no_later(&self, other: &Self) -> (no_later: bool) {
        self.character as u32 <= other.character as u32
    }

    fn add_game(&mut self, game: &Game, games: &Catalog) -> (result: Result<(), String>) {
        if !self.accepts(game) {
            let mut message = "Game '".to_owned();
            message.append(game.title());
            message.append("' does not belong in ");
            let title = self.title();
            message.append(title.as_str());
            assert(message@ =~= mismatch_message(game@.title, self.title_text()));
            return Err(message);
        }
        let ghost before = self.member_ids();
        self.game_ids.push(game.id().clone());
        assert(id_texts(self.game_ids@) =~= before.push(game@.id));
        sort_by_game_order(&mut self.game_ids, games);
        proof {
            lemma_game_order_total_preorder(games@);
            lemma_stable_sort(before.push(game@.id), game_order(games@));
        }
        Ok(())
    }

    fn first_game_id(&self) -> (found: Option<&GameId>) {
        if self.game_ids.len() > 0 {
            Some(&self.game_ids[0])
        } else {
            None
        }
    }

    fn last_game_id(&self) -> (found: Option<&GameId>) {
        let n = self.game_ids.len();
        if n > 0 {
            Some(&self.game_ids[n - 1])
        } else {
            None
        }
    }

    fn next_game_id(&self, current_game_id: &GameId) -> (found: Option<&GameId>) {
        match self.position(current_game_id) {
            Some(i) => if i + 1 < self.game_ids.len() {
                Some(&self.game_ids[i + 1])
            } else {
                None
            },
            None => None,
        }
    }

    fn previous_game_id(&self, current_game_id: &GameId) -> (found: Option<&GameId>) {
        match self.position(current_game_id) {
            Some(i) => if i > 0 {
                Some(&self.game_ids[i - 1])
            } else {
                None
            },
            None => None,
        }
    }
}

} // verus!
