use vstd::prelude::*;
use vstd::relations::sorted_by;

use crate::cursor::CursorView;
use crate::game::Game;
use crate::library::{
    accepting, ids_of, lemma_first_place, lemma_ring_in_range, first_place, matching, ring_next,
    ring_previous, section_order, Library,
};
use crate::section::Section;

verus! {

impl<S: Section, F: Fn(&Game) -> S> Library<S, F> {
    /// No two sections of the library have the same id.
    pub open spec fn distinct_section_ids(&self) -> bool {
        ids_of(self.spec_sections()).no_duplicates()
    }

    /// Whether `cursor` names a section of the library, and a game that is a
    /// member of the section that the library finds under that name.
    pub open spec fn well_formed(&self, cursor: CursorView) -> bool {
        match self.place_of(cursor.section_id) {
            Some(place) => self.spec_sections()[place].member_ids().contains(cursor.game_id),
            None => false,
        }
    }

    /// A section whose id no earlier section has is found at its own place.
    pub proof fn lemma_place_of_section(&self, place: int)
        requires
            0 <= place < self.spec_sections().len(),
            forall|earlier: int|
                0 <= earlier < place ==> (#[trigger] self.spec_sections()[earlier]).spec_id()
                    != self.spec_sections()[place].spec_id(),
        ensures
            self.place_of(self.spec_sections()[place].spec_id()) == Some(place),
    {
        let ids = ids_of(self.spec_sections());
        let id = self.spec_sections()[place].spec_id();
        assert(ids[place] == id);
        ids.index_of_first_ensures(id);
        let found = ids.index_of_first(id).unwrap();
        if found < place {
            assert(self.spec_sections()[found].spec_id() == ids[found]);
        }
    }

    /// Where the sections have distinct ids, each is found at its own place.
    pub proof fn lemma_place_of_distinct(&self, place: int)
        requires
            self.distinct_section_ids(),
            0 <= place < self.spec_sections().len(),
        ensures
            self.place_of(self.spec_sections()[place].spec_id()) == Some(place),
    {
        let ids = ids_of(self.spec_sections());
        assert forall|earlier: int| 0 <= earlier < place implies (
        #[trigger] self.spec_sections()[earlier]).spec_id()
            != self.spec_sections()[place].spec_id() by {
            assert(ids[earlier] == self.spec_sections()[earlier].spec_id());
            assert(ids[place] == self.spec_sections()[place].spec_id());
        }
        self.lemma_place_of_section(place);
    }

    /// The sections of a library are always in the order of sections.
    pub proof fn lemma_sections_sorted(&self)
        requires
            self.wf(),
        ensures
            sorted_by(self.spec_sections(), section_order::<S>()),
    {
    }

    /// The cursor that `to_game` gives for an id leads `get_game` to a game
    /// with that id.
    pub proof fn lemma_to_game_then_get_game(&self, id: Seq<char>)
        requires
            self.wf(),
        ensures
            match self.position_of_game(id) {
                Some(cursor) => cursor.game_id == id && (self.game_under(cursor) matches Some(game)
                    && game@.id == id),
                None => !self.spec_games().contains_key(id),
            },
    {
        if self.spec_games().contains_key(id) {
            lemma_first_place(self.spec_sections(), accepting::<S>(self.spec_games()[id]@));
        }
    }

    /// In a library of one section with one game, a step forward and a step
    /// backward both lead to that game, from the game itself as from any
    /// other cursor in that section.
    pub proof fn lemma_single_game_wraps(&self, cursor: CursorView)
        requires
            self.wf(),
            self.spec_sections().len() == 1,
            self.spec_sections()[0].member_ids().len() == 1,
            self.has_section(cursor.section_id),
        ensures
            self.after_game(cursor) == self.head_of(0),
            self.before_game(cursor) == self.head_of(0),
            self.after_game(self.head_of(0)) == self.head_of(0),
            self.before_game(self.head_of(0)) == self.head_of(0),
    {
        let members = self.spec_sections()[0].member_ids();
        self.lemma_place_of_section(0);
        ids_of(self.spec_sections()).index_of_first_ensures(cursor.section_id);
        lemma_ring_in_range(0, 1);
        members.index_of_first_ensures(cursor.game_id);
        members.index_of_first_ensures(members[0]);
        assert(members.last() == members[0]);
    }

    /// A step forward from the last game of a section leads to the first
    /// game of the next section, from the last section to the first. This
    /// holds of a section that is found by its id, and of a last game that
    /// stands nowhere else in the section.
    pub proof fn lemma_next_game_crosses_sections(&self, place: int)
        requires
            self.wf(),
            0 <= place < self.spec_sections().len(),
            self.place_of(self.spec_sections()[place].spec_id()) == Some(place),
            self.spec_sections()[place].member_ids().index_of_first(
                self.spec_sections()[place].member_ids().last(),
            ) == Some(self.spec_sections()[place].member_ids().len() - 1),
        ensures
            self.after_game(self.tail_of(place)) == self.head_of(
                ring_next(place, self.spec_sections().len() as int),
            ),
    {
    }

    /// A step backward from the first game of a section leads to the last
    /// game of the previous section, from the first section to the last.
    /// This holds of a section that is found by its id.
    pub proof fn lemma_previous_game_crosses_sections(&self, place: int)
        requires
            self.wf(),
            0 <= place < self.spec_sections().len(),
            self.place_of(self.spec_sections()[place].spec_id()) == Some(place),
        ensures
            self.before_game(self.head_of(place)) == self.tail_of(
                ring_previous(place, self.spec_sections().len() as int),
            ),
    {
        let members = self.spec_sections()[place].member_ids();
        assert(members[0] == members[0]);
        members.index_of_first_ensures(members[0]);
    }

    /// Where the sections have distinct ids, the first and the last game of
    /// every section make a well-formed cursor.
    pub proof fn lemma_ends_well_formed(&self, place: int)
        requires
            self.wf(),
            self.distinct_section_ids(),
            0 <= place < self.spec_sections().len(),
        ensures
            self.well_formed(self.head_of(place)),
            self.well_formed(self.tail_of(place)),
    {
        let members = self.spec_sections()[place].member_ids();
        self.lemma_place_of_distinct(place);
        assert(members[0] == members[0]);
        assert(members[members.len() - 1] == members.last());
    }

    /// Where the sections have distinct ids, every cursor that the library
    /// gives to start from or to jump to is well formed.
    pub proof fn lemma_entries_well_formed(&self, key: Seq<char>, id: Seq<char>)
        requires
            self.wf(),
            self.distinct_section_ids(),
        ensures
            self.start() matches Some(cursor) ==> self.well_formed(cursor),
            self.section_for_key(key) matches Some(cursor) ==> self.well_formed(cursor),
            self.position_of_game(id) matches Some(cursor) ==> self.well_formed(cursor),
    {
        let sections = self.spec_sections();
        if sections.len() > 0 {
            self.lemma_ends_well_formed(0);
        }
        lemma_first_place(sections, matching::<S>(key));
        if let Some(place) = first_place(sections, matching::<S>(key)) {
            self.lemma_ends_well_formed(place);
        }
        if self.spec_games().contains_key(id) {
            let game = self.spec_games()[id]@;
            lemma_first_place(sections, accepting::<S>(game));
            if let Some(place) = first_place(sections, accepting::<S>(game)) {
                self.lemma_place_of_distinct(place);
                let holder = choose|holder: int|
                    0 <= holder < sections.len() && (#[trigger] sections[holder]).accepts_game(
                        game,
                    ) && sections[holder].member_ids().contains(id);
                assert(holder == place);
            }
        }
    }

    /// Where the sections have distinct ids, every step from a cursor whose
    /// section the library has leads to a well-formed cursor.
    pub proof fn lemma_steps_well_formed(&self, cursor: CursorView)
        requires
            self.wf(),
            self.distinct_section_ids(),
            self.has_section(cursor.section_id),
        ensures
            self.well_formed(self.after_game(cursor)),
            self.well_formed(self.before_game(cursor)),
            self.well_formed(self.after_section(cursor)),
            self.well_formed(self.before_section(cursor)),
    {
        let sections = self.spec_sections();
        let n = sections.len() as int;
        ids_of(sections).index_of_first_ensures(cursor.section_id);
        let place = self.place_of(cursor.section_id).unwrap();
        let members = sections[place].member_ids();
        members.index_of_first_ensures(cursor.game_id);
        lemma_ring_in_range(place, n);
        self.lemma_ends_well_formed(ring_next(place, n));
        self.lemma_ends_well_formed(ring_previous(place, n));
        match members.index_of_first(cursor.game_id) {
            Some(i) => {
                if i + 1 < members.len() {
                    assert(members[i + 1] == members[i + 1]);
                }
                if i > 0 {
                    assert(members[i - 1] == members[i - 1]);
                }
            },
            None => {},
        }
    }
}

} // verus!
