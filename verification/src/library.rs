use vstd::arithmetic::div_mod::{
    lemma_add_mod_noop_right, lemma_mod_add_multiples_vanish, lemma_mod_self_0, lemma_small_mod,
};
use vstd::prelude::*;
use vstd::relations::sorted_by;

use crate::catalog::{
    all_known, game_order, keyed_by_id, lemma_game_order_total_preorder, lemma_sorted_ids_known,
    Catalog,
};
use crate::cursor::{optional_view, Cursor, CursorView};
use crate::game::{Game, GameId, GameView};
use crate::section::{predecessor, same_bucket, successor, Section, SectionId};
use crate::sorting::{
    insertion_point, lemma_push_then_sort, lemma_stable_insert_sorted, lemma_stable_sort,
    lemma_stable_sort_contains, stable_sort, total_preorder,
};

verus! {

/// The place after `current` in a ring of `len` places.
pub open spec fn ring_next(current: int, len: int) -> int {
    (current + 1) % len
}

/// The place before `current` in a ring of `len` places.
pub open spec fn ring_previous(current: int, len: int) -> int {
    (current + len - 1) % len
}

/// In a ring, the place after the last is the first and the place before
/// the first is the last; every other place has its neighbours beside it.
pub proof fn lemma_ring_neighbours(current: int, len: int)
    requires
        0 <= current < len,
    ensures
        ring_next(current, len) == if current + 1 == len {
            0
        } else {
            current + 1
        },
        ring_previous(current, len) == if current == 0 {
            len - 1
        } else {
            current - 1
        },
{
    if current + 1 == len {
        lemma_mod_self_0(len);
    } else {
        lemma_small_mod((current + 1) as nat, len as nat);
    }
    if current == 0 {
        lemma_small_mod((len - 1) as nat, len as nat);
    } else {
        lemma_mod_add_multiples_vanish(current - 1, len);
        lemma_small_mod((current - 1) as nat, len as nat);
        assert(current + len - 1 == len + (current - 1));
    }
}

/// The places next to one of a ring's places are places of the ring.
pub proof fn lemma_ring_in_range(current: int, len: int)
    requires
        0 <= current < len,
    ensures
        0 <= ring_next(current, len) < len,
        0 <= ring_previous(current, len) < len,
{
    lemma_ring_neighbours(current, len);
}

/// The place after `current` among `len` places, the first after the last.
pub fn next_index(current: usize, len: usize) -> (next: usize)
    requires
        len > 0,
    ensures
        next == ring_next(current as int, len as int),
        next < len,
{
    let place = current % len;
    proof {
        lemma_add_mod_noop_right(1, current as int, len as int);
        lemma_ring_neighbours(place as int, len as int);
    }
    if place + 1 == len {
        0
    } else {
        place + 1
    }
}

/// The place before `current` among `len` places, the last before the first.
pub fn previous_index(current: usize, len: usize) -> (previous: usize)
    requires
        len > 0,
    ensures
        previous == ring_previous(current as int, len as int),
        previous < len,
{
    let place = current % len;
    proof {
        lemma_add_mod_noop_right(len - 1, current as int, len as int);
        lemma_ring_neighbours(place as int, len as int);
    }
    if place == 0 {
        len - 1
    } else {
        place - 1
    }
}

/// The place of the first element of `s` that is wanted, if there is one.
pub open spec fn first_place<T>(s: Seq<T>, wanted: spec_fn(T) -> bool) -> Option<int>
    decreases s.len(),
{
    if s.len() == 0 {
        None
    } else {
        match first_place(s.drop_last(), wanted) {
            Some(i) => Some(i),
            None => if wanted(s.last()) {
                Some(s.len() - 1)
            } else {
                None
            },
        }
    }
}

/// `first_place` finds a wanted element before which none is wanted, and finds
/// nothing only where no element is wanted.
pub proof fn lemma_first_place<T>(s: Seq<T>, wanted: spec_fn(T) -> bool)
    ensures
        match first_place(s, wanted) {
            Some(i) => 0 <= i < s.len() && wanted(s[i]) && forall|j: int|
                0 <= j < i ==> !wanted(#[trigger] s[j]),
            None => forall|j: int| 0 <= j < s.len() ==> !wanted(#[trigger] s[j]),
        },
    decreases s.len(),
{
    if s.len() > 0 {
        let t = s.drop_last();
        lemma_first_place(t, wanted);
        assert forall|j: int| 0 <= j < t.len() implies s[j] == t[j] by {}
        match first_place(t, wanted) {
            Some(i) => {
                assert(s[i] == t[i]);
                assert forall|j: int| 0 <= j < i implies !wanted(#[trigger] s[j]) by {
                    assert(s[j] == t[j]);
                }
            },
            None => {
                assert forall|j: int| 0 <= j < t.len() implies !wanted(#[trigger] s[j]) by {
                    assert(s[j] == t[j]);
                }
            },
        }
    }
}

/// The sections that accept `game`.
pub open spec fn accepting<S: Section>(game: GameView) -> spec_fn(S) -> bool {
    |section: S| section.accepts_game(game)
}

/// The sections that the key `key` selects.
pub open spec fn matching<S: Section>(key: Seq<char>) -> spec_fn(S) -> bool {
    |section: S| section.matches_key(key)
}

/// The absolute value of `offset`.
pub open spec fn magnitude(offset: int) -> nat {
    if offset < 0 {
        (-offset) as nat
    } else {
        offset as nat
    }
}

/// The absolute value of `offset`, which fits an unsigned integer of the
/// same width whatever `offset` is.
pub fn magnitude_of(offset: i32) -> (steps: u32)
    ensures
        steps == magnitude(offset as int),
{
    if offset >= 0 {
        offset as u32
    } else if offset == i32::MIN {
        2147483648u32
    } else {
        (-offset) as u32
    }
}

/// The order of sections, as a relation.
pub open spec fn section_order<S: Section>() -> spec_fn(S, S) -> bool {
    |a: S, b: S| a.ranks_no_later(&b)
}

/// The order of sections compares any two sections and is transitive.
pub proof fn lemma_section_order_total_preorder<S: Section>()
    ensures
        total_preorder(section_order::<S>()),
{
    let le = section_order::<S>();
    assert forall|a: S, b: S| #[trigger] le(a, b) || #[trigger] le(b, a) by {
        S::lemma_rank_total(&a, &b);
    }
    assert forall|a: S, b: S, c: S| #[trigger] le(a, b) && #[trigger] le(b, c) implies le(
        a,
        c,
    ) by {
        S::lemma_rank_transitive(&a, &b, &c);
    }
    assert(vstd::relations::strongly_connected(le));
    assert(vstd::relations::transitive(le));
}

/// The ids of `sections`, in order.
pub open spec fn ids_of<S: Section>(sections: Seq<S>) -> Seq<SectionId> {
    sections.map_values(|s: S| s.spec_id())
}

/// What a section factory must do: it can be called on any game, and what it
/// makes for a game is an empty section that accepts that game.
pub open spec fn makes_sections<S: Section, F: Fn(&Game) -> S>(factory: F) -> bool {
    &&& forall|game: &Game| call_requires(factory, (game,))
    &&& forall|game: &Game, section: S| #[trigger]
        call_ensures(factory, (game,), section) ==> section.accepts_game(game@)
            && section.member_ids().len() == 0
}

/// No game is accepted by two of `sections`.
pub open spec fn exclusive<S: Section>(sections: Seq<S>) -> bool {
    forall|i: int, j: int, game: GameView|
        0 <= i < sections.len() && 0 <= j < sections.len() && i != j
            && #[trigger] sections[i].accepts_game(game) ==> !#[trigger] sections[j].accepts_game(
            game,
        )
}

/// `section` accepts `game` and has `id` among its members.
pub open spec fn holds<S: Section>(section: S, game: GameView, id: Seq<char>) -> bool {
    section.accepts_game(game) && section.member_ids().contains(id)
}

/// The game stored under `id` is a member of a section that accepts it.
pub open spec fn placed<S: Section>(
    sections: Seq<S>,
    games: Map<Seq<char>, Game>,
    id: Seq<char>,
) -> bool {
    exists|i: int| 0 <= i < sections.len() && holds(#[trigger] sections[i], games[id]@, id)
}

/// Every game of `games` is a member of a section that accepts it.
pub open spec fn all_placed<S: Section>(sections: Seq<S>, games: Map<Seq<char>, Game>) -> bool {
    forall|id: Seq<char>| #[trigger] games.contains_key(id) ==> placed(sections, games, id)
}

/// A library of games, grouped into sections. It owns the games and the
/// sections, and makes a section with its factory when a game arrives that no
/// section accepts.
#[verifier::reject_recursive_types(S)]
#[verifier::reject_recursive_types(F)]
pub struct Library<S: Section, F: Fn(&Game) -> S> {
    games: Catalog,
    sections: Vec<S>,
    section_factory: F,
}

impl<S: Section, F: Fn(&Game) -> S> Library<S, F> {
    /// The games of the library, by id.
    pub closed spec fn spec_games(&self) -> Map<Seq<char>, Game> {
        self.games@
    }

    /// The sections of the library, in order.
    pub closed spec fn spec_sections(&self) -> Seq<S> {
        self.sections@
    }

    /// The factory that makes the library's sections.
    pub closed spec fn spec_factory(&self) -> F {
        self.section_factory
    }

    /// The library's invariant.
    pub open spec fn wf(&self) -> bool {
        &&& makes_sections::<S, F>(self.spec_factory())
        &&& keyed_by_id(self.spec_games())
        &&& sorted_by(self.spec_sections(), section_order::<S>())
        &&& exclusive(self.spec_sections())
        &&& all_placed(self.spec_sections(), self.spec_games())
        &&& forall|i: int|
            0 <= i < self.spec_sections().len() ==> (#[trigger] self.spec_sections()[i]).member_ids().len()
                > 0
        &&& forall|i: int|
            0 <= i < self.spec_sections().len() ==> all_known(
                (#[trigger] self.spec_sections()[i]).member_ids(),
                self.spec_games(),
            )
    }

    /// The library's state while the game stored under `waiting` has no
    /// section yet: the invariant holds but for that game, and for the
    /// section at `room`, if any, which was made for the game and is empty.
    pub open spec fn placing(&self, waiting: Seq<char>, room: Option<int>) -> bool {
        &&& makes_sections::<S, F>(self.spec_factory())
        &&& keyed_by_id(self.spec_games())
        &&& sorted_by(self.spec_sections(), section_order::<S>())
        &&& exclusive(self.spec_sections())
        &&& forall|id: Seq<char>| #[trigger]
            self.spec_games().contains_key(id) && id != waiting ==> placed(
                self.spec_sections(),
                self.spec_games(),
                id,
            )
        &&& forall|i: int|
            0 <= i < self.spec_sections().len() && Some(i) != room ==> (
            #[trigger] self.spec_sections()[i]).member_ids().len() > 0
        &&& forall|i: int|
            0 <= i < self.spec_sections().len() ==> all_known(
                (#[trigger] self.spec_sections()[i]).member_ids(),
                self.spec_games(),
            )
    }

    /// This library is `before` with a section made for the game stored under
    /// `waiting`: what the factory gave for the game stands at `place`,
    /// where it belongs in the order of sections, and is still empty.
    pub open spec fn makes_room(&self, before: Self, waiting: Seq<char>, place: int) -> bool {
        &&& self.placing(waiting, Some(place))
        &&& 0 <= place <= before.spec_sections().len()
        &&& call_ensures(
            before.spec_factory(),
            (&before.spec_games()[waiting],),
            self.spec_sections()[place],
        )
        &&& place == insertion_point(
            before.spec_sections(),
            self.spec_sections()[place],
            section_order::<S>(),
        )
        &&& self.spec_sections() == before.spec_sections().insert(
            place,
            self.spec_sections()[place],
        )
    }

    /// The place of the first section with the id `id`.
    pub open spec fn place_of(&self, id: SectionId) -> Option<int> {
        ids_of(self.spec_sections()).index_of_first(id)
    }

    /// Whether the library has a section with the id `id`.
    pub open spec fn has_section(&self, id: SectionId) -> bool {
        self.place_of(id) is Some
    }

    /// The position of the first game of the section at place `i`.
    pub open spec fn head_of(&self, i: int) -> CursorView {
        CursorView {
            section_id: self.spec_sections()[i].spec_id(),
            game_id: self.spec_sections()[i].member_ids()[0],
        }
    }

    /// The position of the last game of the section at place `i`.
    pub open spec fn tail_of(&self, i: int) -> CursorView {
        CursorView {
            section_id: self.spec_sections()[i].spec_id(),
            game_id: self.spec_sections()[i].member_ids().last(),
        }
    }

    /// Where `next_section` leads from `cursor`: to the first game of the
    /// section after the cursor's, the first section following the last.
    pub open spec fn after_section(&self, cursor: CursorView) -> CursorView {
        self.head_of(
            ring_next(self.place_of(cursor.section_id).unwrap(), self.spec_sections().len() as int),
        )
    }

    /// Where `previous_section` leads from `cursor`: to the first game of the
    /// section before the cursor's, the last section preceding the first.
    pub open spec fn before_section(&self, cursor: CursorView) -> CursorView {
        self.head_of(
            ring_previous(
                self.place_of(cursor.section_id).unwrap(),
                self.spec_sections().len() as int,
            ),
        )
    }

    /// Where `next_game` leads from `cursor`: to the game that follows in the
    /// cursor's section, or from its last game to the first game of the next
    /// section.
    pub open spec fn after_game(&self, cursor: CursorView) -> CursorView {
        let place = self.place_of(cursor.section_id).unwrap();
        match successor(self.spec_sections()[place].member_ids(), cursor.game_id) {
            Some(game_id) => CursorView { section_id: cursor.section_id, game_id },
            None => self.after_section(cursor),
        }
    }

    /// Where `previous_game` leads from `cursor`: to the game before it in the
    /// cursor's section, or from its first game to the last game of the
    /// previous section.
    pub open spec fn before_game(&self, cursor: CursorView) -> CursorView {
        let place = self.place_of(cursor.section_id).unwrap();
        match predecessor(self.spec_sections()[place].member_ids(), cursor.game_id) {
            Some(game_id) => CursorView { section_id: cursor.section_id, game_id },
            None => self.tail_of(ring_previous(place, self.spec_sections().len() as int)),
        }
    }

    /// Where `get_cursor` starts: at the first game of the first section.
    pub open spec fn start(&self) -> Option<CursorView> {
        if self.spec_sections().len() == 0 {
            None
        } else {
            Some(self.head_of(0))
        }
    }

    /// Where `to_section` leads for `key`: to the first game of the first
    /// section that the key selects.
    pub open spec fn section_for_key(&self, key: Seq<char>) -> Option<CursorView> {
        match first_place(self.spec_sections(), matching::<S>(key)) {
            Some(i) => Some(self.head_of(i)),
            None => None,
        }
    }

    /// Where `to_game` leads for `id`: to the game with that id, in the first
    /// section that accepts it.
    pub open spec fn position_of_game(&self, id: Seq<char>) -> Option<CursorView> {
        if self.spec_games().contains_key(id) {
            match first_place(self.spec_sections(), accepting::<S>(self.spec_games()[id]@)) {
                Some(i) => Some(
                    CursorView { section_id: self.spec_sections()[i].spec_id(), game_id: id },
                ),
                None => None,
            }
        } else {
            None
        }
    }

    /// The game under `cursor`: the one stored under the cursor's game id.
    pub open spec fn game_under(&self, cursor: CursorView) -> Option<Game> {
        if self.spec_games().contains_key(cursor.game_id) {
            Some(self.spec_games()[cursor.game_id])
        } else {
            None
        }
    }

    /// Whether `cursor` names a section and a game that the library has.
    pub open spec fn admits(&self, cursor: CursorView) -> bool {
        self.has_section(cursor.section_id) && self.spec_games().contains_key(cursor.game_id)
    }

    /// Where `steps` steps of `previous_game` lead from `cursor`.
    pub open spec fn stepped_back(&self, cursor: CursorView, steps: nat) -> CursorView
        decreases steps,
    {
        if steps == 0 {
            cursor
        } else {
            self.before_game(self.stepped_back(cursor, (steps - 1) as nat))
        }
    }

    /// Where `steps` steps of `next_game` lead from `cursor`.
    pub open spec fn stepped_forward(&self, cursor: CursorView, steps: nat) -> CursorView
        decreases steps,
    {
        if steps == 0 {
            cursor
        } else {
            self.after_game(self.stepped_forward(cursor, (steps - 1) as nat))
        }
    }

    /// The position `i` of the window around `cursor`: the window starts
    /// `back` games before the cursor and goes on game by game.
    pub open spec fn window_position(&self, cursor: CursorView, back: nat, i: nat) -> CursorView {
        self.stepped_forward(self.stepped_back(cursor, back), i)
    }

    /// In a library with sections, the section at every place can be found
    /// by its id, and its members are games of the library.
    pub proof fn lemma_members_admitted(&self, place: int, member: int)
        requires
            self.wf(),
            0 <= place < self.spec_sections().len(),
            0 <= member < self.spec_sections()[place].member_ids().len(),
        ensures
            self.admits(
                CursorView {
                    section_id: self.spec_sections()[place].spec_id(),
                    game_id: self.spec_sections()[place].member_ids()[member],
                },
            ),
    {
        let ids = ids_of(self.spec_sections());
        assert(ids[place] == self.spec_sections()[place].spec_id());
        assert(ids.contains(self.spec_sections()[place].spec_id()));
        ids.index_of_first_ensures(self.spec_sections()[place].spec_id());
    }

    /// A step forward or backward from a position whose section the library
    /// has leads to a section and a game that the library has.
    pub proof fn lemma_steps_admitted(&self, cursor: CursorView)
        requires
            self.wf(),
            self.has_section(cursor.section_id),
        ensures
            self.admits(self.after_game(cursor)),
            self.admits(self.before_game(cursor)),
            self.admits(self.after_section(cursor)),
            self.admits(self.before_section(cursor)),
    {
        let sections = self.spec_sections();
        let n = sections.len() as int;
        let ids = ids_of(sections);
        ids.index_of_first_ensures(cursor.section_id);
        let place = self.place_of(cursor.section_id).unwrap();
        let members = sections[place].member_ids();
        members.index_of_first_ensures(cursor.game_id);
        lemma_ring_in_range(place, n);
        let next = ring_next(place, n);
        let previous = ring_previous(place, n);
        self.lemma_members_admitted(next, 0);
        self.lemma_members_admitted(previous, 0);
        self.lemma_members_admitted(previous, sections[previous].member_ids().len() - 1);
        match members.index_of_first(cursor.game_id) {
            Some(i) => {
                if i + 1 < members.len() {
                    self.lemma_members_admitted(place, i + 1);
                }
                if i > 0 {
                    self.lemma_members_admitted(place, i - 1);
                }
            },
            None => {},
        }
    }

    /// An empty library that makes its sections with `section_factory`.
    pub fn new(section_factory: F) -> (library: Self)
        requires
            makes_sections::<S, F>(section_factory),
        ensures
            library.wf(),
            library.spec_games() == Map::<Seq<char>, Game>::empty(),
            library.spec_sections() == Seq::<S>::empty(),
            library.spec_factory() == section_factory,
    {
        Self { games: Catalog::new(), sections: Vec::new(), section_factory }
    }

    /// The games of the library.
    pub fn games(&self) -> (games: &Catalog)
        ensures
            games@ == self.spec_games(),
    {
        &self.games
    }

    /// The sections of the library, in order.
    pub fn sections(&self) -> (sections: &[S])
        ensures
            sections@ == self.spec_sections(),
    {
        self.sections.as_slice()
    }

    /// Whether the library has a section with the id `id`.
    pub fn contains_section(&self, id: &SectionId) -> (found: bool)
        ensures
            found == self.has_section(*id),
    {
        let ghost ids = ids_of(self.spec_sections());
        let mut i: usize = 0;
        while i < self.sections.len()
            invariant
                i <= self.sections.len(),
                ids == ids_of(self.spec_sections()),
                forall|j: int| 0 <= j < i ==> ids[j] != *id,
            decreases self.sections.len() - i,
        {
            if *self.sections[i].id() == *id {
                proof {
                    assert(ids[i as int] == *id);
                    ids.index_of_first_ensures(*id);
                }
                return true;
            }
            i += 1;
        }
        proof {
            ids.index_of_first_ensures(*id);
        }
        false
    }

    /// Whether the library has the section and the game that `cursor` names.
    pub fn admits_cursor(&self, cursor: &Cursor) -> (admitted: bool)
        ensures
            admitted == self.admits(cursor@),
    {
        self.contains_section(cursor.section_id()) && self.games.contains(cursor.game_id())
    }

    /// The position to start from: the first game of the first section.
    /// There is none only in a library without sections.
    pub fn get_cursor(&self) -> (cursor: Option<Cursor>)
        requires
            self.wf(),
        ensures
            optional_view(cursor) == self.start(),
            cursor matches Some(c) ==> self.admits(c@),
    {
        if self.sections.len() == 0 {
            return None;
        }
        proof {
            self.lemma_members_admitted(0, 0);
        }
        Cursor::first_game(&self.sections[0])
    }

    /// The place of the first section that accepts `game`.
    fn find_section(&self, game: &Game) -> (place: Option<usize>)
        ensures
            match place {
                Some(i) => i < self.spec_sections().len() && first_place(
                    self.spec_sections(),
                    accepting::<S>(game@),
                ) == Some(i as int),
                None => first_place(self.spec_sections(), accepting::<S>(game@)) is None,
            },
    {
        let ghost wanted = accepting::<S>(game@);
        let mut i: usize = 0;
        while i < self.sections.len()
            invariant
                i <= self.sections.len(),
                wanted == accepting::<S>(game@),
                forall|j: int| 0 <= j < i ==> !wanted(#[trigger] self.spec_sections()[j]),
            decreases self.sections.len() - i,
        {
            if self.sections[i].accepts(game) {
                proof {
                    lemma_first_place(self.spec_sections(), wanted);
                    assert(wanted(self.spec_sections()[i as int]));
                }
                return Some(i);
            }
            i += 1;
        }
        proof {
            lemma_first_place(self.spec_sections(), wanted);
        }
        None
    }

    /// The position of the first game of the first section that `value`
    /// selects. There is none where it selects no section.
    pub fn to_section(&self, value: &str) -> (cursor: Option<Cursor>)
        requires
            self.wf(),
        ensures
            optional_view(cursor) == self.section_for_key(value@),
            cursor matches Some(c) ==> self.admits(c@),
    {
        let ghost wanted = matching::<S>(value@);
        let mut i: usize = 0;
        while i < self.sections.len()
            invariant
                i <= self.sections.len(),
                self.wf(),
                wanted == matching::<S>(value@),
                forall|j: int| 0 <= j < i ==> !wanted(#[trigger] self.spec_sections()[j]),
            decreases self.sections.len() - i,
        {
            if self.sections[i].satisfies(value) {
                proof {
                    lemma_first_place(self.spec_sections(), wanted);
                    assert(wanted(self.spec_sections()[i as int]));
                    self.lemma_members_admitted(i as int, 0);
                }
                return Cursor::first_game(&self.sections[i]);
            }
            i += 1;
        }
        proof {
            lemma_first_place(self.spec_sections(), wanted);
        }
        None
    }

    /// The position of the game with the id `game_id`, in the first section
    /// that accepts the game. There is none where the library has no game
    /// with that id.
    pub fn to_game(&self, game_id: &GameId) -> (cursor: Option<Cursor>)
        requires
            self.wf(),
        ensures
            optional_view(cursor) == self.position_of_game(game_id@),
            cursor is Some <==> self.spec_games().contains_key(game_id@),
            cursor matches Some(c) ==> self.admits(c@),
    {
        let game = match self.games.get(game_id) {
            Some(game) => game,
            None => {
                return None;
            },
        };
        proof {
            lemma_first_place(self.spec_sections(), accepting::<S>(game@));
        }
        match self.find_section(game) {
            Some(place) => {
                proof {
                    self.lemma_members_admitted(place as int, 0);
                }
                Some(Cursor::for_game(&self.sections[place], game_id))
            },
            None => None,
        }
    }

    /// The game under the cursor, if the library has a game with the
    /// cursor's game id.
    pub fn get_game(&self, cursor: &Cursor) -> (game: Option<&Game>)
        ensures
            match game {
                Some(g) => self.game_under(cursor@) == Some(*g),
                None => self.game_under(cursor@) is None,
            },
    {
        self.games.get(cursor.game_id())
    }

    /// The place at which `section` goes into the sorted list of sections:
    /// behind the last section that does not rank after it.
    fn find_insertion_point(&self, section: &S) -> (place: usize)
        ensures
            place == insertion_point(self.spec_sections(), *section, section_order::<S>()),
            place <= self.spec_sections().len(),
    {
        let ghost le = section_order::<S>();
        let ghost all = self.spec_sections();
        let mut place: usize = self.sections.len();
        assert(all.subrange(0, place as int) =~= all);
        while place > 0
            invariant_except_break
                insertion_point(all, *section, le) == insertion_point(
                    all.subrange(0, place as int),
                    *section,
                    le,
                ),
            invariant
                place <= self.sections.len(),
                all == self.spec_sections(),
                le == section_order::<S>(),
            ensures
                insertion_point(all, *section, le) == place,
            decreases place,
        {
            let ghost prefix = all.subrange(0, place as int);
            assert(prefix.last() == all[place - 1]);
            if self.sections[place - 1].sorts_no_later(section) {
                break;
            }
            assert(prefix.drop_last() =~= all.subrange(0, place - 1));
            place -= 1;
        }
        place
    }

    /// Stores `game` under its id, in place of any game stored there before.
    /// The game is then waiting for its place in a section.
    fn insert_game(&mut self, game: Game) -> (game_id: GameId)
        requires
            old(self).wf(),
        ensures
            game_id@ == game@.id,
            final(self).spec_games() == old(self).spec_games().insert(game@.id, game),
            final(self).spec_sections() == old(self).spec_sections(),
            final(self).spec_factory() == old(self).spec_factory(),
            final(self).placing(game@.id, None),
    {
        let game_id = game.id().clone();
        self.games.insert(game);
        proof {
            let sections = self.spec_sections();
            assert forall|i: int| 0 <= i < sections.len() implies all_known(
                (#[trigger] sections[i]).member_ids(),
                self.spec_games(),
            ) by {
                assert(all_known(sections[i].member_ids(), old(self).spec_games()));
            }
            assert forall|id: Seq<char>| #[trigger]
                self.spec_games().contains_key(id) && id != game@.id implies placed(
                sections,
                self.spec_games(),
                id,
            ) by {
                assert(old(self).spec_games().contains_key(id));
                assert(placed(sections, old(self).spec_games(), id));
            }
        }
        game_id
    }

    /// The place of the section for the waiting game: that of the first
    /// section that accepts it, or that of a new section made for it.
    fn ensure_section(&mut self, game_id: &GameId) -> (place: usize)
        requires
            old(self).placing(game_id@, None),
            old(self).spec_games().contains_key(game_id@),
        ensures
            final(self).spec_games() == old(self).spec_games(),
            final(self).spec_factory() == old(self).spec_factory(),
            place < final(self).spec_sections().len(),
            final(self).spec_sections()[place as int].accepts_game(
                old(self).spec_games()[game_id@]@,
            ),
            match first_place(
                old(self).spec_sections(),
                accepting::<S>(old(self).spec_games()[game_id@]@),
            ) {
                Some(i) => place == i && final(self).spec_sections() == old(self).spec_sections()
                    && final(self).placing(game_id@, None),
                None => final(self).makes_room(*old(self), game_id@, place as int),
            },
    {
        match self.find_section(self.get_game_by_id(game_id)) {
            Some(place) => {
                proof {
                    lemma_first_place(
                        self.spec_sections(),
                        accepting::<S>(self.spec_games()[game_id@]@),
                    );
                }
                place
            },
            None => self.create_section(game_id),
        }
    }

    /// Makes a section for the waiting game, which no section accepts, and
    /// puts it into the list of sections at its place in the order of
    /// sections: where it stands when it is appended and the list sorted.
    fn create_section(&mut self, game_id: &GameId) -> (place: usize)
        requires
            old(self).placing(game_id@, None),
            old(self).spec_games().contains_key(game_id@),
            first_place(
                old(self).spec_sections(),
                accepting::<S>(old(self).spec_games()[game_id@]@),
            ) is None,
        ensures
            final(self).spec_games() == old(self).spec_games(),
            final(self).spec_factory() == old(self).spec_factory(),
            place < final(self).spec_sections().len(),
            final(self).spec_sections()[place as int].accepts_game(
                old(self).spec_games()[game_id@]@,
            ),
            final(self).makes_room(*old(self), game_id@, place as int),
            final(self).spec_sections() == stable_sort(
                old(self).spec_sections().push(final(self).spec_sections()[place as int]),
                section_order::<S>(),
            ),
    {
        let ghost old_sections = self.spec_sections();
        let ghost game = self.spec_games()[game_id@]@;
        let ghost le = section_order::<S>();
        let new_section = (self.section_factory)(self.get_game_by_id(game_id));
        let place = self.find_insertion_point(&new_section);
        self.sections.insert(place, new_section);
        proof {
            let sections = self.spec_sections();
            lemma_section_order_total_preorder::<S>();
            lemma_stable_insert_sorted(old_sections, new_section, le);
            lemma_push_then_sort(old_sections, new_section, le);
            lemma_first_place(old_sections, accepting::<S>(game));
            assert forall|i: int| 0 <= i < sections.len() && i != place implies sections[i]
                == old_sections[if i < place {
                i
            } else {
                i - 1
            }] by {}
            assert(exclusive(sections)) by {
                assert forall|i: int, j: int, any: GameView|
                    0 <= i < sections.len() && 0 <= j < sections.len() && i != j
                        && #[trigger] sections[i].accepts_game(any) implies !#[trigger] sections[j].accepts_game(
                    any,
                ) by {
                    let ki = if i < place { i } else { i - 1 };
                    let kj = if j < place { j } else { j - 1 };
                    if i == place {
                        assert(sections[j] == old_sections[kj]);
                        assert(!accepting::<S>(game)(old_sections[kj]));
                        if old_sections[kj].accepts_game(any) {
                            S::lemma_accepts_exclusive(&new_section, &old_sections[kj], any, game);
                        }
                    } else if j == place {
                        assert(sections[i] == old_sections[ki]);
                        assert(!accepting::<S>(game)(old_sections[ki]));
                        if new_section.accepts_game(any) {
                            S::lemma_accepts_exclusive(&new_section, &old_sections[ki], any, game);
                        }
                    } else {
                        assert(sections[i] == old_sections[ki]);
                        assert(sections[j] == old_sections[kj]);
                    }
                }
            }
            assert forall|id: Seq<char>| #[trigger]
                self.spec_games().contains_key(id) && id != game_id@ implies placed(
                sections,
                self.spec_games(),
                id,
            ) by {
                assert(placed(old_sections, self.spec_games(), id));
                let w = choose|w: int|
                    0 <= w < old_sections.len() && holds(
                        #[trigger] old_sections[w],
                        self.spec_games()[id]@,
                        id,
                    );
                let m = if w >= place { w + 1 } else { w };
                assert(sections[m] == old_sections[w]);
                assert(holds(sections[m], self.spec_games()[id]@, id));
            }
            assert(sections.remove(place as int) =~= old_sections);
        }
        place
    }

    /// Makes the waiting game a member of the section at `section_index`,
    /// which accepts it.
    fn categorise_game(&mut self, section_index: usize, game_id: &GameId)
        requires
            section_index < old(self).spec_sections().len(),
            old(self).spec_games().contains_key(game_id@),
            old(self).spec_sections()[section_index as int].accepts_game(
                old(self).spec_games()[game_id@]@,
            ),
            old(self).placing(game_id@, None) || old(self).placing(
                game_id@,
                Some(section_index as int),
            ),
        ensures
            final(self).wf(),
            final(self).spec_games() == old(self).spec_games(),
            final(self).spec_factory() == old(self).spec_factory(),
            final(self).spec_sections() == old(self).spec_sections().update(
                section_index as int,
                final(self).spec_sections()[section_index as int],
            ),
            same_bucket(
                &final(self).spec_sections()[section_index as int],
                &old(self).spec_sections()[section_index as int],
            ),
            final(self).spec_sections()[section_index as int].member_ids() == stable_sort(
                old(self).spec_sections()[section_index as int].member_ids().push(game_id@),
                game_order(old(self).spec_games()),
            ),
            sorted_by(
                final(self).spec_sections()[section_index as int].member_ids(),
                game_order(old(self).spec_games()),
            ),
    {
        let ghost old_sections = self.spec_sections();
        let ghost games = self.spec_games();
        let ghost le = section_order::<S>();
        let ghost before = old_sections[section_index as int];
        let game = self.games.get(game_id).unwrap();
        assert(all_known(before.member_ids(), games));
        let mut section = self.sections.remove(section_index);
        let _ = section.add_game(game, &self.games);
        self.sections.insert(section_index, section);
        proof {
            let sections = self.spec_sections();
            let target = sections[section_index as int];
            let members = before.member_ids().push(game_id@);
            assert(sections =~= old_sections.update(section_index as int, target));
            assert(same_bucket(&target, &before));
            lemma_game_order_total_preorder(games);
            lemma_stable_sort(members, game_order(games));
            lemma_stable_sort_contains(members, game_order(games), game_id@);
            assert(members[members.len() - 1] == game_id@);
            assert(all_known(members, games));
            lemma_sorted_ids_known(members, game_order(games), games);
            assert forall|i: int, j: int| 0 <= i < j < sections.len() implies #[trigger] le(
                sections[i],
                sections[j],
            ) by {
                assert(le(old_sections[i], old_sections[j]));
            }
            assert(exclusive(sections)) by {
                assert forall|i: int, j: int, any: GameView|
                    0 <= i < sections.len() && 0 <= j < sections.len() && i != j
                        && #[trigger] sections[i].accepts_game(any) implies !#[trigger] sections[j].accepts_game(
                    any,
                ) by {
                    assert(old_sections[i].accepts_game(any));
                    assert(!old_sections[j].accepts_game(any));
                }
            }
            assert forall|id: Seq<char>| #[trigger] games.contains_key(id) implies placed(
                sections,
                games,
                id,
            ) by {
                if id == game_id@ {
                    assert(holds(sections[section_index as int], games[id]@, id));
                } else {
                    assert(placed(old_sections, games, id));
                    let w = choose|w: int|
                        0 <= w < old_sections.len() && holds(
                            #[trigger] old_sections[w],
                            games[id]@,
                            id,
                        );
                    if w == section_index {
                        let at = choose|at: int|
                            0 <= at < before.member_ids().len() && before.member_ids()[at] == id;
                        assert(members[at] == id);
                        lemma_stable_sort_contains(members, game_order(games), id);
                    }
                    assert(holds(sections[w], games[id]@, id));
                }
            }
            assert forall|i: int| 0 <= i < sections.len() implies (
            #[trigger] sections[i]).member_ids().len() > 0 && all_known(
                sections[i].member_ids(),
                games,
            ) by {
                if i != section_index {
                    assert(sections[i] == old_sections[i]);
                }
            }
        }
    }

    /// Takes `game` into the library: stores it under its id, in place of any
    /// game stored there before, and makes it a member of the first section
    /// that accepts it. Where no section does, the factory makes one, which
    /// goes into the list of sections at its place in the order of sections.
    pub fn add_game(&mut self, game: Game)
        requires
            old(self).wf(),
        ensures
            final(self).wf(),
            sorted_by(final(self).spec_sections(), section_order::<S>()),
            final(self).spec_factory() == old(self).spec_factory(),
            final(self).spec_games() == old(self).spec_games().insert(game@.id, game),
            match first_place(old(self).spec_sections(), accepting::<S>(game@)) {
                Some(i) => {
                    &&& final(self).spec_sections().len() == old(self).spec_sections().len()
                    &&& forall|j: int|
                        0 <= j < old(self).spec_sections().len() && j != i
                            ==> final(self).spec_sections()[j] == old(self).spec_sections()[j]
                    &&& same_bucket(&final(self).spec_sections()[i], &old(self).spec_sections()[i])
                    &&& final(self).spec_sections()[i].member_ids() == stable_sort(
                        old(self).spec_sections()[i].member_ids().push(game@.id),
                        game_order(final(self).spec_games()),
                    )
                    &&& sorted_by(
                        final(self).spec_sections()[i].member_ids(),
                        game_order(final(self).spec_games()),
                    )
                },
                None => exists|fresh: S|
                    {
                        let place = insertion_point(
                            old(self).spec_sections(),
                            fresh,
                            section_order::<S>(),
                        );
                        &&& #[trigger] call_ensures(old(self).spec_factory(), (&game,), fresh)
                        &&& final(self).spec_sections().len() == old(self).spec_sections().len()
                            + 1
                        &&& final(self).spec_sections().remove(place) == old(self).spec_sections()
                        &&& same_bucket(&final(self).spec_sections()[place], &fresh)
                        &&& final(self).spec_sections()[place].member_ids() == seq![game@.id]
                    },
            },
    {
        let ghost old_sections = self.spec_sections();
        proof {
            lemma_first_place(old_sections, accepting::<S>(game@));
        }
        let game_id = self.insert_game(game);
        assert(self.spec_games()[game_id@] == game);
        let section_index = self.ensure_section(&game_id);
        let ghost mid_sections = self.spec_sections();
        self.categorise_game(section_index, &game_id);
        proof {
            let new_sections = self.spec_sections();
            if first_place(old_sections, accepting::<S>(game@)) is None {
                let fresh = mid_sections[section_index as int];
                assert(mid_sections == old_sections.insert(section_index as int, fresh));
                assert(new_sections.remove(section_index as int) =~= old_sections);
                assert(fresh.member_ids().push(game@.id) =~= seq![game@.id]);
                reveal_with_fuel(stable_sort, 2);
                assert(seq![game@.id].drop_last() =~= Seq::<Seq<char>>::empty());
                assert(stable_sort(seq![game@.id], game_order(self.spec_games())) =~= seq![
                    game@.id,
                ]);
            }
        }
    }

    /// The place of the first section with the cursor's section id.
    fn find_section_index(&self, cursor: &Cursor) -> (place: usize)
        requires
            self.has_section(cursor@.section_id),
        ensures
            self.place_of(cursor@.section_id) == Some(place as int),
            place < self.spec_sections().len(),
    {
        let ghost ids = ids_of(self.spec_sections());
        let ghost id = cursor@.section_id;
        proof {
            ids.index_of_first_ensures(id);
        }
        let mut i: usize = 0;
        while i < self.sections.len()
            invariant
                i <= self.sections.len(),
                ids == ids_of(self.spec_sections()),
                id == cursor@.section_id,
                ids.contains(id),
                forall|j: int| 0 <= j < i ==> ids[j] != id,
            decreases self.sections.len() - i,
        {
            if *self.sections[i].id() == *cursor.section_id() {
                proof {
                    assert(ids[i as int] == id);
                    ids.index_of_first_ensures(id);
                }
                return i;
            }
            i += 1;
        }
        proof {
            let k = choose|k: int| 0 <= k < ids.len() && ids[k] == id;
            assert(ids[k] != id);
        }
        0
    }

    /// The section that the cursor is in.
    fn get_current_section(&self, cursor: &Cursor) -> (section: &S)
        requires
            self.has_section(cursor@.section_id),
        ensures
            *section == self.spec_sections()[self.place_of(cursor@.section_id).unwrap()],
            section.spec_id() == cursor@.section_id,
    {
        proof {
            ids_of(self.spec_sections()).index_of_first_ensures(cursor@.section_id);
        }
        let current_section_index = self.find_section_index(cursor);
        &self.sections[current_section_index]
    }

    /// The section after the cursor's, the first after the last.
    fn get_next_section(&self, cursor: &Cursor) -> (section: &S)
        requires
            self.has_section(cursor@.section_id),
        ensures
            *section == self.spec_sections()[ring_next(
                self.place_of(cursor@.section_id).unwrap(),
                self.spec_sections().len() as int,
            )],
    {
        let current_section_index = self.find_section_index(cursor);
        let next_section_index = next_index(current_section_index, self.sections.len());
        &self.sections[next_section_index]
    }

    /// The section before the cursor's, the last before the first.
    fn get_previous_section(&self, cursor: &Cursor) -> (section: &S)
        requires
            self.has_section(cursor@.section_id),
        ensures
            *section == self.spec_sections()[ring_previous(
                self.place_of(cursor@.section_id).unwrap(),
                self.spec_sections().len() as int,
            )],
    {
        let current_section_index = self.find_section_index(cursor);
        let prev_section_index = previous_index(current_section_index, self.sections.len());
        &self.sections[prev_section_index]
    }

    /// The position of the first game of the section after the cursor's.
    /// There is none only in a library without sections.
    pub fn next_section(&self, cursor: &Cursor) -> (next: Option<Cursor>)
        requires
            self.wf(),
            self.spec_sections().len() > 0 ==> self.has_section(cursor@.section_id),
        ensures
            optional_view(next) == if self.spec_sections().len() == 0 {
                None
            } else {
                Some(self.after_section(cursor@))
            },
            next matches Some(c) ==> self.admits(c@),
    {
        if self.sections.len() == 0 {
            return None;
        }
        proof {
            self.lemma_steps_admitted(cursor@);
        }
        let next_section = self.get_next_section(cursor);
        Cursor::first_game(next_section)
    }

    /// The position of the first game of the section before the cursor's.
    /// There is none only in a library without sections.
    pub fn previous_section(&self, cursor: &Cursor) -> (previous: Option<Cursor>)
        requires
            self.wf(),
            self.spec_sections().len() > 0 ==> self.has_section(cursor@.section_id),
        ensures
            optional_view(previous) == if self.spec_sections().len() == 0 {
                None
            } else {
                Some(self.before_section(cursor@))
            },
            previous matches Some(c) ==> self.admits(c@),
    {
        if self.sections.len() == 0 {
            return None;
        }
        proof {
            self.lemma_steps_admitted(cursor@);
        }
        let prev_section = self.get_previous_section(cursor);
        Cursor::first_game(prev_section)
    }

    /// The position of the next game: the one after the cursor's in its
    /// section, or the first game of the next section. There is none only in
    /// a library without sections.
    pub fn next_game(&self, cursor: &Cursor) -> (next: Option<Cursor>)
        requires
            self.wf(),
            self.spec_sections().len() > 0 ==> self.has_section(cursor@.section_id),
        ensures
            optional_view(next) == if self.spec_sections().len() == 0 {
                None
            } else {
                Some(self.after_game(cursor@))
            },
            next matches Some(c) ==> self.admits(c@),
    {
        if self.sections.len() == 0 {
            return None;
        }
        proof {
            self.lemma_steps_admitted(cursor@);
        }
        let current_section = self.get_current_section(cursor);
        if let Some(next_game_id) = current_section.next_game_id(cursor.game_id()) {
            return Some(Cursor::for_game(current_section, next_game_id));
        }
        let next_section = self.get_next_section(cursor);
        Cursor::first_game(next_section)
    }

    /// The position of the previous game: the one before the cursor's in its
    /// section, or the last game of the previous section. There is none only
    /// in a library without sections.
    pub fn previous_game(&self, cursor: &Cursor) -> (previous: Option<Cursor>)
        requires
            self.wf(),
            self.spec_sections().len() > 0 ==> self.has_section(cursor@.section_id),
        ensures
            optional_view(previous) == if self.spec_sections().len() == 0 {
                None
            } else {
                Some(self.before_game(cursor@))
            },
            previous matches Some(c) ==> self.admits(c@),
    {
        if self.sections.len() == 0 {
            return None;
        }
        proof {
            self.lemma_steps_admitted(cursor@);
        }
        let current_section = self.get_current_section(cursor);
        if let Some(prev_game_id) = current_section.previous_game_id(cursor.game_id()) {
            return Some(Cursor::for_game(current_section, prev_game_id));
        }
        let prev_section = self.get_previous_section(cursor);
        Cursor::last_game(prev_section)
    }
}

impl<S: Section, F: Fn(&Game) -> S> Library<S, F> {
    /// The game stored under `id`.
    fn get_game_by_id(&self, id: &GameId) -> (game: &Game)
        requires
            self.spec_games().contains_key(id@),
        ensures
            *game == self.spec_games()[id@],
    {
        self.games.get(id).unwrap()
    }

    /// The position `steps` games before `cursor`.
    fn iterate_backwards(&self, cursor: &Cursor, steps: u32) -> (start: Cursor)
        requires
            self.wf(),
            self.spec_sections().len() > 0,
            self.admits(cursor@),
        ensures
            start@ == self.stepped_back(cursor@, steps as nat),
            self.admits(start@),
    {
        let mut current = cursor.clone();
        let mut done: u32 = 0;
        while done < steps
            invariant
                done <= steps,
                self.wf(),
                self.spec_sections().len() > 0,
                self.admits(current@),
                current@ == self.stepped_back(cursor@, done as nat),
            decreases steps - done,
        {
            proof {
                self.lemma_steps_admitted(current@);
            }
            current = self.previous_game(&current).unwrap();
            done += 1;
        }
        current
    }

    /// Follows `cursor` forward by `steps` games and appends each game that
    /// it comes to.
    fn iterate_forwards<'a>(&'a self, cursor: &Cursor, steps: usize, games: &mut Vec<&'a Game>)
        requires
            self.wf(),
            self.spec_sections().len() > 0,
            self.admits(cursor@),
        ensures
            final(games)@.len() == old(games)@.len() + steps,
            forall|i: int| 0 <= i < old(games)@.len() ==> final(games)@[i] == old(games)@[i],
            forall|i: int|
                0 <= i < steps ==> *#[trigger] final(games)@[old(games)@.len() + i]
                    == self.spec_games()[self.stepped_forward(cursor@, (i + 1) as nat).game_id],
    {
        let ghost before = games@;
        let mut current = cursor.clone();
        let mut done: usize = 0;
        while done < steps
            invariant
                done <= steps,
                self.wf(),
                self.spec_sections().len() > 0,
                self.admits(current@),
                current@ == self.stepped_forward(cursor@, done as nat),
                games@.len() == before.len() + done,
                forall|i: int| 0 <= i < before.len() ==> games@[i] == before[i],
                forall|i: int|
                    0 <= i < done ==> *#[trigger] games@[before.len() + i]
                        == self.spec_games()[self.stepped_forward(cursor@, (i + 1) as nat).game_id],
            decreases steps - done,
        {
            proof {
                self.lemma_steps_admitted(current@);
            }
            current = self.next_game(&current).unwrap();
            games.push(self.get_game_by_id(current.game_id()));
            done += 1;
        }
    }

    /// The window of `count` games around `cursor`: it starts as many games
    /// before the cursor as `offset` is large, whatever its sign, and goes on
    /// game by game, through the same games again where the library has fewer
    /// than `count`. There is no window only in a library without sections.
    pub fn get_game_window(&self, cursor: &Cursor, offset: i32, count: usize) -> (window: Option<
        Vec<&Game>,
    >)
        requires
            self.wf(),
            self.spec_sections().len() > 0 ==> self.admits(cursor@),
        ensures
            window is None <==> self.spec_sections().len() == 0,
            window matches Some(games) ==> games@.len() == count && forall|i: int|
                0 <= i < count ==> *#[trigger] games@[i] == self.spec_games()[self.window_position(
                    cursor@,
                    magnitude(offset as int),
                    i as nat,
                ).game_id],
    {
        if self.sections.len() == 0 {
            return None;
        }
        let start_cursor = self.iterate_backwards(cursor, magnitude_of(offset));
        let mut games: Vec<&Game> = Vec::new();
        if count == 0 {
            return Some(games);
        }
        games.push(self.get_game_by_id(start_cursor.game_id()));
        self.iterate_forwards(&start_cursor, count - 1, &mut games);
        proof {
            assert forall|i: int| 0 <= i < count implies *#[trigger] games@[i]
                == self.spec_games()[self.window_position(
                cursor@,
                magnitude(offset as int),
                i as nat,
            ).game_id] by {
                if i > 0 {
                    assert(games@[1 + (i - 1)] == games@[i]);
                }
            }
        }
        Some(games)
    }
}

} // verus!
