use vstd::prelude::*;
use vstd::relations::sorted_by;

use crate::catalog::{all_known, game_order, Catalog};
use crate::game::{Game, GameId, GameView};
use crate::sorting::stable_sort;

verus! {

/// The bits of a section id that say it is a random (version 4) UUID.
pub const UUID_KIND_MASK: u128 = 0x0000_0000_0000_f000_c000_0000_0000_0000;

/// What those bits hold in every random UUID.
pub const UUID_KIND_RANDOM: u128 = 0x0000_0000_0000_4000_8000_0000_0000_0000;

/// Calls `Uuid::new_v4` of the uuid crate and packs the UUID into an
/// integer with `Uuid::as_u128`. The value is random; the contract states the
/// version and variant bits, which `new_v4` sets in every UUID it makes.
#[verifier::external_body]
fn random_uuid() -> (value: u128)
    ensures
        value & UUID_KIND_MASK == UUID_KIND_RANDOM,
{
    uuid::Uuid::new_v4().as_u128()
}

/// The identity of a section: a random 128-bit value, made when the section
/// is made and never taken from what the section holds.
#[derive(Debug, Clone, Copy, PartialEq, Eq, Hash, Structural)]
pub struct SectionId(u128);

impl SectionId {
    /// A new random id.
    pub fn new() -> (id: Self)
        ensures
            id.value() & UUID_KIND_MASK == UUID_KIND_RANDOM,
    {
        Self(random_uuid())
    }

    /// The id as an integer.
    pub closed spec fn value(&self) -> u128 {
        self.0
    }

    /// The id as an integer.
    pub fn as_u128(&self) -> (value: u128)
        ensures
            value == self.value(),
    {
        self.0
    }
}

/// The message of the error that a section gives for a game it does not
/// accept.
pub open spec fn mismatch_message(game_title: Seq<char>, section_title: Seq<char>) -> Seq<char> {
    "Game '"@ + game_title + "' does not belong in "@ + section_title
}

/// The member that follows the first occurrence of `current` in `members`.
/// There is none where `current` is the last member or no member at all.
pub open spec fn successor(members: Seq<Seq<char>>, current: Seq<char>) -> Option<Seq<char>> {
    match members.index_of_first(current) {
        Some(i) => if i + 1 < members.len() {
            Some(members[i + 1])
        } else {
            None
        },
        None => None,
    }
}

/// The member before the first occurrence of `current` in `members`.
/// There is none where `current` is the first member or no member at all.
pub open spec fn predecessor(members: Seq<Seq<char>>, current: Seq<char>) -> Option<Seq<char>> {
    match members.index_of_first(current) {
        Some(i) => if i > 0 {
            Some(members[i - 1])
        } else {
            None
        },
        None => None,
    }
}

/// `found` hands out the id `id`, or nothing where there is none.
pub open spec fn names(found: Option<&GameId>, id: Option<Seq<char>>) -> bool {
    match found {
        Some(game_id) => id == Some(game_id@),
        None => id is None,
    }
}

/// The first member, if any.
pub open spec fn first_member(members: Seq<Seq<char>>) -> Option<Seq<char>> {
    if members.len() > 0 {
        Some(members[0])
    } else {
        None
    }
}

/// The last member, if any.
pub open spec fn last_member(members: Seq<Seq<char>>) -> Option<Seq<char>> {
    if members.len() > 0 {
        Some(members.last())
    } else {
        None
    }
}

/// A bucket of games: it decides which games it accepts and keeps the ids of
/// its members in the order of their games.
pub trait Section: Sized {
    /// The section's identity.
    spec fn spec_id(&self) -> SectionId;

    /// The section's display title.
    spec fn title_text(&self) -> Seq<char>;

    /// The ids of the members, in order.
    spec fn member_ids(&self) -> Seq<Seq<char>>;

    /// Whether a game belongs in this section.
    spec fn accepts_game(&self, game: GameView) -> bool;

    /// Whether a key that a user typed selects this section.
    spec fn matches_key(&self, key: Seq<char>) -> bool;

    /// The order of sections: this one comes no later than `other`.
    spec fn ranks_no_later(&self, other: &Self) -> bool;

    /// Any two sections are comparable.
    proof fn lemma_rank_total(a: &Self, b: &Self)
        ensures
            a.ranks_no_later(b) || b.ranks_no_later(a),
    ;

    /// The order of sections is transitive.
    proof fn lemma_rank_transitive(a: &Self, b: &Self, c: &Self)
        requires
            a.ranks_no_later(b),
            b.ranks_no_later(c),
        ensures
            a.ranks_no_later(c),
    ;

    /// Two sections that accept one game in common accept the same games.
    proof fn lemma_accepts_exclusive(a: &Self, b: &Self, shared: GameView, other: GameView)
        requires
            a.accepts_game(shared),
            b.accepts_game(shared),
            a.accepts_game(other),
        ensures
            b.accepts_game(other),
    ;

    fn id(&self) -> (id: &SectionId)
        ensures
            *id == self.spec_id(),
    ;

    fn title(&self) -> (title: String)
        ensures
            title@ == self.title_text(),
    ;

    fn accepts(&self, game: &Game) -> (accepted: bool)
        ensures
            accepted == self.accepts_game(game@),
    ;

    fn satisfies(&self, value: &str) -> (matched: bool)
        ensures
            matched == self.matches_key(value@),
    ;

    /// Whether this section comes no later than `other` in the order of
    /// sections.
    fn sorts_no_later(&self, other: &Self) -> (no_later: bool)
        ensures
            no_later == self.ranks_no_later(other),
    ;

    /// Takes `game` in as a member, if the section accepts it: appends its id
    /// and sorts the members again by the games that `games` holds for them.
    /// A game that the section does not accept leaves it unchanged. The
    /// members must have their games in `games`, by which they are compared.
    fn add_game(&mut self, game: &Game, games: &Catalog) -> (result: Result<(), String>)
        requires
            old(self).accepts_game(game@) && old(self).member_ids().len() > 0
                ==> games@.contains_key(game@.id) && all_known(old(self).member_ids(), games@),
        ensures
            final(self).spec_id() == old(self).spec_id(),
            final(self).title_text() == old(self).title_text(),
            forall|any: GameView| #[trigger]
                final(self).accepts_game(any) == old(self).accepts_game(any),
            forall|key: Seq<char>| #[trigger]
                final(self).matches_key(key) == old(self).matches_key(key),
            forall|other: Self| #[trigger]
                final(self).ranks_no_later(&other) == old(self).ranks_no_later(&other),
            forall|other: Self| #[trigger]
                other.ranks_no_later(final(self)) == other.ranks_no_later(old(self)),
            old(self).accepts_game(game@) ==> result is Ok && final(self).member_ids()
                == stable_sort(old(self).member_ids().push(game@.id), game_order(games@)),
            old(self).accepts_game(game@) ==> sorted_by(
                final(self).member_ids(),
                game_order(games@),
            ),
            !old(self).accepts_game(game@) ==> final(self).member_ids() == old(self).member_ids()
                && (result matches Err(message) && message@ == mismatch_message(
                game@.title,
                old(self).title_text(),
            )),
    ;

    fn first_game_id(&self) -> (found: Option<&GameId>)
        ensures
            names(found, first_member(self.member_ids())),
    ;

    fn last_game_id(&self) -> (found: Option<&GameId>)
        ensures
            names(found, last_member(self.member_ids())),
    ;

    fn next_game_id(&self, current_game_id: &GameId) -> (found: Option<&GameId>)
        ensures
            names(found, successor(self.member_ids(), current_game_id@)),
    ;

    fn previous_game_id(&self, current_game_id: &GameId) -> (found: Option<&GameId>)
        ensures
            names(found, predecessor(self.member_ids(), current_game_id@)),
    ;
}

/// `a` and `b` are one bucket, whatever their members: they have the same
/// id and title, accept the same games, match the same keys and stand at the
/// same place in the order of sections.
pub open spec fn same_bucket<S: Section>(a: &S, b: &S) -> bool {
    &&& a.spec_id() == b.spec_id()
    &&& a.title_text() == b.title_text()
    &&& forall|game: GameView| #[trigger] a.accepts_game(game) == b.accepts_game(game)
    &&& forall|key: Seq<char>| #[trigger] a.matches_key(key) == b.matches_key(key)
    &&& forall|other: S| #[trigger] a.ranks_no_later(&other) == b.ranks_no_later(&other)
    &&& forall|other: S| #[trigger] other.ranks_no_later(a) == other.ranks_no_later(b)
}

} // verus!
