use vstd::hash_map::StringHashMap;
use vstd::prelude::*;
use vstd::relations::{strongly_connected, transitive};

use crate::game::{Game, GameId};
use crate::sorting::{insertion_point, stable_insert, stable_sort, total_preorder};
use crate::text::{
    lemma_text_le_total, lemma_text_le_transitive, text_le,
};

verus! {

/// The games of a library, each found by its id. Viewed as a map from the
/// characters of an id to the game stored under it.
pub struct Catalog {
    entries: StringHashMap<Game>,
}

impl View for Catalog {
    type V = Map<Seq<char>, Game>;

    closed spec fn view(&self) -> Map<Seq<char>, Game> {
        self.entries@
    }
}

/// Every game is stored under its own id.
pub open spec fn keyed_by_id(games: Map<Seq<char>, Game>) -> bool {
    forall|id: Seq<char>| games.contains_key(id) ==> (#[trigger] games[id])@.id == id
}

/// The order of ids that the games stored under them give: by sort key.
pub open spec fn game_order(games: Map<Seq<char>, Game>) -> spec_fn(Seq<char>, Seq<char>) -> bool {
    |a: Seq<char>, b: Seq<char>| text_le(games[a]@.sort_key, games[b]@.sort_key)
}

/// The order of ids by sort key compares any two ids and is transitive.
pub proof fn lemma_game_order_total_preorder(games: Map<Seq<char>, Game>)
    ensures
        total_preorder(game_order(games)),
{
    let le = game_order(games);
    assert forall|a: Seq<char>, b: Seq<char>| #[trigger] le(a, b) || #[trigger] le(b, a) by {
        lemma_text_le_total(games[a]@.sort_key, games[b]@.sort_key);
    }
    assert forall|a: Seq<char>, b: Seq<char>, c: Seq<char>| #[trigger]
        le(a, b) && #[trigger] le(b, c) implies le(a, c) by {
        lemma_text_le_transitive(games[a]@.sort_key, games[b]@.sort_key, games[c]@.sort_key);
    }
    assert(strongly_connected(le));
    assert(transitive(le));
}

impl Catalog {
    /// The catalog's invariant: every game is stored under its own id.
    pub open spec fn wf(&self) -> bool {
        keyed_by_id(self@)
    }

    /// An empty catalog.
    pub fn new() -> (catalog: Self)
        ensures
            catalog@ == Map::<Seq<char>, Game>::empty(),
            catalog.wf(),
    {
        Self { entries: StringHashMap::new() }
    }

    /// Stores `game` under its id, in place of any game stored there before.
    pub fn insert(&mut self, game: Game)
        requires
            old(self).wf(),
        ensures
            final(self)@ == old(self)@.insert(game@.id, game),
            final(self).wf(),
    {
        let key = game.id().as_str().to_owned();
        self.entries.insert(key, game);
    }

    /// The game stored under `id`, if there is one.
    pub fn get(&self, id: &GameId) -> (found: Option<&Game>)
        ensures
            match found {
                Some(game) => self@.contains_key(id@) && *game == self@[id@],
                None => !self@.contains_key(id@),
            },
    {
        self.entries.get(id.as_str())
    }

    /// Whether a game is stored under `id`.
    pub fn contains(&self, id: &GameId) -> (found: bool)
        ensures
            found == self@.contains_key(id@),
    {
        self.entries.contains_key(id.as_str())
    }

    /// The number of games stored.
    pub fn len(&self) -> (n: usize)
        ensures
            n == self@.len(),
    {
        self.entries.len()
    }
}

/// Whether the game stored under `a` comes no later than the one stored
/// under `b` in the order of games.
pub fn natural_game_order(a: &GameId, b: &GameId, games: &Catalog) -> (no_later: bool)
    requires
        games@.contains_key(a@),
        games@.contains_key(b@),
    ensures
        no_later == game_order(games@)(a@, b@),
{
    match (games.get(a), games.get(b)) {
        (Some(game_a), Some(game_b)) => game_a.sorts_no_later(game_b),
        _ => false,
    }
}

/// The ids in `ids`, each as its characters.
pub open spec fn id_texts(ids: Seq<GameId>) -> Seq<Seq<char>> {
    ids.map_values(|id: GameId| id@)
}

/// Every id in `ids` has a game in `games`.
pub open spec fn all_known(ids: Seq<Seq<char>>, games: Map<Seq<char>, Game>) -> bool {
    forall|i: int| 0 <= i < ids.len() ==> games.contains_key(#[trigger] ids[i])
}

/// Sorts `ids` by the order of the games stored under them. Ids whose games
/// rank the same keep their order. The games are looked up only where there
/// is more than one id to put in order.
pub fn sort_by_game_order(ids: &mut Vec<GameId>, games: &Catalog)
    requires
        old(ids)@.len() > 1 ==> all_known(id_texts(old(ids)@), games@),
    ensures
        id_texts(final(ids)@) == stable_sort(id_texts(old(ids)@), game_order(games@)),
{
    let ghost le = game_order(games@);
    let ghost orig = id_texts(ids@);
    let n = ids.len();
    if n <= 1 {
        proof {
            reveal_with_fuel(stable_sort, 2);
            if n == 1 {
                assert(orig.drop_last() =~= Seq::<Seq<char>>::empty());
                assert(stable_sort(orig, le) =~= orig);
            }
        }
        return ;
    }
    let mut i: usize = 0;
    assert(orig.subrange(0, 0) =~= Seq::<Seq<char>>::empty());
    assert(id_texts(ids@).subrange(0, n as int) =~= orig.subrange(0, n as int));
    while i < n
        invariant
            i <= n,
            ids.len() == n,
            orig.len() == n,
            le == game_order(games@),
            all_known(orig, games@),
            id_texts(ids@).subrange(0, i as int) == stable_sort(orig.subrange(0, i as int), le),
            id_texts(ids@).subrange(i as int, n as int) == orig.subrange(i as int, n as int),
        decreases n - i,
    {
        let ghost before = id_texts(ids@);
        let ghost sorted = before.subrange(0, i as int);
        proof {
            lemma_game_order_total_preorder(games@);
            crate::sorting::lemma_stable_sort(orig.subrange(0, i as int), le);
            assert(before[i as int] == before.subrange(i as int, n as int)[0]);
            assert(orig[i as int] == orig.subrange(i as int, n as int)[0]);
            lemma_sorted_ids_known(orig.subrange(0, i as int), le, games@);
        }
        let x = ids.remove(i);
        let ghost removed = id_texts(ids@);
        assert(removed =~= before.remove(i as int));
        assert(removed.subrange(0, i as int) =~= sorted);
        assert(sorted.subrange(0, i as int) =~= sorted);
        let mut pos: usize = i;
        while pos > 0
            invariant_except_break
                insertion_point(sorted, x@, le) == insertion_point(
                    sorted.subrange(0, pos as int),
                    x@,
                    le,
                ),
            invariant
                pos <= i,
                i < n,
                ids.len() == n - 1,
                sorted.len() == i,
                le == game_order(games@),
                games@.contains_key(x@),
                all_known(sorted, games@),
                id_texts(ids@) == removed,
                removed.subrange(0, i as int) == sorted,
            ensures
                insertion_point(sorted, x@, le) == pos,
            decreases pos,
        {
            let ghost prefix = sorted.subrange(0, pos as int);
            assert(prefix.last() == sorted[pos - 1]);
            assert(sorted[pos - 1] == removed[pos - 1]);
            assert(removed[pos - 1] == ids@[pos - 1]@);
            if natural_game_order(&ids[pos - 1], &x, games) {
                break;
            }
            assert(prefix.drop_last() =~= sorted.subrange(0, pos - 1));
            pos -= 1;
        }
        ids.insert(pos, x);
        i += 1;
        proof {
            let after = id_texts(ids@);
            assert(after =~= removed.insert(pos as int, x@));
            let head = orig.subrange(0, i as int);
            assert(head.drop_last() =~= orig.subrange(0, i - 1));
            assert(head.last() == x@);
            assert(after.subrange(0, i as int) =~= stable_insert(sorted, x@, le));
            assert(after.subrange(i as int, n as int) =~= orig.subrange(i as int, n as int)) by {
                assert forall|k: int| i <= k < n implies after[k] == orig[k] by {
                    assert(after[k] == removed[k - 1]);
                    assert(removed[k - 1] == before[k]);
                    assert(before[k] == before.subrange(i - 1, n as int)[k - (i - 1)]);
                    assert(orig[k] == orig.subrange(i - 1, n as int)[k - (i - 1)]);
                }
            }
        }
    }
    assert(id_texts(ids@).subrange(0, n as int) =~= id_texts(ids@));
    assert(orig.subrange(0, n as int) =~= orig);
}

/// Sorting ids that all have games yields ids that all have games.
pub proof fn lemma_sorted_ids_known(
    ids: Seq<Seq<char>>,
    le: spec_fn(Seq<char>, Seq<char>) -> bool,
    games: Map<Seq<char>, Game>,
)
    requires
        all_known(ids, games),
        total_preorder(le),
    ensures
        all_known(stable_sort(ids, le), games),
{
    crate::sorting::lemma_stable_sort(ids, le);
    let sorted = stable_sort(ids, le);
    assert forall|i: int| 0 <= i < sorted.len() implies games.contains_key(
        #[trigger] sorted[i],
    ) by {
        vstd::seq_lib::to_multiset_contains(sorted, sorted[i]);
        vstd::seq_lib::to_multiset_contains(ids, sorted[i]);
        assert(sorted.contains(sorted[i]));
        assert(ids.contains(sorted[i]));
        let k = choose|k: int| 0 <= k < ids.len() && ids[k] == sorted[i];
        assert(games.contains_key(ids[k]));
    }
}

} // verus!
