use std::cmp::Ordering;
use std::path::PathBuf;
use vstd::prelude::*;
use vstd::std_specs::cmp::{PartialEqSpecImpl, PartialOrdSpecImpl};
use vstd::string::StringExecFns;

use crate::media::MediaSet;
use crate::rom::Rom;
use crate::text::{first_char_or_space, leading_char, text_le, text_no_later};
use crate::year::{decimal_text, year_text};

verus! {

/// The identity of a game: an opaque text, viewed as its characters.
#[derive(Debug, Eq, Hash)]
pub struct GameId(String);

impl View for GameId {
    type V = Seq<char>;

    closed spec fn view(&self) -> Seq<char> {
        self.0@
    }
}

impl GameId {
    pub fn new(id: String) -> (game_id: Self)
        ensures
            game_id@ == id@,
    {
        Self(id)
    }

    /// The identity as text.
    pub fn as_str(&self) -> (text: &str)
        ensures
            text@ == self@,
    {
        self.0.as_str()
    }
}

impl Clone for GameId {
    fn clone(&self) -> (copy: Self)
        ensures
            copy == *self,
    {
        Self(self.0.clone())
    }
}

impl PartialEq for GameId {
    fn eq(&self, other: &Self) -> (same: bool) {
        self.0 == other.0
    }
}

impl PartialEqSpecImpl for GameId {
    open spec fn obeys_eq_spec() -> bool {
        true
    }

    open spec fn eq_spec(&self, other: &Self) -> bool {
        self@ == other@
    }
}

/// The mathematical content of an optional text.
pub open spec fn optional_text(text: Option<String>) -> Option<Seq<char>> {
    match text {
        Some(s) => Some(s@),
        None => None,
    }
}

/// `r` hands out the optional text `text`.
pub open spec fn hands_out(r: Option<&str>, text: Option<Seq<char>>) -> bool {
    match r {
        Some(s) => text == Some(s@),
        None => text is None,
    }
}

/// The line shown beneath a game's title: the year and the publisher, as far
/// as they are known, with a dash between them.
pub open spec fn metadata_text(year: Option<u16>, publisher: Option<Seq<char>>) -> Option<
    Seq<char>,
> {
    match (year, publisher) {
        (Some(y), Some(p)) => Some(decimal_text(y as nat) + " - "@ + p),
        (Some(y), None) => Some(decimal_text(y as nat)),
        (None, Some(p)) => Some(p),
        (None, None) => None,
    }
}

/// How two sort keys compare: lexicographically, by code point.
pub open spec fn key_order(a: Seq<char>, b: Seq<char>) -> Ordering {
    if !text_le(a, b) {
        Ordering::Greater
    } else if text_le(b, a) {
        Ordering::Equal
    } else {
        Ordering::Less
    }
}

/// A catalog entry. Games are ordered by sort key, never by title.
#[derive(PartialEq, Eq)]
pub struct Game {
    id: GameId,
    title: String,
    sort_key: String,
    year: Option<u16>,
    publisher: Option<String>,
    notes: Option<String>,
    media_set: MediaSet,
    roms: Vec<Rom>,
    dir: PathBuf,
    hidden: bool,
}

/// What a `Game` holds, texts as sequences of characters.
pub ghost struct GameView {
    pub id: Seq<char>,
    pub title: Seq<char>,
    pub sort_key: Seq<char>,
    pub year: Option<u16>,
    pub publisher: Option<Seq<char>>,
    pub notes: Option<Seq<char>>,
    pub media_set: MediaSet,
    pub roms: Seq<Rom>,
    pub dir: PathBuf,
    pub hidden: bool,
}

impl View for Game {
    type V = GameView;

    closed spec fn view(&self) -> GameView {
        GameView {
            id: self.id@,
            title: self.title@,
            sort_key: self.sort_key@,
            year: self.year,
            publisher: optional_text(self.publisher),
            notes: optional_text(self.notes),
            media_set: self.media_set,
            roms: self.roms@,
            dir: self.dir,
            hidden: self.hidden,
        }
    }
}

impl Clone for Game {
    fn clone(&self) -> (copy: Self)
        ensures
            copy@ == self@,
    {
        let roms = self.roms.clone();
        assert(roms@ =~= self.roms@);
        Self {
            id: self.id.clone(),
            title: self.title.clone(),
            sort_key: self.sort_key.clone(),
            year: self.year,
            publisher: self.publisher.clone(),
            notes: self.notes.clone(),
            media_set: self.media_set.clone(),
            roms,
            dir: self.dir.clone(),
            hidden: self.hidden,
        }
    }
}

impl Game {
    pub fn new(
        id: GameId,
        title: String,
        sort_key: String,
        year: Option<u16>,
        publisher: Option<String>,
        notes: Option<String>,
        media_set: MediaSet,
        roms: Vec<Rom>,
        dir: PathBuf,
        hidden: bool,
    ) -> (game: Self)
        ensures
            game@ == (GameView {
                id: id@,
                title: title@,
                sort_key: sort_key@,
                year,
                publisher: optional_text(publisher),
                notes: optional_text(notes),
                media_set,
                roms: roms@,
                dir,
                hidden,
            }),
    {
        Self { id, title, sort_key, year, publisher, notes, media_set, roms, dir, hidden }
    }

    pub fn id(&self) -> (id: &GameId)
        ensures
            id@ == self@.id,
    {
        &self.id
    }

    pub fn title(&self) -> (title: &str)
        ensures
            title@ == self@.title,
    {
        self.title.as_str()
    }

    pub fn year(&self) -> (year: Option<u16>)
        ensures
            year == self@.year,
    {
        self.year
    }

    pub fn publisher(&self) -> (publisher: Option<&str>)
        ensures
            hands_out(publisher, self@.publisher),
    {
        match &self.publisher {
            Some(s) => Some(s.as_str()),
            None => None,
        }
    }

    pub fn notes(&self) -> (notes: Option<&str>)
        ensures
            hands_out(notes, self@.notes),
    {
        match &self.notes {
            Some(s) => Some(s.as_str()),
            None => None,
        }
    }

    pub fn media_set(&self) -> (media_set: &MediaSet)
        ensures
            *media_set == self@.media_set,
    {
        &self.media_set
    }

    pub fn roms(&self) -> (roms: &[Rom])
        ensures
            roms@ == self@.roms,
    {
        self.roms.as_slice()
    }

    /// The first character of the sort key, a space where the key is empty.
    pub fn first_character(&self) -> (c: char)
        ensures
            c == leading_char(self@.sort_key),
    {
        first_char_or_space(self.sort_key.as_str())
    }

    /// Whether the sort key begins with `c`.
    pub fn starts_with(&self, c: char) -> (b: bool)
        ensures
            b == (self@.sort_key.len() > 0 && self@.sort_key[0] == c),
    {
        broadcast use vstd::string::group_string_axioms;

        let mut it = self.sort_key.as_str().chars();
        match it.next() {
            Some(first) => first == c,
            None => false,
        }
    }

    pub fn game_dir(&self) -> (dir: &PathBuf)
        ensures
            *dir == self@.dir,
    {
        &self.dir
    }

    pub fn is_hidden(&self) -> (hidden: bool)
        ensures
            hidden == self@.hidden,
    {
        self.hidden
    }

    /// The line shown beneath the title, if there is anything to show.
    pub fn metadata_line(&self) -> (line: Option<String>)
        ensures
            optional_text(line) == metadata_text(self@.year, self@.publisher),
    {
        match (self.year, &self.publisher) {
            (Some(year), Some(publisher)) => {
                let mut line = year_text(year);
                line.append(" - ");
                line.append(publisher.as_str());
                Some(line)
            },
            (Some(year), None) => Some(year_text(year)),
            (None, Some(publisher)) => Some(publisher.clone()),
            (None, None) => None,
        }
    }

    /// Whether the game is shown: a hidden game only where hidden games are
    /// asked for.
    pub fn is_visible(&self, show_hidden: bool) -> (visible: bool)
        ensures
            visible == (show_hidden || !self@.hidden),
    {
        show_hidden || !self.hidden
    }

    /// Sets the visibility flag and leaves everything else as it is.
    pub fn set_hidden(&mut self, hidden: bool)
        ensures
            final(self)@ == (GameView { hidden, ..old(self)@ }),
    {
        self.hidden = hidden;
    }

    pub fn sort_key(&self) -> (sort_key: &str)
        ensures
            sort_key@ == self@.sort_key,
    {
        self.sort_key.as_str()
    }

    /// Whether this game comes no later than `other` in the order of games.
    pub fn sorts_no_later(&self, other: &Game) -> (b: bool)
        ensures
            b == text_le(self@.sort_key, other@.sort_key),
    {
        text_no_later(self.sort_key.as_str(), other.sort_key.as_str())
    }
}

impl PartialOrd for Game {
    fn partial_cmp(&self, other: &Self) -> (order: Option<Ordering>) {
        if !self.sorts_no_later(other) {
            Some(Ordering::Greater)
        } else if other.sorts_no_later(self) {
            Some(Ordering::Equal)
        } else {
            Some(Ordering::Less)
        }
    }
}

impl PartialOrdSpecImpl for Game {
    open spec fn obeys_partial_cmp_spec() -> bool {
        true
    }

    open spec fn partial_cmp_spec(&self, other: &Self) -> Option<Ordering> {
        Some(key_order(self@.sort_key, other@.sort_key))
    }
}

} // verus!
