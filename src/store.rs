use vstd::prelude::*;

use crate::error::TRCError;
use crate::model::{Back, Card, CardSet, Deck, Language, Score, SetCard, User};
use crate::table::{
    find_row, ids_below, ids_unique, has_id, lemma_push_fresh, row_of,
};

verus! {

/// The relational data of the application: one table per entity kind, and
/// the next primary key to hand out (keys are shared by all tables and never
/// reused).
pub struct Store {
    pub(crate) users: Vec<User>,
    pub(crate) languages: Vec<Language>,
    pub(crate) decks: Vec<Deck>,
    pub(crate) backs: Vec<Back>,
    pub(crate) cards: Vec<Card>,
    pub(crate) scores: Vec<Score>,
    pub(crate) sets: Vec<CardSet>,
    pub(crate) set_cards: Vec<SetCard>,
    pub(crate) next_id: i32,
}

/// The contents of a [`Store`], as contracts see them.
pub struct Tables {
    pub users: Seq<User>,
    pub languages: Seq<Language>,
    pub decks: Seq<Deck>,
    pub backs: Seq<Back>,
    pub cards: Seq<Card>,
    pub scores: Seq<Score>,
    pub sets: Seq<CardSet>,
    pub set_cards: Seq<SetCard>,
    pub next_id: int,
}

impl View for Store {
    type V = Tables;

    open(crate) spec fn view(&self) -> Tables {
        Tables {
            users: self.users@,
            languages: self.languages@,
            decks: self.decks@,
            backs: self.backs@,
            cards: self.cards@,
            scores: self.scores@,
            sets: self.sets@,
            set_cards: self.set_cards@,
            next_id: self.next_id as int,
        }
    }
}

/// Every card has its back, and no two cards share one.
pub open spec fn backs_owned(cards: Seq<Card>, backs: Seq<Back>) -> bool {
    &&& forall|i: int, j: int|
        0 <= i < cards.len() && 0 <= j < cards.len() && i != j ==> (#[trigger] cards[i]).back
            != (#[trigger] cards[j]).back
    &&& forall|i: int| 0 <= i < cards.len() ==> has_id(backs, (#[trigger] cards[i]).back)
}

/// Each row refers only to rows that exist: a deck to its language and its
/// owner, a card to its deck, a score to its card, a set to its deck and its
/// owner, a membership to its card and its set. So each card, score and set
/// reaches a deck, and through it the user who owns it.
pub open spec fn refs_exist(t: Tables) -> bool {
    &&& forall|i: int|
        0 <= i < t.decks.len() ==> has_id(t.languages, (#[trigger] t.decks[i]).language) && has_id(
            t.users,
            t.decks[i].owner,
        )
    &&& forall|i: int| 0 <= i < t.cards.len() ==> has_id(t.decks, (#[trigger] t.cards[i]).deck)
    &&& forall|i: int| 0 <= i < t.scores.len() ==> has_id(t.cards, (#[trigger] t.scores[i]).card)
    &&& forall|i: int|
        0 <= i < t.sets.len() ==> has_id(t.decks, (#[trigger] t.sets[i]).deck) && has_id(
            t.users,
            t.sets[i].owner,
        )
    &&& forall|i: int|
        0 <= i < t.set_cards.len() ==> has_id(t.cards, (#[trigger] t.set_cards[i]).card_id) && has_id(
            t.sets,
            t.set_cards[i].set_id,
        )
}

/// No two users share a username.
pub open spec fn usernames_unique(users: Seq<User>) -> bool {
    forall|i: int, j: int|
        0 <= i < users.len() && 0 <= j < users.len() && i != j ==> (#[trigger] users[i]).username@
            != (#[trigger] users[j]).username@
}

/// The caller is a registered user.
pub open spec fn registered(t: Tables, caller: Option<i32>) -> bool {
    caller.is_some() && has_id(t.users, caller.unwrap())
}

impl Tables {
    /// Keys are unique in each table and below the next key to hand out.
    pub open spec fn wf(&self) -> bool {
        &&& 1 <= self.next_id <= i32::MAX
        &&& ids_unique(self.users) && ids_below(self.users, self.next_id)
        &&& usernames_unique(self.users)
        &&& ids_unique(self.languages) && ids_below(self.languages, self.next_id)
        &&& ids_unique(self.decks) && ids_below(self.decks, self.next_id)
        &&& ids_unique(self.backs) && ids_below(self.backs, self.next_id)
        &&& ids_unique(self.cards) && ids_below(self.cards, self.next_id)
        &&& ids_unique(self.scores) && ids_below(self.scores, self.next_id)
        &&& ids_unique(self.sets) && ids_below(self.sets, self.next_id)
        &&& ids_unique(self.set_cards) && ids_below(self.set_cards, self.next_id)
        &&& backs_owned(self.cards, self.backs)
        &&& refs_exist(*self)
    }

    /// The card exists and so does its deck: its owner can be resolved.
    pub open spec fn card_found(&self, card: i32) -> bool {
        has_id(self.cards, card) && has_id(self.decks, row_of(self.cards, card).deck)
    }

    /// The owner of a card, through its deck (meaningful when `card_found`).
    pub open spec fn card_owner(&self, card: i32) -> i32 {
        row_of(self.decks, row_of(self.cards, card).deck).owner
    }

    /// The score exists and so do its card and deck.
    pub open spec fn score_found(&self, score: i32) -> bool {
        has_id(self.scores, score) && self.card_found(row_of(self.scores, score).card)
    }

    /// The owner of a score, through its card and deck.
    pub open spec fn score_owner(&self, score: i32) -> i32 {
        self.card_owner(row_of(self.scores, score).card)
    }

    /// Enough keys are left for `n` new rows.
    pub open spec fn room_for(&self, n: int) -> bool {
        self.next_id + n <= i32::MAX
    }
}

impl Store {
    pub open spec fn wf(&self) -> bool {
        self@.wf()
    }

    /// An empty store.
    pub fn new() -> (r: Store)
        ensures
            r.wf(),
            r@.next_id == 1,
            r@.users.len() == 0,
            r@.languages.len() == 0,
            r@.decks.len() == 0,
            r@.backs.len() == 0,
            r@.cards.len() == 0,
            r@.scores.len() == 0,
            r@.sets.len() == 0,
            r@.set_cards.len() == 0,
    {
        Store {
            users: Vec::new(),
            languages: Vec::new(),
            decks: Vec::new(),
            backs: Vec::new(),
            cards: Vec::new(),
            scores: Vec::new(),
            sets: Vec::new(),
            set_cards: Vec::new(),
            next_id: 1,
        }
    }

    /// Takes the next key, or fails when the key space is used up.
    pub(crate) fn take_id(&mut self) -> (r: Result<i32, TRCError>)
        requires
            old(self).wf(),
        ensures
            old(self)@.room_for(1) ==> r == Ok::<i32, TRCError>(old(self).next_id),
            old(self)@.room_for(1) ==> final(self)@ == (Tables {
                next_id: old(self)@.next_id + 1,
                ..old(self)@
            }),
            !old(self)@.room_for(1) ==> r == Err::<i32, TRCError>(TRCError::Internal),
            !old(self)@.room_for(1) ==> final(self)@ == old(self)@,
    {
        if self.next_id == i32::MAX {
            Err(TRCError::Internal)
        } else {
            let id = self.next_id;
            self.next_id = self.next_id + 1;
            Ok(id)
        }
    }

    /// Registers a language that decks can be written in.
    pub fn add_language(&mut self, name: String, abbreviation: String) -> (r: Result<
        Language,
        TRCError,
    >)
        requires
            old(self).wf(),
        ensures
            final(self).wf(),
            old(self)@.room_for(1) ==> r == Ok::<Language, TRCError>(
                (Language { id: old(self)@.next_id as i32, name, abbreviation }),
            ) && final(self)@ == (Tables {
                languages: old(self)@.languages.push(r.unwrap()),
                next_id: old(self)@.next_id + 1,
                ..old(self)@
            }),
            !old(self)@.room_for(1) ==> r == Err::<Language, TRCError>(TRCError::Internal)
                && final(self)@ == old(self)@,
    {
        let id = match self.take_id() {
            Ok(id) => id,
            Err(e) => return Err(e),
        };
        let lang = Language { id, name, abbreviation };
        let copy = lang.duplicate();
        proof {
            lemma_push_fresh(self.languages@, lang, id as int);
        }
        self.languages.push(lang);
        Ok(copy)
    }

    /// The language with this key.
    pub fn language(&self, id: i32) -> (r: Option<Language>)
        requires
            self.wf(),
        ensures
            r.is_some() <==> has_id(self@.languages, id),
            r.is_some() ==> r.unwrap() == row_of(self@.languages, id),
    {
        match find_row(&self.languages, id) {
            Some(i) => Some(self.languages[i].duplicate()),
            None => None,
        }
    }

    /// The deck with this key.
    pub fn deck(&self, id: i32) -> (r: Option<Deck>)
        requires
            self.wf(),
        ensures
            r.is_some() <==> has_id(self@.decks, id),
            r.is_some() ==> r.unwrap() == row_of(self@.decks, id),
    {
        match find_row(&self.decks, id) {
            Some(i) => Some(self.decks[i].duplicate()),
            None => None,
        }
    }

    /// The card with this key.
    pub fn card(&self, id: i32) -> (r: Option<Card>)
        requires
            self.wf(),
        ensures
            r.is_some() <==> has_id(self@.cards, id),
            r.is_some() ==> r.unwrap() == row_of(self@.cards, id),
    {
        match find_row(&self.cards, id) {
            Some(i) => Some(self.cards[i].duplicate()),
            None => None,
        }
    }

    /// The back with this key.
    pub fn back(&self, id: i32) -> (r: Option<Back>)
        requires
            self.wf(),
        ensures
            r.is_some() <==> has_id(self@.backs, id),
            r.is_some() ==> r.unwrap() == row_of(self@.backs, id),
    {
        match find_row(&self.backs, id) {
            Some(i) => Some(self.backs[i].duplicate()),
            None => None,
        }
    }

    /// The score with this key.
    pub fn score(&self, id: i32) -> (r: Option<Score>)
        requires
            self.wf(),
        ensures
            r.is_some() <==> has_id(self@.scores, id),
            r.is_some() ==> r.unwrap() == row_of(self@.scores, id),
    {
        match find_row(&self.scores, id) {
            Some(i) => Some(self.scores[i].duplicate()),
            None => None,
        }
    }

    /// The set with this key.
    pub fn set(&self, id: i32) -> (r: Option<CardSet>)
        requires
            self.wf(),
        ensures
            r.is_some() <==> has_id(self@.sets, id),
            r.is_some() ==> r.unwrap() == row_of(self@.sets, id),
    {
        match find_row(&self.sets, id) {
            Some(i) => Some(self.sets[i].duplicate()),
            None => None,
        }
    }

    /// The user with this key.
    pub fn user(&self, id: i32) -> (r: Option<User>)
        requires
            self.wf(),
        ensures
            r.is_some() <==> has_id(self@.users, id),
            r.is_some() ==> r.unwrap() == row_of(self@.users, id),
    {
        match find_row(&self.users, id) {
            Some(i) => Some(self.users[i].duplicate()),
            None => None,
        }
    }

    /// The caller's id, when the caller is a registered user.
    pub(crate) fn registered_caller(&self, caller: Option<i32>) -> (r: Result<i32, TRCError>)
        requires
            self.wf(),
        ensures
            registered(self@, caller) ==> r == Ok::<i32, TRCError>(caller.unwrap()),
            !registered(self@, caller) ==> r == Err::<i32, TRCError>(TRCError::Unauthorized),
    {
        match caller {
            Some(uid) => if find_row(&self.users, uid).is_some() {
                Ok(uid)
            } else {
                Err(TRCError::Unauthorized)
            },
            None => Err(TRCError::Unauthorized),
        }
    }

    /// The owner of a deck, or `NotFound`.
    pub(crate) fn deck_owner(&self, deck: i32) -> (r: Result<i32, TRCError>)
        requires
            self.wf(),
        ensures
            has_id(self@.decks, deck) ==> r == Ok::<i32, TRCError>(row_of(self@.decks, deck).owner),
            !has_id(self@.decks, deck) ==> r == Err::<i32, TRCError>(TRCError::NotFound),
    {
        match find_row(&self.decks, deck) {
            Some(i) => Ok(self.decks[i].owner),
            None => Err(TRCError::NotFound),
        }
    }

    /// The owner of a card through its deck, or `NotFound`.
    pub(crate) fn card_owner(&self, card: i32) -> (r: Result<i32, TRCError>)
        requires
            self.wf(),
        ensures
            self@.card_found(card) ==> r == Ok::<i32, TRCError>(self@.card_owner(card)),
            !self@.card_found(card) ==> r == Err::<i32, TRCError>(TRCError::NotFound),
    {
        match find_row(&self.cards, card) {
            Some(i) => self.deck_owner(self.cards[i].deck),
            None => Err(TRCError::NotFound),
        }
    }
}

} // verus!
