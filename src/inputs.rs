use vstd::prelude::*;

use crate::model::{copy_text, ScoreValue};

verus! {

pub struct NewUser {
    pub username: String,
    pub password: String,
}

/// A password change; the password is the only mutable field of a user.
pub struct UserChangeset {
    pub id: i32,
    pub password: String,
}

pub struct UserDeleteset {
    pub id: i32,
}

pub struct NewDeck {
    pub name: String,
    pub language: i32,
}

/// A rename; the name is the only mutable field of a deck.
pub struct DeckChangeset {
    pub id: i32,
    pub name: String,
}

pub struct DeckDeleteset {
    pub id: i32,
}

pub struct NewCard {
    pub front: String,
    pub back: String,
    pub deck: i32,
    pub link: Option<String>,
}

impl NewCard {
    pub fn duplicate(&self) -> (r: NewCard)
        ensures
            r == *self,
    {
        NewCard {
            front: self.front.clone(),
            back: self.back.clone(),
            deck: self.deck,
            link: copy_text(&self.link),
        }
    }
}

/// A change of a card's link, its only mutable field: `None` keeps the
/// current link, `Some(None)` clears it, `Some(Some(l))` sets it to `l`.
pub struct CardChangeset {
    pub id: i32,
    pub link: Option<Option<String>>,
}

pub struct CardDeleteset {
    pub id: i32,
}

pub struct NewScore {
    pub card: i32,
    pub value: ScoreValue,
}

/// A change of a score's value, its only mutable field.
pub struct ScoreChangeset {
    pub id: i32,
    pub value: ScoreValue,
}

pub struct NewSet {
    pub name: String,
    pub deck: i32,
    pub cards: Vec<i32>,
}

impl NewSet {
    pub fn duplicate(&self) -> (r: NewSet)
        ensures
            r.name == self.name,
            r.deck == self.deck,
            r.cards@ == self.cards@,
    {
        NewSet { name: self.name.clone(), deck: self.deck, cards: self.cards.clone() }
    }
}

/// A rename; the name is the only mutable field of a set.
pub struct SetChangeset {
    pub id: i32,
    pub name: String,
}

pub struct SetDeleteset {
    pub id: i32,
}

} // verus!
