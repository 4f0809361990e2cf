use vstd::prelude::*;

verus! {

/// A row with an integer primary key.
pub trait Keyed {
    spec fn key(&self) -> i32;

    fn id(&self) -> (r: i32)
        ensures
            r == self.key(),
    ;
}

/// How well a card was remembered in one study round; only these six values
/// are ever stored.
#[derive(Clone, Copy, Debug, PartialEq, Eq, Hash, Structural)]
pub enum ScoreValue {
    ZERO,
    ONE,
    TWO,
    THREE,
    FOUR,
    FIVE,
}

pub open spec fn score_number(v: ScoreValue) -> int {
    match v {
        ScoreValue::ZERO => 0,
        ScoreValue::ONE => 1,
        ScoreValue::TWO => 2,
        ScoreValue::THREE => 3,
        ScoreValue::FOUR => 4,
        ScoreValue::FIVE => 5,
    }
}

impl ScoreValue {
    /// The stored small-integer form.
    pub fn to_i16(&self) -> (r: i16)
        ensures
            r as int == score_number(*self),
    {
        match self {
            ScoreValue::ZERO => 0,
            ScoreValue::ONE => 1,
            ScoreValue::TWO => 2,
            ScoreValue::THREE => 3,
            ScoreValue::FOUR => 4,
            ScoreValue::FIVE => 5,
        }
    }

    /// Reads the stored form back; anything outside `0..=5` is not a score.
    pub fn from_i16(v: i16) -> (r: Option<ScoreValue>)
        ensures
            0 <= v <= 5 <==> r.is_some(),
            r.is_some() ==> score_number(r.unwrap()) == v as int,
    {
        match v {
            0 => Some(ScoreValue::ZERO),
            1 => Some(ScoreValue::ONE),
            2 => Some(ScoreValue::TWO),
            3 => Some(ScoreValue::THREE),
            4 => Some(ScoreValue::FOUR),
            5 => Some(ScoreValue::FIVE),
            _ => None,
        }
    }
}

/// An account; `password` holds the salted hash, never the password itself.
#[derive(Clone, Debug)]
pub struct User {
    pub id: i32,
    pub username: String,
    pub password: String,
    pub created_at: i64,
    pub updated_at: i64,
}

#[derive(Clone, Debug)]
pub struct Language {
    pub id: i32,
    pub name: String,
    pub abbreviation: String,
}

#[derive(Clone, Debug)]
pub struct Deck {
    pub id: i32,
    pub name: String,
    pub owner: i32,
    pub language: i32,
}

/// The answer side of a card, with the paths of its cached audio and image
/// relative to the asset root.
#[derive(Clone, Debug)]
pub struct Back {
    pub id: i32,
    pub text: String,
    pub language: i32,
    pub audio: Option<String>,
    pub image: Option<String>,
}

#[derive(Clone, Debug)]
pub struct Card {
    pub id: i32,
    pub created_at: i64,
    pub front: String,
    pub back: i32,
    pub deck: i32,
    pub link: Option<String>,
}

#[derive(Clone, Copy, Debug)]
pub struct Score {
    pub id: i32,
    pub created_at: i64,
    pub card: i32,
    pub value: ScoreValue,
}

#[derive(Clone, Debug)]
pub struct CardSet {
    pub id: i32,
    pub created_at: i64,
    pub name: String,
    pub deck: i32,
    pub owner: i32,
}

/// Membership of one card in one set.
#[derive(Clone, Copy, Debug)]
pub struct SetCard {
    pub id: i32,
    pub card_id: i32,
    pub set_id: i32,
}

impl Keyed for User {
    open spec fn key(&self) -> i32 {
        self.id
    }

    fn id(&self) -> (r: i32) {
        self.id
    }
}

impl Keyed for Language {
    open spec fn key(&self) -> i32 {
        self.id
    }

    fn id(&self) -> (r: i32) {
        self.id
    }
}

impl Keyed for Deck {
    open spec fn key(&self) -> i32 {
        self.id
    }

    fn id(&self) -> (r: i32) {
        self.id
    }
}

impl Keyed for Back {
    open spec fn key(&self) -> i32 {
        self.id
    }

    fn id(&self) -> (r: i32) {
        self.id
    }
}

impl Keyed for Card {
    open spec fn key(&self) -> i32 {
        self.id
    }

    fn id(&self) -> (r: i32) {
        self.id
    }
}

impl Keyed for Score {
    open spec fn key(&self) -> i32 {
        self.id
    }

    fn id(&self) -> (r: i32) {
        self.id
    }
}

impl Keyed for CardSet {
    open spec fn key(&self) -> i32 {
        self.id
    }

    fn id(&self) -> (r: i32) {
        self.id
    }
}

impl Keyed for SetCard {
    open spec fn key(&self) -> i32 {
        self.id
    }

    fn id(&self) -> (r: i32) {
        self.id
    }
}

/// A copy of an optional text that Verus knows to be equal to it.
pub fn copy_text(o: &Option<String>) -> (r: Option<String>)
    ensures
        r == *o,
{
    match o {
        Some(t) => Some(t.clone()),
        None => None,
    }
}

impl User {
    pub fn duplicate(&self) -> (r: User)
        ensures
            r == *self,
    {
        User {
            id: self.id,
            username: self.username.clone(),
            password: self.password.clone(),
            created_at: self.created_at,
            updated_at: self.updated_at,
        }
    }
}

impl Language {
    pub fn duplicate(&self) -> (r: Language)
        ensures
            r == *self,
    {
        Language { id: self.id, name: self.name.clone(), abbreviation: self.abbreviation.clone() }
    }
}

impl Deck {
    pub fn duplicate(&self) -> (r: Deck)
        ensures
            r == *self,
    {
        Deck { id: self.id, name: self.name.clone(), owner: self.owner, language: self.language }
    }
}

impl Back {
    pub fn duplicate(&self) -> (r: Back)
        ensures
            r == *self,
    {
        Back {
            id: self.id,
            text: self.text.clone(),
            language: self.language,
            audio: copy_text(&self.audio),
            image: copy_text(&self.image),
        }
    }
}

impl Card {
    pub fn duplicate(&self) -> (r: Card)
        ensures
            r == *self,
    {
        Card {
            id: self.id,
            created_at: self.created_at,
            front: self.front.clone(),
            back: self.back,
            deck: self.deck,
            link: copy_text(&self.link),
        }
    }
}

impl Score {
    pub fn duplicate(&self) -> (r: Score)
        ensures
            r == *self,
    {
        Score { id: self.id, created_at: self.created_at, card: self.card, value: self.value }
    }
}

impl CardSet {
    pub fn duplicate(&self) -> (r: CardSet)
        ensures
            r == *self,
    {
        CardSet {
            id: self.id,
            created_at: self.created_at,
            name: self.name.clone(),
            deck: self.deck,
            owner: self.owner,
        }
    }
}

} // verus!
