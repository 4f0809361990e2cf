use vstd::prelude::*;

use crate::auth::authorize;
use crate::error::TRCError;
use crate::inputs::{DeckChangeset, DeckDeleteset, NewDeck};
use crate::model::Deck;
use crate::store::{registered, Store, Tables};
use crate::table::{
    find_row, has_id, index_of, lemma_index_of_found, lemma_push_fresh, lemma_remove,
    lemma_update_same_key, remove_row, row_of,
};

verus! {

/// Some card or set still refers to the deck.
pub open spec fn deck_in_use(t: Tables, deck: i32) -> bool {
    (exists|i: int| 0 <= i < t.cards.len() && #[trigger] t.cards[i].deck == deck) || (exists|
        i: int,
    |
        0 <= i < t.sets.len() && #[trigger] t.sets[i].deck == deck)
}

/// Why `uid` may not change or remove deck `id`, if it may not.
pub open spec fn deck_owner_check(t: Tables, uid: i32, id: i32) -> Option<TRCError> {
    if !has_id(t.decks, id) {
        Some(TRCError::NotFound)
    } else if row_of(t.decks, id).owner != uid {
        Some(TRCError::Unauthorized)
    } else {
        None
    }
}

/// After a batch of decks, `t1` holds `t0` with one deck per item appended,
/// owned by `uid`, under keys counted up from `next_id`.
pub open spec fn decks_appended(t0: Tables, t1: Tables, uid: i32, items: Seq<NewDeck>) -> bool {
    &&& t1 == (Tables { decks: t1.decks, next_id: t0.next_id + items.len(), ..t0 })
    &&& t1.decks.len() == t0.decks.len() + items.len()
    &&& t1.decks.subrange(0, t0.decks.len() as int) == t0.decks
    &&& forall|k: int|
        0 <= k < items.len() ==> #[trigger] t1.decks[t0.decks.len() + k] == (Deck {
            id: (t0.next_id + k) as i32,
            name: items[k].name,
            owner: uid,
            language: items[k].language,
        })
}

impl Store {
    /// Whether some card or set refers to the deck.
    fn deck_referenced(&self, deck: i32) -> (r: bool)
        requires
            self.wf(),
        ensures
            r == deck_in_use(self@, deck),
    {
        let mut i: usize = 0;
        while i < self.cards.len()
            invariant
                0 <= i <= self.cards@.len(),
                forall|j: int| 0 <= j < i ==> (#[trigger] self.cards@[j]).deck != deck,
            decreases self.cards@.len() - i,
        {
            if self.cards[i].deck == deck {
                assert(self@.cards[i as int].deck == deck);
                return true;
            }
            i = i + 1;
        }
        let mut k: usize = 0;
        while k < self.sets.len()
            invariant
                0 <= k <= self.sets@.len(),
                forall|j: int| 0 <= j < self.cards@.len() ==> (#[trigger] self.cards@[j]).deck != deck,
                forall|j: int| 0 <= j < k ==> (#[trigger] self.sets@[j]).deck != deck,
            decreases self.sets@.len() - k,
        {
            if self.sets[k].deck == deck {
                assert(self@.sets[k as int].deck == deck);
                return true;
            }
            k = k + 1;
        }
        false
    }

    /// Creates a deck owned by the caller, whoever the input names.
    pub fn create_deck(&mut self, caller: Option<i32>, item: NewDeck) -> (r: Result<
        Deck,
        TRCError,
    >)
        requires
            old(self).wf(),
        ensures
            final(self).wf(),
            !registered(old(self)@, caller) ==> r == Err::<Deck, TRCError>(TRCError::Unauthorized),
            registered(old(self)@, caller) && !has_id(old(self)@.languages, item.language) ==> r == Err::<
                Deck,
                TRCError,
            >(TRCError::NotFound),
            registered(old(self)@, caller) && has_id(old(self)@.languages, item.language) && !old(
                self,
            )@.room_for(1) ==> r == Err::<Deck, TRCError>(TRCError::Internal),
            r.is_err() ==> final(self)@ == old(self)@,
            r.is_ok() <==> registered(old(self)@, caller) && has_id(old(self)@.languages, item.language) && old(
                self,
            )@.room_for(1),
            r.is_ok() ==> r.unwrap() == (Deck {
                id: old(self)@.next_id as i32,
                name: item.name,
                owner: caller.unwrap(),
                language: item.language,
            }) && final(self)@ == (Tables {
                decks: old(self)@.decks.push(r.unwrap()),
                next_id: old(self)@.next_id + 1,
                ..old(self)@
            }),
    {
        let uid = match self.registered_caller(caller) {
            Ok(uid) => uid,
            Err(e) => return Err(e),
        };
        if find_row(&self.languages, item.language).is_none() {
            return Err(TRCError::NotFound);
        }
        if self.next_id == i32::MAX {
            return Err(TRCError::Internal);
        }
        let deck = Deck { id: self.next_id, name: item.name, owner: uid, language: item.language };
        let copy = deck.duplicate();
        proof {
            lemma_push_fresh(self.decks@, deck, self.next_id as int);
        }
        self.decks.push(deck);
        self.next_id = self.next_id + 1;
        Ok(copy)
    }

    /// Creates a batch of decks owned by the caller, all or none.
    pub fn create_decks(&mut self, caller: Option<i32>, items: &Vec<NewDeck>) -> (r: Result<
        Vec<Deck>,
        TRCError,
    >)
        requires
            old(self).wf(),
        ensures
            final(self).wf(),
            !registered(old(self)@, caller) ==> r == Err::<Vec<Deck>, TRCError>(TRCError::Unauthorized),
            registered(old(self)@, caller) && (exists|i: int|
                0 <= i < items@.len() && !has_id(old(self)@.languages, #[trigger] items@[i].language))
                ==> r == Err::<Vec<Deck>, TRCError>(TRCError::NotFound),
            registered(old(self)@, caller) && (forall|i: int|
                0 <= i < items@.len() ==> has_id(old(self)@.languages, #[trigger] items@[i].language))
                && !old(self)@.room_for(items@.len() as int) ==> r == Err::<Vec<Deck>, TRCError>(
                TRCError::Internal,
            ),
            r.is_err() ==> final(self)@ == old(self)@,
            r.is_ok() <==> registered(old(self)@, caller) && old(self)@.room_for(items@.len() as int) && (forall|
                i: int,
            |
                0 <= i < items@.len() ==> has_id(old(self)@.languages, #[trigger] items@[i].language)),
            r.is_ok() ==> decks_appended(old(self)@, final(self)@, caller.unwrap(), items@)
                && r.unwrap()@ == final(self)@.decks.subrange(
                old(self)@.decks.len() as int,
                final(self)@.decks.len() as int,
            ),
    {
        let uid = match self.registered_caller(caller) {
            Ok(uid) => uid,
            Err(e) => return Err(e),
        };
        let n = items.len();
        let mut i: usize = 0;
        while i < n
            invariant
                self.wf(),
                self@ == old(self)@,
                caller == Some(uid),
                has_id(self@.users, uid),
                n == items@.len(),
                0 <= i <= n,
                forall|j: int| 0 <= j < i ==> has_id(self@.languages, #[trigger] items@[j].language),
            decreases n - i,
        {
            if find_row(&self.languages, items[i].language).is_none() {
                return Err(TRCError::NotFound);
            }
            i = i + 1;
        }
        if n > i32::MAX as usize || self.next_id > i32::MAX - n as i32 {
            return Err(TRCError::Internal);
        }
        let ghost t0 = self@;
        let mut out: Vec<Deck> = Vec::new();
        let mut k: usize = 0;
        while k < n
            invariant
                self.wf(),
                n == items@.len(),
                0 <= k <= n,
                t0.room_for(n as int),
                forall|j: int| 0 <= j < n ==> has_id(t0.languages, #[trigger] items@[j].language),
                has_id(t0.users, uid),
                self@ == (Tables { decks: self@.decks, next_id: t0.next_id + k, ..t0 }),
                self@.decks.len() == t0.decks.len() + k,
                self@.decks.subrange(0, t0.decks.len() as int) == t0.decks,
                forall|j: int|
                    0 <= j < k ==> #[trigger] self@.decks[t0.decks.len() + j] == (Deck {
                        id: (t0.next_id + j) as i32,
                        name: items@[j].name,
                        owner: uid,
                        language: items@[j].language,
                    }),
                out@ == self@.decks.subrange(t0.decks.len() as int, self@.decks.len() as int),
            decreases n - k,
        {
            let ghost before = self@;
            let deck = Deck {
                id: self.next_id,
                name: items[k].name.clone(),
                owner: uid,
                language: items[k].language,
            };
            out.push(deck.duplicate());
            proof {
                lemma_push_fresh(self.decks@, deck, self.next_id as int);
            }
            self.decks.push(deck);
            self.next_id = self.next_id + 1;
            assert forall|j: int| 0 <= j < k + 1 implies #[trigger] self@.decks[t0.decks.len() + j]
                == (Deck {
                id: (t0.next_id + j) as i32,
                name: items@[j].name,
                owner: uid,
                language: items@[j].language,
            }) by {
                if j < k {
                    assert(self@.decks[t0.decks.len() + j] == before.decks[t0.decks.len() + j]);
                }
            }
            assert(self@.decks.subrange(0, t0.decks.len() as int) =~= t0.decks);
            assert(out@ =~= self@.decks.subrange(t0.decks.len() as int, self@.decks.len() as int));
            k = k + 1;
        }
        Ok(out)
    }

    /// Renames one of the caller's decks.
    pub fn update_deck(&mut self, caller: Option<i32>, change: DeckChangeset) -> (r: Result<
        Deck,
        TRCError,
    >)
        requires
            old(self).wf(),
        ensures
            final(self).wf(),
            caller.is_none() ==> r == Err::<Deck, TRCError>(TRCError::Unauthorized),
            caller.is_some() && deck_owner_check(old(self)@, caller.unwrap(), change.id).is_some()
                ==> r == Err::<Deck, TRCError>(
                deck_owner_check(old(self)@, caller.unwrap(), change.id).unwrap(),
            ),
            r.is_err() ==> final(self)@ == old(self)@,
            r.is_ok() <==> caller.is_some() && deck_owner_check(
                old(self)@,
                caller.unwrap(),
                change.id,
            ).is_none(),
            r.is_ok() ==> r.unwrap() == (Deck {
                name: change.name,
                ..row_of(old(self)@.decks, change.id)
            }) && final(self)@ == (Tables {
                decks: old(self)@.decks.update(index_of(old(self)@.decks, change.id), r.unwrap()),
                ..old(self)@
            }),
    {
        let uid = match caller {
            Some(uid) => uid,
            None => return Err(TRCError::Unauthorized),
        };
        let i = match find_row(&self.decks, change.id) {
            Some(i) => i,
            None => return Err(TRCError::NotFound),
        };
        match authorize(caller, &vec![self.decks[i].owner]) {
            Ok(_) => {},
            Err(e) => return Err(e),
        }
        let deck = Deck { name: change.name, ..self.decks[i].duplicate() };
        let copy = deck.duplicate();
        proof {
            lemma_index_of_found(self.decks@, change.id);
            lemma_update_same_key(self.decks@, i as int, deck, self.next_id as int);
        }
        self.decks.set(i, deck);
        Ok(copy)
    }

    /// Removes one of the caller's decks. A deck that does not exist counts
    /// zero; one that cards or sets still refer to is kept, with
    /// `Validation`.
    pub fn delete_deck(&mut self, caller: Option<i32>, target: DeckDeleteset) -> (r: Result<
        i32,
        TRCError,
    >)
        requires
            old(self).wf(),
        ensures
            final(self).wf(),
            caller.is_none() ==> r == Err::<i32, TRCError>(TRCError::Unauthorized),
            caller.is_some() && !has_id(old(self)@.decks, target.id) ==> r == Ok::<i32, TRCError>(
                0,
            ),
            caller.is_some() && has_id(old(self)@.decks, target.id) && row_of(
                old(self)@.decks,
                target.id,
            ).owner != caller.unwrap() ==> r == Err::<i32, TRCError>(TRCError::Unauthorized),
            caller.is_some() && deck_owner_check(old(self)@, caller.unwrap(), target.id).is_none()
                && deck_in_use(old(self)@, target.id) ==> r == Err::<i32, TRCError>(
                TRCError::Validation,
            ),
            caller.is_some() && deck_owner_check(old(self)@, caller.unwrap(), target.id).is_none()
                && !deck_in_use(old(self)@, target.id) ==> r == Ok::<i32, TRCError>(1),
            r != Ok::<i32, TRCError>(1) ==> final(self)@ == old(self)@,
            r == Ok::<i32, TRCError>(1) ==> final(self)@ == (Tables {
                decks: old(self)@.decks.remove(index_of(old(self)@.decks, target.id)),
                ..old(self)@
            }),
    {
        let uid = match caller {
            Some(uid) => uid,
            None => return Err(TRCError::Unauthorized),
        };
        let i = match find_row(&self.decks, target.id) {
            Some(i) => i,
            None => return Ok(0),
        };
        match authorize(caller, &vec![self.decks[i].owner]) {
            Ok(_) => {},
            Err(e) => return Err(e),
        }
        if self.deck_referenced(target.id) {
            return Err(TRCError::Validation);
        }
        proof {
            lemma_remove(self.decks@, target.id, self.next_id as int);
        }
        Ok(remove_row(&mut self.decks, target.id))
    }
}

} // verus!
