use vstd::prelude::*;

use crate::assets::{asset_path, relative_path, sanitized_of, storage_key, AssetJob, AssetKind};
use crate::auth::authorize;
use crate::error::{AssetError, TRCError};
use crate::inputs::{CardChangeset, CardDeleteset, NewCard};
use crate::model::{Back, Card, Keyed};
use crate::store::{Store, Tables};
use crate::table::{
    find_row, has_id, index_of, lemma_index_of, lemma_index_of_found, lemma_push_fresh,
    lemma_remove, lemma_update_same_key, remove_row, row_of,
};

verus! {

/// The abbreviation of a deck's language.
pub open spec fn deck_abbr(t: Tables, deck: i32) -> Seq<char> {
    row_of(t.languages, row_of(t.decks, deck).language).abbreviation@
}

/// Why `uid` may not add a card to `deck`, if it may not: the deck must exist,
/// belong to `uid`, and be written in a known language.
pub open spec fn card_check(t: Tables, uid: i32, deck: i32) -> Option<TRCError> {
    if !has_id(t.decks, deck) {
        Some(TRCError::NotFound)
    } else if row_of(t.decks, deck).owner != uid {
        Some(TRCError::Unauthorized)
    } else if !has_id(t.languages, row_of(t.decks, deck).language) {
        Some(TRCError::NotFound)
    } else {
        None
    }
}

/// `b` is the back written for `item` under key `id`: the item's text, the
/// deck's language, and the cache paths of its audio and image.
pub open spec fn is_new_back(t: Tables, b: Back, item: NewCard, id: int) -> bool {
    let key = sanitized_of(item.back@);
    let abbr = deck_abbr(t, item.deck);
    &&& b.id == id
    &&& b.text == item.back
    &&& b.language == row_of(t.decks, item.deck).language
    &&& b.audio is Some && b.audio->0@ == asset_path(AssetKind::Audio, abbr, key)
    &&& b.image is Some && b.image->0@ == asset_path(AssetKind::Image, abbr, key)
}

/// `c` is the card written for `item` under key `id`, with its back under
/// key `id - 1`, created at `now`.
pub open spec fn is_new_card(c: Card, item: NewCard, id: int, now: i64) -> bool {
    &&& c.id == id
    &&& c.created_at == now
    &&& c.front == item.front
    &&& c.back == id - 1
    &&& c.deck == item.deck
    &&& c.link == item.link
}

/// The link a card has after `change`: the new one when given, else the old.
pub open spec fn changed_link(old: Option<String>, change: Option<Option<String>>) -> Option<
    String,
> {
    match change {
        Some(l) => l,
        None => old,
    }
}

/// Some score or set membership still refers to the card.
pub open spec fn card_in_use(t: Tables, card: i32) -> bool {
    (exists|i: int| 0 <= i < t.scores.len() && #[trigger] t.scores[i].card == card) || (exists|
        i: int,
    |
        0 <= i < t.set_cards.len() && #[trigger] t.set_cards[i].card_id == card)
}

impl Store {
    /// Checks that `uid` may add a card to `deck`; gives the deck's language
    /// and its abbreviation.
    fn check_card_target(&self, uid: i32, deck: i32) -> (r: Result<(i32, String), TRCError>)
        requires
            self.wf(),
        ensures
            card_check(self@, uid, deck).is_some() ==> r == Err::<(i32, String), TRCError>(
                card_check(self@, uid, deck).unwrap(),
            ),
            card_check(self@, uid, deck).is_none() ==> r.is_ok() && r.unwrap().0 == row_of(
                self@.decks,
                deck,
            ).language && r.unwrap().1@ == deck_abbr(self@, deck),
    {
        let di = match find_row(&self.decks, deck) {
            Some(i) => i,
            None => return Err(TRCError::NotFound),
        };
        match authorize(Some(uid), &vec![self.decks[di].owner]) {
            Ok(_) => {},
            Err(e) => return Err(e),
        }
        let language = self.decks[di].language;
        match find_row(&self.languages, language) {
            Some(li) => Ok((language, self.languages[li].abbreviation.clone())),
            None => Err(TRCError::NotFound),
        }
    }

    /// Writes the back and the card of one item; all checks have passed.
    fn write_card(&mut self, item: NewCard, language: i32, abbr: &String, now: i64) -> (r: Card)
        requires
            old(self).wf(),
            old(self)@.room_for(2),
            card_check(old(self)@, row_of(old(self)@.decks, item.deck).owner, item.deck).is_none(),
            language == row_of(old(self)@.decks, item.deck).language,
            abbr@ == deck_abbr(old(self)@, item.deck),
        ensures
            final(self).wf(),
            final(self)@ == (Tables {
                backs: old(self)@.backs.push(final(self)@.backs.last()),
                cards: old(self)@.cards.push(r),
                next_id: old(self)@.next_id + 2,
                ..old(self)@
            }),
            is_new_back(old(self)@, final(self)@.backs.last(), item, old(self)@.next_id),
            is_new_card(r, item, old(self)@.next_id + 1, now),
    {
        let key = storage_key(item.back.as_str());
        let audio = relative_path(AssetKind::Audio, abbr.as_str(), key.as_str());
        let image = relative_path(AssetKind::Image, abbr.as_str(), key.as_str());
        let back_id = self.next_id;
        let back = Back { id: back_id, text: item.back, language, audio: Some(audio), image: Some(image) };
        proof {
            lemma_push_fresh(self.backs@, back, back_id as int);
        }
        self.backs.push(back);
        self.next_id = self.next_id + 1;
        let card_id = self.next_id;
        let card = Card {
            id: card_id,
            created_at: now,
            front: item.front,
            back: back_id,
            deck: item.deck,
            link: item.link,
        };
        let copy = card.duplicate();
        proof {
            lemma_push_fresh(self.cards@, card, card_id as int);
        }
        self.cards.push(card);
        self.next_id = self.next_id + 1;
        assert(self@.backs.last() == back);
        copy
    }

    /// Adds a card and its back to a deck of the caller's.
    ///
    /// `assets` is how resolving the audio and image of the back went (the
    /// jobs that `card_assets` names); the rows are written only if it
    /// succeeded, and the back records the cache paths of both.
    pub fn create_card(
        &mut self,
        caller: Option<i32>,
        item: NewCard,
        assets: Result<(), AssetError>,
        now: i64,
    ) -> (r: Result<Card, TRCError>)
        requires
            old(self).wf(),
        ensures
            final(self).wf(),
            caller.is_none() ==> r == Err::<Card, TRCError>(TRCError::Unauthorized),
            caller.is_some() && card_check(old(self)@, caller.unwrap(), item.deck).is_some()
                ==> r == Err::<Card, TRCError>(
                card_check(old(self)@, caller.unwrap(), item.deck).unwrap(),
            ),
            caller.is_some() && card_check(old(self)@, caller.unwrap(), item.deck).is_none()
                && assets.is_err() ==> r == Err::<Card, TRCError>(
                TRCError::AssetResolution(assets.unwrap_err()),
            ),
            caller.is_some() && card_check(old(self)@, caller.unwrap(), item.deck).is_none()
                && assets.is_ok() && !old(self)@.room_for(2) ==> r == Err::<Card, TRCError>(
                TRCError::Internal,
            ),
            r.is_err() ==> final(self)@ == old(self)@,
            r.is_ok() <==> caller.is_some() && card_check(
                old(self)@,
                caller.unwrap(),
                item.deck,
            ).is_none() && assets.is_ok() && old(self)@.room_for(2),
            r.is_ok() ==> final(self)@ == (Tables {
                backs: old(self)@.backs.push(final(self)@.backs.last()),
                cards: old(self)@.cards.push(r.unwrap()),
                next_id: old(self)@.next_id + 2,
                ..old(self)@
            }) && is_new_back(old(self)@, final(self)@.backs.last(), item, old(self)@.next_id)
                && is_new_card(r.unwrap(), item, old(self)@.next_id + 1, now),
    {
        let uid = match caller {
            Some(uid) => uid,
            None => return Err(TRCError::Unauthorized),
        };
        let (language, abbr) = match self.check_card_target(uid, item.deck) {
            Ok(found) => found,
            Err(e) => return Err(e),
        };
        match assets {
            Ok(()) => {},
            Err(e) => return Err(TRCError::AssetResolution(e)),
        }
        if self.next_id > i32::MAX - 2 {
            return Err(TRCError::Internal);
        }
        Ok(self.write_card(item, language, &abbr, now))
    }
}

/// The first item of a batch whose deck `uid` may not add to, if any.
pub open spec fn first_card_failure(t: Tables, uid: i32, items: Seq<NewCard>, i: int) -> bool {
    &&& 0 <= i < items.len()
    &&& card_check(t, uid, items[i].deck).is_some()
    &&& forall|j: int| 0 <= j < i ==> (#[trigger] card_check(t, uid, items[j].deck)).is_none()
}

/// Every item of a batch names a deck that `uid` may add to.
pub open spec fn all_cards_allowed(t: Tables, uid: i32, items: Seq<NewCard>) -> bool {
    forall|i: int| 0 <= i < items.len() ==> (#[trigger] card_check(t, uid, items[i].deck)).is_none()
}

/// After a batch of `n` cards, `t1` holds `t0` with, for each item `k`, its
/// back and its card appended under keys `next_id + 2k` and `next_id + 2k + 1`.
pub open spec fn cards_appended(t0: Tables, t1: Tables, items: Seq<NewCard>, now: i64) -> bool {
    let n = items.len();
    &&& t1 == (Tables { backs: t1.backs, cards: t1.cards, next_id: t0.next_id + 2 * n, ..t0 })
    &&& t1.backs.len() == t0.backs.len() + n
    &&& t1.cards.len() == t0.cards.len() + n
    &&& t1.backs.subrange(0, t0.backs.len() as int) == t0.backs
    &&& t1.cards.subrange(0, t0.cards.len() as int) == t0.cards
    &&& forall|k: int|
        0 <= k < n ==> is_new_back(
            t0,
            #[trigger] t1.backs[t0.backs.len() + k],
            items[k],
            t0.next_id + 2 * k,
        ) && is_new_card(t1.cards[t0.cards.len() + k], items[k], t0.next_id + 2 * k + 1, now)
}

impl Store {
    /// Adds a batch of cards, all or none: every deck named must belong to
    /// the caller before any row is written, and `assets`, how resolving
    /// the assets of all items went, must have succeeded. All cards share one
    /// creation time.
    pub fn create_cards(
        &mut self,
        caller: Option<i32>,
        items: &Vec<NewCard>,
        assets: Result<(), AssetError>,
        now: i64,
    ) -> (r: Result<Vec<Card>, TRCError>)
        requires
            old(self).wf(),
        ensures
            final(self).wf(),
            caller.is_none() ==> r == Err::<Vec<Card>, TRCError>(TRCError::Unauthorized),
            caller.is_some() && !all_cards_allowed(old(self)@, caller.unwrap(), items@) ==> exists|
                i: int,
            |
                first_card_failure(old(self)@, caller.unwrap(), items@, i) && r == Err::<
                    Vec<Card>,
                    TRCError,
                >(card_check(old(self)@, caller.unwrap(), items@[i].deck).unwrap()),
            caller.is_some() && all_cards_allowed(old(self)@, caller.unwrap(), items@)
                && assets.is_err() ==> r == Err::<Vec<Card>, TRCError>(
                TRCError::AssetResolution(assets.unwrap_err()),
            ),
            caller.is_some() && all_cards_allowed(old(self)@, caller.unwrap(), items@)
                && assets.is_ok() && !old(self)@.room_for(2 * items@.len() as int) ==> r == Err::<
                Vec<Card>,
                TRCError,
            >(TRCError::Internal),
            r.is_err() ==> final(self)@ == old(self)@,
            r.is_ok() <==> caller.is_some() && all_cards_allowed(old(self)@, caller.unwrap(), items@)
                && assets.is_ok() && old(self)@.room_for(2 * items@.len() as int),
            r.is_ok() ==> cards_appended(old(self)@, final(self)@, items@, now) && r.unwrap()@
                == final(self)@.cards.subrange(
                old(self)@.cards.len() as int,
                final(self)@.cards.len() as int,
            ),
    {
        let uid = match caller {
            Some(uid) => uid,
            None => return Err(TRCError::Unauthorized),
        };
        let n = items.len();
        let mut i: usize = 0;
        while i < n
            invariant
                self.wf(),
                self@ == old(self)@,
                caller == Some(uid),
                n == items@.len(),
                0 <= i <= n,
                forall|j: int| 0 <= j < i ==> (#[trigger] card_check(self@, uid, items@[j].deck)).is_none(),
            decreases n - i,
        {
            match self.check_card_target(uid, items[i].deck) {
                Ok(_) => {},
                Err(e) => {
                    assert(first_card_failure(self@, uid, items@, i as int));
                    return Err(e);
                },
            }
            i = i + 1;
        }
        match assets {
            Ok(()) => {},
            Err(e) => return Err(TRCError::AssetResolution(e)),
        }
        if n > 1073741823 || self.next_id > i32::MAX - 2 * (n as i32) {
            return Err(TRCError::Internal);
        }
        let ghost t0 = self@;
        let mut out: Vec<Card> = Vec::new();
        let mut k: usize = 0;
        while k < n
            invariant
                self.wf(),
                n == items@.len(),
                0 <= k <= n,
                t0.room_for(2 * n as int),
                all_cards_allowed(t0, uid, items@),
                self@ == (Tables {
                    backs: self@.backs,
                    cards: self@.cards,
                    next_id: t0.next_id + 2 * k,
                    ..t0
                }),
                self@.backs.len() == t0.backs.len() + k,
                self@.cards.len() == t0.cards.len() + k,
                self@.backs.subrange(0, t0.backs.len() as int) == t0.backs,
                self@.cards.subrange(0, t0.cards.len() as int) == t0.cards,
                forall|j: int|
                    0 <= j < k ==> is_new_back(
                        t0,
                        #[trigger] self@.backs[t0.backs.len() + j],
                        items@[j],
                        t0.next_id + 2 * j,
                    ) && is_new_card(
                        self@.cards[t0.cards.len() + j],
                        items@[j],
                        t0.next_id + 2 * j + 1,
                        now,
                    ),
                out@ == self@.cards.subrange(t0.cards.len() as int, self@.cards.len() as int),
            decreases n - k,
        {
            assert(card_check(t0, uid, items@[k as int].deck).is_none());
            let (language, abbr) = match self.check_card_target(uid, items[k].deck) {
                Ok(found) => found,
                Err(e) => return Err(e),
            };
            let ghost before = self@;
            let card = self.write_card(items[k].duplicate(), language, &abbr, now);
            out.push(card.duplicate());
            assert forall|j: int| 0 <= j < k + 1 implies is_new_back(
                t0,
                #[trigger] self@.backs[t0.backs.len() + j],
                items@[j],
                t0.next_id + 2 * j,
            ) && is_new_card(
                self@.cards[t0.cards.len() + j],
                items@[j],
                t0.next_id + 2 * j + 1,
                now,
            ) by {
                if j < k {
                    assert(self@.backs[t0.backs.len() + j] == before.backs[t0.backs.len() + j]);
                    assert(self@.cards[t0.cards.len() + j] == before.cards[t0.cards.len() + j]);
                }
            }
            assert(self@.backs.subrange(0, t0.backs.len() as int) =~= t0.backs);
            assert(self@.cards.subrange(0, t0.cards.len() as int) =~= t0.cards);
            assert(out@ =~= self@.cards.subrange(t0.cards.len() as int, self@.cards.len() as int));
            k = k + 1;
        }
        Ok(out)
    }
}

/// Why `uid` may not change or remove card `id`, if it may not: the card and
/// its deck must exist and the deck must belong to `uid`.
pub open spec fn card_owner_check(t: Tables, uid: i32, id: i32) -> Option<TRCError> {
    if !t.card_found(id) {
        Some(TRCError::NotFound)
    } else if t.card_owner(id) != uid {
        Some(TRCError::Unauthorized)
    } else {
        None
    }
}

impl Store {
    /// Whether some score or set membership refers to the card.
    pub(crate) fn card_referenced(&self, card: i32) -> (r: bool)
        requires
            self.wf(),
        ensures
            r == card_in_use(self@, card),
    {
        let mut i: usize = 0;
        while i < self.scores.len()
            invariant
                0 <= i <= self.scores@.len(),
                forall|j: int| 0 <= j < i ==> (#[trigger] self.scores@[j]).card != card,
            decreases self.scores@.len() - i,
        {
            if self.scores[i].card == card {
                assert(self@.scores[i as int].card == card);
                return true;
            }
            i = i + 1;
        }
        let mut k: usize = 0;
        while k < self.set_cards.len()
            invariant
                0 <= k <= self.set_cards@.len(),
                forall|j: int| 0 <= j < self.scores@.len() ==> (#[trigger] self.scores@[j]).card != card,
                forall|j: int| 0 <= j < k ==> (#[trigger] self.set_cards@[j]).card_id != card,
            decreases self.set_cards@.len() - k,
        {
            if self.set_cards[k].card_id == card {
                assert(self@.set_cards[k as int].card_id == card);
                return true;
            }
            k = k + 1;
        }
        false
    }

    /// Changes the link of one of the caller's cards; everything else about
    /// the card stays.
    pub fn update_card(&mut self, caller: Option<i32>, change: CardChangeset) -> (r: Result<
        Card,
        TRCError,
    >)
        requires
            old(self).wf(),
        ensures
            final(self).wf(),
            caller.is_none() ==> r == Err::<Card, TRCError>(TRCError::Unauthorized),
            caller.is_some() && card_owner_check(old(self)@, caller.unwrap(), change.id).is_some()
                ==> r == Err::<Card, TRCError>(
                card_owner_check(old(self)@, caller.unwrap(), change.id).unwrap(),
            ),
            r.is_err() ==> final(self)@ == old(self)@,
            r.is_ok() <==> caller.is_some() && card_owner_check(
                old(self)@,
                caller.unwrap(),
                change.id,
            ).is_none(),
            r.is_ok() ==> r.unwrap() == (Card {
                link: changed_link(row_of(old(self)@.cards, change.id).link, change.link),
                ..row_of(old(self)@.cards, change.id)
            }) && final(self)@ == (Tables {
                cards: old(self)@.cards.update(index_of(old(self)@.cards, change.id), r.unwrap()),
                ..old(self)@
            }),
    {
        let uid = match caller {
            Some(uid) => uid,
            None => return Err(TRCError::Unauthorized),
        };
        let owner = match self.card_owner(change.id) {
            Ok(owner) => owner,
            Err(e) => return Err(e),
        };
        match authorize(caller, &vec![owner]) {
            Ok(_) => {},
            Err(e) => return Err(e),
        }
        let i = match find_row(&self.cards, change.id) {
            Some(i) => i,
            None => return Err(TRCError::NotFound),
        };
        let ghost t0 = self@;
        let current = self.cards[i].duplicate();
        let link = match change.link {
            Some(l) => l,
            None => current.link,
        };
        let card = Card { link, ..current };
        let copy = card.duplicate();
        proof {
            lemma_index_of_found(t0.cards, change.id);
            lemma_update_same_key(t0.cards, i as int, card, t0.next_id);
            let s = t0.cards.update(i as int, card);
            assert forall|a: int| 0 <= a < s.len() implies (#[trigger] s[a]).back == t0.cards[a].back
                && s[a].deck == t0.cards[a].deck by {}
        }
        self.cards.set(i, card);
        Ok(copy)
    }

    /// Removes one of the caller's cards together with its back. A card that
    /// does not exist counts zero; one that scores or sets still refer to is
    /// kept, with `Validation`.
    pub fn delete_card(&mut self, caller: Option<i32>, target: CardDeleteset) -> (r: Result<
        i32,
        TRCError,
    >)
        requires
            old(self).wf(),
        ensures
            final(self).wf(),
            caller.is_none() ==> r == Err::<i32, TRCError>(TRCError::Unauthorized),
            caller.is_some() && !has_id(old(self)@.cards, target.id) ==> r == Ok::<i32, TRCError>(
                0,
            ),
            caller.is_some() && has_id(old(self)@.cards, target.id) && card_owner_check(
                old(self)@,
                caller.unwrap(),
                target.id,
            ).is_some() ==> r == Err::<i32, TRCError>(
                card_owner_check(old(self)@, caller.unwrap(), target.id).unwrap(),
            ),
            caller.is_some() && card_owner_check(old(self)@, caller.unwrap(), target.id).is_none()
                && card_in_use(old(self)@, target.id) ==> r == Err::<i32, TRCError>(
                TRCError::Validation,
            ),
            caller.is_some() && card_owner_check(old(self)@, caller.unwrap(), target.id).is_none()
                && !card_in_use(old(self)@, target.id) ==> r == Ok::<i32, TRCError>(1),
            r != Ok::<i32, TRCError>(1) ==> final(self)@ == old(self)@,
            r == Ok::<i32, TRCError>(1) ==> final(self)@ == (Tables {
                cards: old(self)@.cards.remove(index_of(old(self)@.cards, target.id)),
                backs: old(self)@.backs.remove(
                    index_of(old(self)@.backs, row_of(old(self)@.cards, target.id).back),
                ),
                ..old(self)@
            }),
    {
        let uid = match caller {
            Some(uid) => uid,
            None => return Err(TRCError::Unauthorized),
        };
        let i = match find_row(&self.cards, target.id) {
            Some(i) => i,
            None => return Ok(0),
        };
        let owner = match self.deck_owner(self.cards[i].deck) {
            Ok(owner) => owner,
            Err(e) => return Err(e),
        };
        match authorize(caller, &vec![owner]) {
            Ok(_) => {},
            Err(e) => return Err(e),
        }
        if self.card_referenced(target.id) {
            return Err(TRCError::Validation);
        }
        let back = self.cards[i].back;
        let ghost t0 = self@;
        proof {
            lemma_index_of(self.cards@, i as int, target.id);
            lemma_remove(self.cards@, target.id, self.next_id as int);
            lemma_remove(self.backs@, back, self.next_id as int);
        }
        let count = remove_row(&mut self.cards, target.id);
        remove_row(&mut self.backs, back);
        proof {
            let k = i as int;
            assert forall|a: int| 0 <= a < self@.cards.len() implies (#[trigger] self@.cards[a]).back
                != back && has_id(self@.decks, self@.cards[a].deck) by {
                let aa = if a < k { a } else { a + 1 };
                assert(self@.cards[a] == t0.cards[aa]);
            }
            assert forall|a: int| 0 <= a < self@.scores.len() implies has_id(
                self@.cards,
                (#[trigger] self@.scores[a]).card,
            ) by {
                assert(t0.scores[a].card != target.id);
            }
            assert forall|a: int| 0 <= a < self@.set_cards.len() implies has_id(
                self@.cards,
                (#[trigger] self@.set_cards[a]).card_id,
            ) by {
                assert(t0.set_cards[a].card_id != target.id);
            }
        }
        Ok(count)
    }
}

/// `job` resolves the asset of `kind` for the back of `item`, in the
/// language of its deck.
pub open spec fn is_job_for(t: Tables, job: AssetJob, kind: AssetKind, item: NewCard) -> bool {
    &&& job.kind == kind
    &&& job.abbr@ == deck_abbr(t, item.deck)
    &&& job.word == item.back
    &&& job.key@ == sanitized_of(item.back@)
}

impl Store {
    /// The assets that adding these cards needs, audio then image for each
    /// item in order, once the caller is known to own every deck named.
    /// Nothing is written.
    pub fn card_assets(&self, caller: Option<i32>, items: &Vec<NewCard>) -> (r: Result<
        Vec<AssetJob>,
        TRCError,
    >)
        requires
            self.wf(),
        ensures
            caller.is_none() ==> r == Err::<Vec<AssetJob>, TRCError>(TRCError::Unauthorized),
            caller.is_some() && !all_cards_allowed(self@, caller.unwrap(), items@) ==> exists|
                i: int,
            |
                first_card_failure(self@, caller.unwrap(), items@, i) && r == Err::<
                    Vec<AssetJob>,
                    TRCError,
                >(card_check(self@, caller.unwrap(), items@[i].deck).unwrap()),
            r.is_ok() <==> caller.is_some() && all_cards_allowed(self@, caller.unwrap(), items@),
            r.is_ok() ==> r.unwrap()@.len() == 2 * items@.len() && forall|k: int|
                0 <= k < items@.len() ==> is_job_for(
                    self@,
                    #[trigger] r.unwrap()@[2 * k],
                    AssetKind::Audio,
                    items@[k],
                ) && is_job_for(self@, r.unwrap()@[2 * k + 1], AssetKind::Image, items@[k]),
    {
        let uid = match caller {
            Some(uid) => uid,
            None => return Err(TRCError::Unauthorized),
        };
        let n = items.len();
        let mut jobs: Vec<AssetJob> = Vec::new();
        let mut i: usize = 0;
        while i < n
            invariant
                self.wf(),
                caller == Some(uid),
                n == items@.len(),
                0 <= i <= n,
                forall|j: int| 0 <= j < i ==> (#[trigger] card_check(self@, uid, items@[j].deck)).is_none(),
                jobs@.len() == 2 * i,
                forall|k: int|
                    0 <= k < i ==> is_job_for(
                        self@,
                        #[trigger] jobs@[2 * k],
                        AssetKind::Audio,
                        items@[k],
                    ) && is_job_for(self@, jobs@[2 * k + 1], AssetKind::Image, items@[k]),
            decreases n - i,
        {
            let (_, abbr) = match self.check_card_target(uid, items[i].deck) {
                Ok(found) => found,
                Err(e) => {
                    assert(first_card_failure(self@, uid, items@, i as int));
                    return Err(e);
                },
            };
            let ghost before = jobs@;
            jobs.push(AssetJob::new(AssetKind::Audio, abbr.clone(), items[i].back.clone()));
            jobs.push(AssetJob::new(AssetKind::Image, abbr, items[i].back.clone()));
            assert forall|k: int| 0 <= k < i + 1 implies is_job_for(
                self@,
                #[trigger] jobs@[2 * k],
                AssetKind::Audio,
                items@[k],
            ) && is_job_for(self@, jobs@[2 * k + 1], AssetKind::Image, items@[k]) by {
                if k < i {
                    assert(jobs@[2 * k] == before[2 * k]);
                    assert(jobs@[2 * k + 1] == before[2 * k + 1]);
                }
            }
            i = i + 1;
        }
        let r: Result<Vec<AssetJob>, TRCError> = Ok(jobs);
        assert forall|k: int| 0 <= k < items@.len() implies is_job_for(
            self@,
            #[trigger] r.unwrap()@[2 * k],
            AssetKind::Audio,
            items@[k],
        ) && is_job_for(self@, r.unwrap()@[2 * k + 1], AssetKind::Image, items@[k]) by {
            assert(r.unwrap()@ == jobs@);
            assert(is_job_for(self@, jobs@[2 * k], AssetKind::Audio, items@[k]));
        }
        r
    }
}

} // verus!
