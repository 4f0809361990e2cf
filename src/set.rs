use vstd::prelude::*;

use crate::auth::authorize;
use crate::error::TRCError;
use crate::inputs::{NewSet, SetChangeset, SetDeleteset};
use crate::model::{CardSet, Keyed, SetCard};
use crate::store::{registered, Store, Tables};
use crate::table::{
    find_row, has_id, ids_below, ids_unique, index_of, lemma_index_of_found, lemma_push_fresh,
    lemma_remove, lemma_update_same_key, remove_row, row_of,
};

verus! {

/// The membership rows of a new set `set_id`, one per card, under keys
/// counted up from `first_id`.
pub open spec fn new_members(first_id: int, set_id: i32, cards: Seq<i32>) -> Seq<SetCard> {
    Seq::new(
        cards.len(),
        |j: int| SetCard { id: (first_id + j) as i32, card_id: cards[j], set_id },
    )
}

/// `t` after `uid` created the set `item` at `now`: the set row under the
/// next key, then one membership row per card under the keys after it.
pub open spec fn set_written(t: Tables, uid: i32, item: NewSet, now: i64) -> Tables {
    Tables {
        sets: t.sets.push(
            CardSet {
                id: t.next_id as i32,
                created_at: now,
                name: item.name,
                deck: item.deck,
                owner: uid,
            },
        ),
        set_cards: t.set_cards + new_members(t.next_id + 1, t.next_id as i32, item.cards@),
        next_id: t.next_id + 1 + item.cards@.len(),
        ..t
    }
}

/// `t` after `uid` created the sets `items`, in order, at `now`.
pub open spec fn sets_written(t: Tables, uid: i32, items: Seq<NewSet>, now: i64) -> Tables
    decreases items.len(),
{
    if items.len() == 0 {
        t
    } else {
        set_written(sets_written(t, uid, items.drop_last(), now), uid, items.last(), now)
    }
}

/// How many rows creating the sets `items` writes.
pub open spec fn rows_needed(items: Seq<NewSet>) -> int
    decreases items.len(),
{
    if items.len() == 0 {
        0
    } else {
        rows_needed(items.drop_last()) + 1 + items.last().cards@.len()
    }
}

/// The deck and every card that the new set names exist.
pub open spec fn set_refs_found(t: Tables, item: NewSet) -> bool {
    &&& has_id(t.decks, item.deck)
    &&& forall|j: int| 0 <= j < item.cards@.len() ==> has_id(t.cards, #[trigger] item.cards@[j])
}

/// Why `uid` may not change or remove set `id`, if it may not.
pub open spec fn set_owner_check(t: Tables, uid: i32, id: i32) -> Option<TRCError> {
    if !has_id(t.sets, id) {
        Some(TRCError::NotFound)
    } else if row_of(t.sets, id).owner != uid {
        Some(TRCError::Unauthorized)
    } else {
        None
    }
}

/// Membership rows that do not belong to set `id`.
pub open spec fn not_in_set(id: i32) -> spec_fn(SetCard) -> bool {
    |sc: SetCard| sc.set_id != id
}

proof fn lemma_rows_needed_grows(items: Seq<NewSet>, k: int)
    requires
        0 <= k <= items.len(),
    ensures
        rows_needed(items.subrange(0, k)) <= rows_needed(items),
        0 <= rows_needed(items.subrange(0, k)),
    decreases items.len(),
{
    if items.len() > 0 {
        if k == items.len() {
            assert(items.subrange(0, k) =~= items);
            lemma_rows_needed_grows(items.drop_last(), items.len() - 1);
            assert(items.drop_last().subrange(0, items.len() - 1) =~= items.drop_last());
        } else {
            lemma_rows_needed_grows(items.drop_last(), k);
            assert(items.drop_last().subrange(0, k) =~= items.subrange(0, k));
        }
    } else {
        assert(items.subrange(0, k) =~= items);
    }
}

impl Store {
    /// Whether the deck and every card that the new set names exist.
    fn set_refs_present(&self, item: &NewSet) -> (r: bool)
        requires
            self.wf(),
        ensures
            r == set_refs_found(self@, *item),
    {
        if find_row(&self.decks, item.deck).is_none() {
            return false;
        }
        let mut j: usize = 0;
        while j < item.cards.len()
            invariant
                self.wf(),
                0 <= j <= item.cards@.len(),
                forall|a: int| 0 <= a < j ==> has_id(self@.cards, #[trigger] item.cards@[a]),
            decreases item.cards@.len() - j,
        {
            if find_row(&self.cards, item.cards[j]).is_none() {
                return false;
            }
            j = j + 1;
        }
        true
    }

    /// Writes a set and its membership rows; all checks have passed.
    fn write_set(&mut self, uid: i32, item: &NewSet, now: i64) -> (r: CardSet)
        requires
            old(self).wf(),
            old(self)@.room_for(1 + item.cards@.len() as int),
            set_refs_found(old(self)@, *item),
            has_id(old(self)@.users, uid),
        ensures
            final(self).wf(),
            final(self)@ == set_written(old(self)@, uid, *item, now),
            r == final(self)@.sets.last(),
    {
        let ghost t0 = self@;
        let set_id = self.next_id;
        let set = CardSet {
            id: set_id,
            created_at: now,
            name: item.name.clone(),
            deck: item.deck,
            owner: uid,
        };
        let copy = set.duplicate();
        proof {
            lemma_push_fresh(self.sets@, set, set_id as int);
        }
        self.sets.push(set);
        self.next_id = self.next_id + 1;
        let ghost t1 = self@;
        let m = item.cards.len();
        let mut j: usize = 0;
        while j < m
            invariant
                self.wf(),
                m == item.cards@.len(),
                0 <= j <= m,
                t1.next_id == set_id + 1,
                set_id == t0.next_id,
                has_id(t1.sets, set_id),
                t1.cards == t0.cards,
                set_refs_found(t0, *item),
                t0.room_for(1 + m as int),
                self@ == (Tables {
                    set_cards: t1.set_cards + new_members(
                        t1.next_id,
                        set_id,
                        item.cards@.subrange(0, j as int),
                    ),
                    next_id: t1.next_id + j,
                    ..t1
                }),
            decreases m - j,
        {
            let sc = SetCard { id: self.next_id, card_id: item.cards[j], set_id };
            proof {
                lemma_push_fresh(self.set_cards@, sc, self.next_id as int);
            }
            self.set_cards.push(sc);
            self.next_id = self.next_id + 1;
            assert(new_members(t1.next_id, set_id, item.cards@.subrange(0, j + 1)) =~= new_members(
                t1.next_id,
                set_id,
                item.cards@.subrange(0, j as int),
            ).push(sc));
            assert(t1.set_cards + new_members(t1.next_id, set_id, item.cards@.subrange(0, j + 1))
                =~= (t1.set_cards + new_members(
                t1.next_id,
                set_id,
                item.cards@.subrange(0, j as int),
            )).push(sc));
            j = j + 1;
        }
        assert(item.cards@.subrange(0, m as int) =~= item.cards@);
        copy
    }

    /// Creates a set owned by the caller, with one membership row per card.
    pub fn create_set(&mut self, caller: Option<i32>, item: NewSet, now: i64) -> (r: Result<
        CardSet,
        TRCError,
    >)
        requires
            old(self).wf(),
        ensures
            final(self).wf(),
            !registered(old(self)@, caller) ==> r == Err::<CardSet, TRCError>(TRCError::Unauthorized),
            registered(old(self)@, caller) && !set_refs_found(old(self)@, item) ==> r == Err::<
                CardSet,
                TRCError,
            >(TRCError::NotFound),
            registered(old(self)@, caller) && set_refs_found(old(self)@, item) && !old(self)@.room_for(
                1 + item.cards@.len() as int,
            ) ==> r == Err::<CardSet, TRCError>(TRCError::Internal),
            r.is_err() ==> final(self)@ == old(self)@,
            r.is_ok() <==> registered(old(self)@, caller) && set_refs_found(old(self)@, item) && old(
                self,
            )@.room_for(1 + item.cards@.len() as int),
            r.is_ok() ==> final(self)@ == set_written(old(self)@, caller.unwrap(), item, now)
                && r.unwrap() == final(self)@.sets.last(),
    {
        let uid = match self.registered_caller(caller) {
            Ok(uid) => uid,
            Err(e) => return Err(e),
        };
        if !self.set_refs_present(&item) {
            return Err(TRCError::NotFound);
        }
        let m = item.cards.len();
        if m >= i32::MAX as usize || self.next_id > i32::MAX - 1 - m as i32 {
            return Err(TRCError::Internal);
        }
        Ok(self.write_set(uid, &item, now))
    }

    /// Creates a batch of sets owned by the caller, all or none: every deck
    /// and card named must exist before any row is written.
    pub fn create_sets(&mut self, caller: Option<i32>, items: &Vec<NewSet>, now: i64) -> (r:
        Result<Vec<CardSet>, TRCError>)
        requires
            old(self).wf(),
        ensures
            final(self).wf(),
            !registered(old(self)@, caller) ==> r == Err::<Vec<CardSet>, TRCError>(TRCError::Unauthorized),
            registered(old(self)@, caller) && (exists|i: int|
                0 <= i < items@.len() && !set_refs_found(old(self)@, #[trigger] items@[i])) ==> r
                == Err::<Vec<CardSet>, TRCError>(TRCError::NotFound),
            registered(old(self)@, caller) && (forall|i: int|
                0 <= i < items@.len() ==> set_refs_found(old(self)@, #[trigger] items@[i])) && !old(
                self,
            )@.room_for(rows_needed(items@)) ==> r == Err::<Vec<CardSet>, TRCError>(
                TRCError::Internal,
            ),
            r.is_err() ==> final(self)@ == old(self)@,
            r.is_ok() <==> registered(old(self)@, caller) && old(self)@.room_for(rows_needed(items@)) && (forall|
                i: int,
            |
                0 <= i < items@.len() ==> set_refs_found(old(self)@, #[trigger] items@[i])),
            r.is_ok() ==> final(self)@ == sets_written(old(self)@, caller.unwrap(), items@, now)
                && r.unwrap()@ == final(self)@.sets.subrange(
                old(self)@.sets.len() as int,
                final(self)@.sets.len() as int,
            ),
    {
        let uid = match self.registered_caller(caller) {
            Ok(uid) => uid,
            Err(e) => return Err(e),
        };
        let n = items.len();
        let mut i: usize = 0;
        while i < n
            invariant
                self.wf(),
                self@ == old(self)@,
                caller == Some(uid),
                has_id(self@.users, uid),
                n == items@.len(),
                0 <= i <= n,
                forall|j: int| 0 <= j < i ==> set_refs_found(self@, #[trigger] items@[j]),
            decreases n - i,
        {
            if !self.set_refs_present(&items[i]) {
                return Err(TRCError::NotFound);
            }
            i = i + 1;
        }
        let mut needed: i64 = 0;
        let mut h: usize = 0;
        while h < n
            invariant
                self.wf(),
                self@ == old(self)@,
                caller == Some(uid),
                has_id(self@.users, uid),
                n == items@.len(),
                0 <= h <= n,
                forall|j: int| 0 <= j < n ==> set_refs_found(self@, #[trigger] items@[j]),
                needed == rows_needed(items@.subrange(0, h as int)),
                0 <= needed <= i32::MAX,
            decreases n - h,
        {
            let m = items[h].cards.len();
            assert(items@.subrange(0, h + 1).drop_last() =~= items@.subrange(0, h as int));
            if m >= i32::MAX as usize || needed + 1 + m as i64 > i32::MAX as i64 {
                proof {
                    lemma_rows_needed_grows(items@, h + 1);
                }
                return Err(TRCError::Internal);
            }
            needed = needed + 1 + m as i64;
            h = h + 1;
        }
        assert(items@.subrange(0, n as int) =~= items@);
        if self.next_id as i64 > i32::MAX as i64 - needed {
            return Err(TRCError::Internal);
        }
        let ghost t0 = self@;
        let mut out: Vec<CardSet> = Vec::new();
        let mut k: usize = 0;
        while k < n
            invariant
                self.wf(),
                n == items@.len(),
                0 <= k <= n,
                t0.room_for(rows_needed(items@)),
                forall|j: int| 0 <= j < n ==> set_refs_found(t0, #[trigger] items@[j]),
                has_id(t0.users, uid),
                self@.users == t0.users,
                self@.cards == t0.cards,
                self@.decks == t0.decks,
                self@ == sets_written(t0, uid, items@.subrange(0, k as int), now),
                self@.next_id == t0.next_id + rows_needed(items@.subrange(0, k as int)),
                self@.sets.len() == t0.sets.len() + k,
                self@.sets.subrange(0, t0.sets.len() as int) == t0.sets,
                out@ == self@.sets.subrange(t0.sets.len() as int, self@.sets.len() as int),
            decreases n - k,
        {
            proof {
                lemma_rows_needed_grows(items@, k + 1);
                assert(items@.subrange(0, k + 1).drop_last() =~= items@.subrange(0, k as int));
            }
            let set = self.write_set(uid, &items[k], now);
            out.push(set);
            assert(self@.sets.subrange(0, t0.sets.len() as int) =~= t0.sets);
            assert(out@ =~= self@.sets.subrange(t0.sets.len() as int, self@.sets.len() as int));
            k = k + 1;
        }
        assert(items@.subrange(0, n as int) =~= items@);
        Ok(out)
    }

    /// Renames one of the caller's sets.
    pub fn update_set(&mut self, caller: Option<i32>, change: SetChangeset) -> (r: Result<
        CardSet,
        TRCError,
    >)
        requires
            old(self).wf(),
        ensures
            final(self).wf(),
            caller.is_none() ==> r == Err::<CardSet, TRCError>(TRCError::Unauthorized),
            caller.is_some() && set_owner_check(old(self)@, caller.unwrap(), change.id).is_some()
                ==> r == Err::<CardSet, TRCError>(
                set_owner_check(old(self)@, caller.unwrap(), change.id).unwrap(),
            ),
            r.is_err() ==> final(self)@ == old(self)@,
            r.is_ok() <==> caller.is_some() && set_owner_check(
                old(self)@,
                caller.unwrap(),
                change.id,
            ).is_none(),
            r.is_ok() ==> r.unwrap() == (CardSet {
                name: change.name,
                ..row_of(old(self)@.sets, change.id)
            }) && final(self)@ == (Tables {
                sets: old(self)@.sets.update(index_of(old(self)@.sets, change.id), r.unwrap()),
                ..old(self)@
            }),
    {
        let uid = match caller {
            Some(uid) => uid,
            None => return Err(TRCError::Unauthorized),
        };
        let i = match find_row(&self.sets, change.id) {
            Some(i) => i,
            None => return Err(TRCError::NotFound),
        };
        match authorize(caller, &vec![self.sets[i].owner]) {
            Ok(_) => {},
            Err(e) => return Err(e),
        }
        let set = CardSet { name: change.name, ..self.sets[i].duplicate() };
        let copy = set.duplicate();
        proof {
            lemma_index_of_found(self.sets@, change.id);
            lemma_update_same_key(self.sets@, i as int, set, self.next_id as int);
        }
        self.sets.set(i, set);
        Ok(copy)
    }

    /// Removes one of the caller's sets together with its membership rows.
    /// A set that does not exist counts zero.
    pub fn delete_set(&mut self, caller: Option<i32>, target: SetDeleteset) -> (r: Result<
        i32,
        TRCError,
    >)
        requires
            old(self).wf(),
        ensures
            final(self).wf(),
            caller.is_none() ==> r == Err::<i32, TRCError>(TRCError::Unauthorized),
            caller.is_some() && !has_id(old(self)@.sets, target.id) ==> r == Ok::<i32, TRCError>(
                0,
            ),
            caller.is_some() && has_id(old(self)@.sets, target.id) && row_of(
                old(self)@.sets,
                target.id,
            ).owner != caller.unwrap() ==> r == Err::<i32, TRCError>(TRCError::Unauthorized),
            caller.is_some() && set_owner_check(old(self)@, caller.unwrap(), target.id).is_none()
                ==> r == Ok::<i32, TRCError>(1),
            r != Ok::<i32, TRCError>(1) ==> final(self)@ == old(self)@,
            r == Ok::<i32, TRCError>(1) ==> final(self)@ == (Tables {
                sets: old(self)@.sets.remove(index_of(old(self)@.sets, target.id)),
                set_cards: old(self)@.set_cards.filter(not_in_set(target.id)),
                ..old(self)@
            }),
    {
        let uid = match caller {
            Some(uid) => uid,
            None => return Err(TRCError::Unauthorized),
        };
        let i = match find_row(&self.sets, target.id) {
            Some(i) => i,
            None => return Ok(0),
        };
        match authorize(caller, &vec![self.sets[i].owner]) {
            Ok(_) => {},
            Err(e) => return Err(e),
        }
        let ghost t0 = self@;
        let ghost old_members = self.set_cards@;
        let mut kept: Vec<SetCard> = Vec::new();
        let mut j: usize = 0;
        while j < self.set_cards.len()
            invariant
                self.wf(),
                self@ == t0,
                self.set_cards@ == old_members,
                forall|a: int| 0 <= a < kept@.len() ==> (#[trigger] kept@[a]).set_id != target.id,
                0 <= j <= old_members.len(),
                kept@ == old_members.subrange(0, j as int).filter(not_in_set(target.id)),
                ids_unique(kept@),
                ids_below(kept@, self.next_id as int),
                forall|a: int|
                    0 <= a < kept@.len() ==> exists|b: int|
                        0 <= b < j && old_members[b] == #[trigger] kept@[a],
            decreases old_members.len() - j,
        {
            let sc = self.set_cards[j];
            proof {
                reveal(Seq::filter);
                assert(old_members.subrange(0, j + 1).drop_last() =~= old_members.subrange(
                    0,
                    j as int,
                ));
            }
            if sc.set_id != target.id {
                proof {
                    let k2 = kept@.push(sc);
                    assert forall|a: int, b: int|
                        0 <= a < k2.len() && 0 <= b < k2.len() && a != b implies #[trigger] k2[a].key()
                        != #[trigger] k2[b].key() by {
                        if a < kept@.len() && b < kept@.len() {
                            assert(k2[a] == kept@[a]);
                            assert(k2[b] == kept@[b]);
                        } else if a < kept@.len() {
                            assert(k2[a] == kept@[a]);
                            let x = choose|x: int| 0 <= x < j && old_members[x] == kept@[a];
                            assert(old_members[x].key() != old_members[j as int].key());
                        } else if b < kept@.len() {
                            assert(k2[b] == kept@[b]);
                            let x = choose|x: int| 0 <= x < j && old_members[x] == kept@[b];
                            assert(old_members[x].key() != old_members[j as int].key());
                        }
                    }
                    assert forall|a: int| 0 <= a < k2.len() implies 1 <= #[trigger] k2[a].key()
                        < self.next_id by {
                        if a < kept@.len() {
                            assert(k2[a] == kept@[a]);
                        }
                    }
                    assert forall|a: int| 0 <= a < k2.len() implies exists|b: int|
                        0 <= b < j + 1 && old_members[b] == #[trigger] k2[a] by {
                        if a < kept@.len() {
                            assert(k2[a] == kept@[a]);
                            let x = choose|x: int| 0 <= x < j && old_members[x] == kept@[a];
                            assert(old_members[x] == k2[a]);
                        } else {
                            assert(old_members[j as int] == k2[a]);
                        }
                    }
                }
                kept.push(sc);
            }
            j = j + 1;
        }
        proof {
            assert(old_members.subrange(0, old_members.len() as int) =~= old_members);
            lemma_remove(self.sets@, target.id, self.next_id as int);
        }
        let count = remove_row(&mut self.sets, target.id);
        self.set_cards = kept;
        proof {
            assert forall|a: int| 0 <= a < self@.set_cards.len() implies has_id(
                self@.cards,
                (#[trigger] self@.set_cards[a]).card_id,
            ) && has_id(self@.sets, self@.set_cards[a].set_id) by {
                let b = choose|b: int| 0 <= b < old_members.len() && old_members[b] == kept@[a];
                assert(t0.set_cards[b] == kept@[a]);
            }
        }
        Ok(count)
    }
}

} // verus!
