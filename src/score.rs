use vstd::prelude::*;

use crate::auth::authorize;
use crate::card::card_owner_check;
use crate::error::TRCError;
use crate::inputs::{NewScore, ScoreChangeset};
use crate::model::Score;
use crate::store::{Store, Tables};
use crate::table::{
    find_row, index_of, lemma_index_of_found, lemma_push_fresh, lemma_update_same_key,
    row_of,
};

verus! {

/// Why `uid` may not change score `id`, if it may not: the score, its card
/// and the card's deck must exist and the deck must belong to `uid`.
pub open spec fn score_owner_check(t: Tables, uid: i32, id: i32) -> Option<TRCError> {
    if !t.score_found(id) {
        Some(TRCError::NotFound)
    } else if t.score_owner(id) != uid {
        Some(TRCError::Unauthorized)
    } else {
        None
    }
}

/// The first item of a batch whose card `uid` may not study, if any.
pub open spec fn first_score_failure(t: Tables, uid: i32, items: Seq<NewScore>, i: int) -> bool {
    &&& 0 <= i < items.len()
    &&& card_owner_check(t, uid, items[i].card).is_some()
    &&& forall|j: int| 0 <= j < i ==> (#[trigger] card_owner_check(t, uid, items[j].card)).is_none()
}

/// Every item of a batch names a card of `uid`'s.
pub open spec fn all_scores_allowed(t: Tables, uid: i32, items: Seq<NewScore>) -> bool {
    forall|i: int|
        0 <= i < items.len() ==> (#[trigger] card_owner_check(t, uid, items[i].card)).is_none()
}

/// After a batch of scores, `t1` holds `t0` with one score per item
/// appended, all created at `now`, under keys counted up from `next_id`.
pub open spec fn scores_appended(t0: Tables, t1: Tables, items: Seq<NewScore>, now: i64) -> bool {
    &&& t1 == (Tables { scores: t1.scores, next_id: t0.next_id + items.len(), ..t0 })
    &&& t1.scores.len() == t0.scores.len() + items.len()
    &&& t1.scores.subrange(0, t0.scores.len() as int) == t0.scores
    &&& forall|k: int|
        0 <= k < items.len() ==> #[trigger] t1.scores[t0.scores.len() + k] == (Score {
            id: (t0.next_id + k) as i32,
            created_at: now,
            card: items[k].card,
            value: items[k].value,
        })
}

impl Store {
    /// Checks that `uid` owns card `card`, through its deck.
    fn check_card_owner(&self, uid: i32, card: i32) -> (r: Result<(), TRCError>)
        requires
            self.wf(),
        ensures
            card_owner_check(self@, uid, card).is_some() ==> r == Err::<(), TRCError>(
                card_owner_check(self@, uid, card).unwrap(),
            ),
            card_owner_check(self@, uid, card).is_none() ==> r.is_ok(),
    {
        match self.card_owner(card) {
            Ok(owner) => match authorize(Some(uid), &vec![owner]) {
                Ok(_) => Ok(()),
                Err(e) => Err(e),
            },
            Err(e) => Err(e),
        }
    }

    /// Records a study result for one of the caller's cards.
    pub fn create_score(&mut self, caller: Option<i32>, item: NewScore, now: i64) -> (r: Result<
        Score,
        TRCError,
    >)
        requires
            old(self).wf(),
        ensures
            final(self).wf(),
            caller.is_none() ==> r == Err::<Score, TRCError>(TRCError::Unauthorized),
            caller.is_some() && card_owner_check(old(self)@, caller.unwrap(), item.card).is_some()
                ==> r == Err::<Score, TRCError>(
                card_owner_check(old(self)@, caller.unwrap(), item.card).unwrap(),
            ),
            caller.is_some() && card_owner_check(old(self)@, caller.unwrap(), item.card).is_none()
                && !old(self)@.room_for(1) ==> r == Err::<Score, TRCError>(TRCError::Internal),
            r.is_err() ==> final(self)@ == old(self)@,
            r.is_ok() <==> caller.is_some() && card_owner_check(
                old(self)@,
                caller.unwrap(),
                item.card,
            ).is_none() && old(self)@.room_for(1),
            r.is_ok() ==> r.unwrap() == (Score {
                id: old(self)@.next_id as i32,
                created_at: now,
                card: item.card,
                value: item.value,
            }) && final(self)@ == (Tables {
                scores: old(self)@.scores.push(r.unwrap()),
                next_id: old(self)@.next_id + 1,
                ..old(self)@
            }),
    {
        let uid = match caller {
            Some(uid) => uid,
            None => return Err(TRCError::Unauthorized),
        };
        match self.check_card_owner(uid, item.card) {
            Ok(()) => {},
            Err(e) => return Err(e),
        }
        if self.next_id == i32::MAX {
            return Err(TRCError::Internal);
        }
        let score = Score { id: self.next_id, created_at: now, card: item.card, value: item.value };
        proof {
            lemma_push_fresh(self.scores@, score, self.next_id as int);
        }
        self.scores.push(score);
        self.next_id = self.next_id + 1;
        Ok(score)
    }

    /// Records a batch of study results, all or none: every card must be
    /// the caller's before any score is written. All share one creation time.
    pub fn create_scores(&mut self, caller: Option<i32>, items: &Vec<NewScore>, now: i64) -> (r:
        Result<Vec<Score>, TRCError>)
        requires
            old(self).wf(),
        ensures
            final(self).wf(),
            caller.is_none() ==> r == Err::<Vec<Score>, TRCError>(TRCError::Unauthorized),
            caller.is_some() && !all_scores_allowed(old(self)@, caller.unwrap(), items@) ==> exists|
                i: int,
            |
                first_score_failure(old(self)@, caller.unwrap(), items@, i) && r == Err::<
                    Vec<Score>,
                    TRCError,
                >(card_owner_check(old(self)@, caller.unwrap(), items@[i].card).unwrap()),
            caller.is_some() && all_scores_allowed(old(self)@, caller.unwrap(), items@) && !old(
                self,
            )@.room_for(items@.len() as int) ==> r == Err::<Vec<Score>, TRCError>(
                TRCError::Internal,
            ),
            r.is_err() ==> final(self)@ == old(self)@,
            r.is_ok() <==> caller.is_some() && all_scores_allowed(
                old(self)@,
                caller.unwrap(),
                items@,
            ) && old(self)@.room_for(items@.len() as int),
            r.is_ok() ==> scores_appended(old(self)@, final(self)@, items@, now) && r.unwrap()@
                == final(self)@.scores.subrange(
                old(self)@.scores.len() as int,
                final(self)@.scores.len() as int,
            ),
    {
        let uid = match caller {
            Some(uid) => uid,
            None => return Err(TRCError::Unauthorized),
        };
        let n = items.len();
        let mut i: usize = 0;
        while i < n
            invariant
                self.wf(),
                self@ == old(self)@,
                caller == Some(uid),
                n == items@.len(),
                0 <= i <= n,
                forall|j: int|
                    0 <= j < i ==> (#[trigger] card_owner_check(self@, uid, items@[j].card)).is_none(),
            decreases n - i,
        {
            match self.check_card_owner(uid, items[i].card) {
                Ok(()) => {},
                Err(e) => {
                    assert(first_score_failure(self@, uid, items@, i as int));
                    return Err(e);
                },
            }
            i = i + 1;
        }
        if n > i32::MAX as usize || self.next_id > i32::MAX - n as i32 {
            return Err(TRCError::Internal);
        }
        let ghost t0 = self@;
        let mut out: Vec<Score> = Vec::new();
        let mut k: usize = 0;
        while k < n
            invariant
                self.wf(),
                n == items@.len(),
                0 <= k <= n,
                t0.room_for(n as int),
                all_scores_allowed(t0, uid, items@),
                self@ == (Tables { scores: self@.scores, next_id: t0.next_id + k, ..t0 }),
                self@.scores.len() == t0.scores.len() + k,
                self@.scores.subrange(0, t0.scores.len() as int) == t0.scores,
                forall|j: int|
                    0 <= j < k ==> #[trigger] self@.scores[t0.scores.len() + j] == (Score {
                        id: (t0.next_id + j) as i32,
                        created_at: now,
                        card: items@[j].card,
                        value: items@[j].value,
                    }),
                out@ == self@.scores.subrange(t0.scores.len() as int, self@.scores.len() as int),
            decreases n - k,
        {
            let ghost before = self@;
            assert(card_owner_check(t0, uid, items@[k as int].card).is_none());
            let score = Score {
                id: self.next_id,
                created_at: now,
                card: items[k].card,
                value: items[k].value,
            };
            out.push(score);
            proof {
                lemma_push_fresh(self.scores@, score, self.next_id as int);
            }
            self.scores.push(score);
            self.next_id = self.next_id + 1;
            assert forall|j: int| 0 <= j < k + 1 implies #[trigger] self@.scores[t0.scores.len()
                + j] == (Score {
                id: (t0.next_id + j) as i32,
                created_at: now,
                card: items@[j].card,
                value: items@[j].value,
            }) by {
                if j < k {
                    assert(self@.scores[t0.scores.len() + j] == before.scores[t0.scores.len() + j]);
                }
            }
            assert(self@.scores.subrange(0, t0.scores.len() as int) =~= t0.scores);
            assert(out@ =~= self@.scores.subrange(
                t0.scores.len() as int,
                self@.scores.len() as int,
            ));
            k = k + 1;
        }
        Ok(out)
    }

    /// Changes the value of a score on one of the caller's cards.
    pub fn update_score(&mut self, caller: Option<i32>, change: ScoreChangeset) -> (r: Result<
        Score,
        TRCError,
    >)
        requires
            old(self).wf(),
        ensures
            final(self).wf(),
            caller.is_none() ==> r == Err::<Score, TRCError>(TRCError::Unauthorized),
            caller.is_some() && score_owner_check(old(self)@, caller.unwrap(), change.id).is_some()
                ==> r == Err::<Score, TRCError>(
                score_owner_check(old(self)@, caller.unwrap(), change.id).unwrap(),
            ),
            r.is_err() ==> final(self)@ == old(self)@,
            r.is_ok() <==> caller.is_some() && score_owner_check(
                old(self)@,
                caller.unwrap(),
                change.id,
            ).is_none(),
            r.is_ok() ==> r.unwrap() == (Score {
                value: change.value,
                ..row_of(old(self)@.scores, change.id)
            }) && final(self)@ == (Tables {
                scores: old(self)@.scores.update(index_of(old(self)@.scores, change.id), r.unwrap()),
                ..old(self)@
            }),
    {
        let uid = match caller {
            Some(uid) => uid,
            None => return Err(TRCError::Unauthorized),
        };
        let i = match find_row(&self.scores, change.id) {
            Some(i) => i,
            None => return Err(TRCError::NotFound),
        };
        match self.check_card_owner(uid, self.scores[i].card) {
            Ok(()) => {},
            Err(e) => return Err(e),
        }
        let score = Score { value: change.value, ..self.scores[i] };
        proof {
            lemma_index_of_found(self.scores@, change.id);
            lemma_update_same_key(self.scores@, i as int, score, self.next_id as int);
        }
        self.scores.set(i, score);
        Ok(score)
    }
}

} // verus!
