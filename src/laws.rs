use vstd::prelude::*;

use crate::assets::{asset_path, AssetJob};
use crate::card::{all_cards_allowed, card_check, card_owner_check, is_new_back, is_new_card};
use crate::credentials::bcrypt_accepts;
use crate::deck::deck_owner_check;
use crate::error::TRCError;
use crate::inputs::NewCard;
use crate::jwt::{issued_token, verified_claims, Claims, TokenError, LEEWAY_SECONDS};
use crate::model::{Back, Card, User};
use crate::score::score_owner_check;
use crate::set::set_owner_check;
use crate::store::{usernames_unique, Tables};
use crate::table::{has_id, index_of, lemma_index_of, lemma_index_of_found, lemma_remove, row_of};
use crate::user::{authenticates, user_named, username_taken, with_password};

verus! {

/// Nobody passes the ownership check on a deck, set, card or score of
/// another user's: updating or deleting it is refused with `Unauthorized`,
/// and a refused mutation leaves every row as it was.
pub proof fn law_foreign_rows_are_refused(t: Tables, owner: i32, other: i32, id: i32)
    requires
        owner != other,
    ensures
        has_id(t.decks, id) && row_of(t.decks, id).owner == owner ==> deck_owner_check(t, other, id)
            == Some(TRCError::Unauthorized),
        has_id(t.sets, id) && row_of(t.sets, id).owner == owner ==> set_owner_check(t, other, id)
            == Some(TRCError::Unauthorized),
        t.card_found(id) && t.card_owner(id) == owner ==> card_owner_check(t, other, id) == Some(
            TRCError::Unauthorized,
        ),
        t.score_found(id) && t.score_owner(id) == owner ==> score_owner_check(t, other, id) == Some(
            TRCError::Unauthorized,
        ),
{
}

/// A batch of cards in which one item names a deck of another user's is not
/// allowed as a whole, so creating it writes no row at all.
pub proof fn law_batch_with_foreign_deck_is_refused(
    t: Tables,
    uid: i32,
    items: Seq<NewCard>,
    k: int,
)
    requires
        0 <= k < items.len(),
        has_id(t.decks, items[k].deck),
        row_of(t.decks, items[k].deck).owner != uid,
    ensures
        !all_cards_allowed(t, uid, items),
{
    assert(card_check(t, uid, items[k].deck) == Some(TRCError::Unauthorized));
}

/// A set that was deleted is gone: deleting it once more finds nothing.
pub proof fn law_deleted_set_is_gone(t: Tables, id: i32)
    requires
        t.wf(),
        has_id(t.sets, id),
    ensures
        !has_id(t.sets.remove(index_of(t.sets, id)), id),
{
    lemma_remove(t.sets, id, t.next_id);
}

/// Reading back a card that was just created gives its deck, and its back
/// gives the text it was created with.
pub proof fn law_created_card_reads_back(t: Tables, b: Back, c: Card, item: NewCard, now: i64)
    requires
        t.wf(),
        t.room_for(2),
        is_new_back(t, b, item, t.next_id),
        is_new_card(c, item, t.next_id + 1, now),
    ensures
        ({
            let t1 = Tables {
                backs: t.backs.push(b),
                cards: t.cards.push(c),
                next_id: t.next_id + 2,
                ..t
            };
            &&& has_id(t1.cards, c.id)
            &&& row_of(t1.cards, c.id).deck == item.deck
            &&& has_id(t1.backs, row_of(t1.cards, c.id).back)
            &&& row_of(t1.backs, row_of(t1.cards, c.id).back).text == item.back
        }),
{
    let cards = t.cards.push(c);
    let backs = t.backs.push(b);
    crate::table::lemma_push_fresh(t.cards, c, t.next_id + 1);
    crate::table::lemma_push_fresh(t.backs, b, t.next_id);
    lemma_index_of(cards, t.cards.len() as int, c.id);
    lemma_index_of(backs, t.backs.len() as int, b.id);
}

/// After a password change, the new password logs the user in.
pub proof fn law_new_password_authenticates(
    t: Tables,
    uid: i32,
    password: Seq<char>,
    hash: String,
    now: i64,
)
    requires
        t.wf(),
        has_id(t.users, uid),
        bcrypt_accepts(password, hash@),
    ensures
        authenticates(with_password(t, uid, hash, now), row_of(t.users, uid).username@, password)
            == Some(uid),
{
    let i = index_of(t.users, uid);
    lemma_index_of_found(t.users, uid);
    let u = User { password: hash, updated_at: now, ..row_of(t.users, uid) };
    let users = t.users.update(i, u);
    assert(usernames_unique(users)) by {
        assert forall|a: int, b: int|
            0 <= a < users.len() && 0 <= b < users.len() && a != b implies (#[trigger] users[a]).username@
            != (#[trigger] users[b]).username@ by {
            assert(users[a].username == t.users[a].username);
            assert(users[b].username == t.users[b].username);
        }
    }
    assert(username_taken(users, users[i].username@));
    assert(user_named(users, users[i].username@) == users[i]) by {
        let j = choose|j: int|
            0 <= j < users.len() && (#[trigger] users[j]).username@ == users[i].username@;
        assert(users[j].username@ == users[i].username@);
    }
    assert(with_password(t, uid, hash, now).users == users);
}

/// An asset that is already cached is used as it is, and its path is the one
/// that the resolution which cached it wrote: two jobs for the same kind,
/// language and word name the same file.
pub proof fn law_cached_asset_path_is_stable(a: AssetJob, b: AssetJob)
    requires
        a.kind == b.kind,
        a.abbr@ == b.abbr@,
        a.word@ == b.word@,
        a.wf(),
        b.wf(),
    ensures
        asset_path(a.kind, a.abbr@, a.key@) == asset_path(b.kind, b.abbr@, b.key@),
{
}

/// A token issued for a user verifies to that user and expiry until a
/// minute past the expiry, and is refused as expired after that.
pub proof fn law_issued_token_verifies(
    token: Seq<char>,
    key: Seq<char>,
    user_id: i32,
    exp: i32,
    now: int,
)
    requires
        issued_token(token, key, user_id, exp),
    ensures
        now <= exp + LEEWAY_SECONDS ==> verified_claims(token, key, now) == Ok::<
            Claims,
            TokenError,
        >(Claims { user_id, exp }),
        now > exp + LEEWAY_SECONDS ==> verified_claims(token, key, now) == Err::<
            Claims,
            TokenError,
        >(TokenError::Expired),
{
}

} // verus!
