use vstd::prelude::*;

use crate::auth::authorize;
use crate::credentials::{bcrypt_accepts, hash_password, password_matches};
use crate::error::TRCError;
use crate::inputs::{NewUser, UserChangeset, UserDeleteset};
use crate::jwt::{encode_jwt, expiry_fits, expiry_of, issued_token, LoginAttempt, SecretKey, TOKEN_DAYS};
use crate::model::User;
use crate::store::{usernames_unique, Store, Tables};
use crate::table::{
    find_row, has_id, index_of, lemma_index_of_found, lemma_push_fresh,
    lemma_remove, lemma_update_same_key, remove_row, row_of,
};
use crate::text::same_text;

verus! {

/// Some user already has this username.
pub open spec fn username_taken(users: Seq<User>, name: Seq<char>) -> bool {
    exists|i: int| 0 <= i < users.len() && (#[trigger] users[i]).username@ == name
}

/// The user with this username (meaningful when it is taken).
pub open spec fn user_named(users: Seq<User>, name: Seq<char>) -> User {
    users[choose|i: int| 0 <= i < users.len() && (#[trigger] users[i]).username@ == name]
}

/// Who logs in with this username and password, if anyone: the user of
/// that name, when bcrypt accepts the password against the stored hash.
pub open spec fn authenticates(t: Tables, name: Seq<char>, password: Seq<char>) -> Option<i32> {
    if username_taken(t.users, name) && bcrypt_accepts(password, user_named(t.users, name).password@) {
        Some(user_named(t.users, name).id)
    } else {
        None
    }
}

/// `t` after user `uid`'s password hash became `hash` at `now`.
pub open spec fn with_password(t: Tables, uid: i32, hash: String, now: i64) -> Tables {
    Tables {
        users: t.users.update(
            index_of(t.users, uid),
            User { password: hash, updated_at: now, ..row_of(t.users, uid) },
        ),
        ..t
    }
}

/// Some deck or set still belongs to the user.
pub open spec fn user_in_use(t: Tables, uid: i32) -> bool {
    (exists|i: int| 0 <= i < t.decks.len() && #[trigger] t.decks[i].owner == uid) || (exists|
        i: int,
    |
        0 <= i < t.sets.len() && #[trigger] t.sets[i].owner == uid)
}

/// The usernames of a batch are new: none is taken and no two are equal.
pub open spec fn usernames_fresh(t: Tables, items: Seq<NewUser>) -> bool {
    &&& forall|i: int| 0 <= i < items.len() ==> !username_taken(t.users, #[trigger] items[i].username@)
    &&& forall|i: int, j: int|
        0 <= i < j < items.len() ==> (#[trigger] items[i]).username@ != (#[trigger] items[j]).username@
}

/// `u` is the account registered for `item` under key `id` at `now`.
pub open spec fn is_new_user(u: User, item: NewUser, id: int, now: i64) -> bool {
    &&& u.id == id
    &&& u.username == item.username
    &&& bcrypt_accepts(item.password@, u.password@)
    &&& u.created_at == now
    &&& u.updated_at == now
}

/// After a batch of registrations, `t1` holds `t0` with one user per item
/// appended under keys counted up from `next_id`.
pub open spec fn users_appended(t0: Tables, t1: Tables, items: Seq<NewUser>, now: i64) -> bool {
    &&& t1 == (Tables { users: t1.users, next_id: t0.next_id + items.len(), ..t0 })
    &&& t1.users.len() == t0.users.len() + items.len()
    &&& t1.users.subrange(0, t0.users.len() as int) == t0.users
    &&& forall|k: int|
        0 <= k < items.len() ==> is_new_user(
            #[trigger] t1.users[t0.users.len() + k],
            items[k],
            t0.next_id + k,
            now,
        )
}

proof fn lemma_push_user(users: Seq<User>, u: User)
    requires
        usernames_unique(users),
        !username_taken(users, u.username@),
    ensures
        usernames_unique(users.push(u)),
{
    let s = users.push(u);
    assert forall|i: int, j: int|
        0 <= i < s.len() && 0 <= j < s.len() && i != j implies (#[trigger] s[i]).username@
        != (#[trigger] s[j]).username@ by {
        if i < users.len() {
            assert(s[i] == users[i]);
        }
        if j < users.len() {
            assert(s[j] == users[j]);
        }
    }
}

proof fn lemma_user_named(users: Seq<User>, i: int)
    requires
        usernames_unique(users),
        0 <= i < users.len(),
    ensures
        username_taken(users, users[i].username@),
        user_named(users, users[i].username@) == users[i],
{
    assert(username_taken(users, users[i].username@));
}

impl Store {
    /// Where the user with this username stands.
    fn find_username(&self, name: &str) -> (r: Option<usize>)
        requires
            self.wf(),
        ensures
            r.is_some() <==> username_taken(self@.users, name@),
            r.is_some() ==> r.unwrap() < self@.users.len() && self@.users[r.unwrap() as int]
                == user_named(self@.users, name@),
    {
        let mut i: usize = 0;
        while i < self.users.len()
            invariant
                self.wf(),
                0 <= i <= self@.users.len(),
                forall|k: int| 0 <= k < i ==> (#[trigger] self@.users[k]).username@ != name@,
            decreases self@.users.len() - i,
        {
            if same_text(self.users[i].username.as_str(), name) {
                proof {
                    lemma_user_named(self@.users, i as int);
                }
                return Some(i);
            }
            i = i + 1;
        }
        None
    }

    /// Whether some deck or set belongs to the user.
    fn user_referenced(&self, uid: i32) -> (r: bool)
        requires
            self.wf(),
        ensures
            r == user_in_use(self@, uid),
    {
        let mut i: usize = 0;
        while i < self.decks.len()
            invariant
                0 <= i <= self.decks@.len(),
                forall|j: int| 0 <= j < i ==> (#[trigger] self.decks@[j]).owner != uid,
            decreases self.decks@.len() - i,
        {
            if self.decks[i].owner == uid {
                assert(self@.decks[i as int].owner == uid);
                return true;
            }
            i = i + 1;
        }
        let mut k: usize = 0;
        while k < self.sets.len()
            invariant
                0 <= k <= self.sets@.len(),
                forall|j: int| 0 <= j < self.decks@.len() ==> (#[trigger] self.decks@[j]).owner != uid,
                forall|j: int| 0 <= j < k ==> (#[trigger] self.sets@[j]).owner != uid,
            decreases self.sets@.len() - k,
        {
            if self.sets[k].owner == uid {
                assert(self@.sets[k as int].owner == uid);
                return true;
            }
            k = k + 1;
        }
        false
    }

    /// Registers a user; anyone may. The password is stored only as a salted
    /// hash, and both timestamps are `now`.
    pub fn create_user(&mut self, item: NewUser, now: i64) -> (r: Result<User, TRCError>)
        requires
            old(self).wf(),
        ensures
            final(self).wf(),
            username_taken(old(self)@.users, item.username@) ==> r == Err::<User, TRCError>(
                TRCError::Validation,
            ),
            !username_taken(old(self)@.users, item.username@) && !old(self)@.room_for(1) ==> r
                == Err::<User, TRCError>(TRCError::Internal),
            r.is_err() ==> final(self)@ == old(self)@,
            r.is_err() ==> r == Err::<User, TRCError>(TRCError::Validation) || (!username_taken(
                old(self)@.users,
                item.username@,
            ) && r == Err::<User, TRCError>(TRCError::Internal)),
            r.is_ok() ==> !username_taken(old(self)@.users, item.username@) && old(self)@.room_for(
                1,
            ),
            r.is_ok() ==> is_new_user(r.unwrap(), item, old(self)@.next_id, now) && final(self)@
                == (Tables {
                users: old(self)@.users.push(r.unwrap()),
                next_id: old(self)@.next_id + 1,
                ..old(self)@
            }),
    {
        if self.find_username(item.username.as_str()).is_some() {
            return Err(TRCError::Validation);
        }
        if self.next_id == i32::MAX {
            return Err(TRCError::Internal);
        }
        let hash = match hash_password(item.password.as_str()) {
            Some(h) => h,
            None => return Err(TRCError::Internal),
        };
        self.register_with_hash(item.username, hash, now)
    }

    /// Registers a user whose password hash is already known, as when a
    /// journal of earlier registrations is replayed. Both timestamps are
    /// `now`.
    pub fn register_with_hash(&mut self, username: String, hash: String, now: i64) -> (r: Result<
        User,
        TRCError,
    >)
        requires
            old(self).wf(),
        ensures
            final(self).wf(),
            username_taken(old(self)@.users, username@) ==> r == Err::<User, TRCError>(
                TRCError::Validation,
            ),
            !username_taken(old(self)@.users, username@) && !old(self)@.room_for(1) ==> r == Err::<
                User,
                TRCError,
            >(TRCError::Internal),
            r.is_err() ==> final(self)@ == old(self)@,
            r.is_ok() <==> !username_taken(old(self)@.users, username@) && old(self)@.room_for(1),
            r.is_ok() ==> r.unwrap() == (User {
                id: old(self)@.next_id as i32,
                username,
                password: hash,
                created_at: now,
                updated_at: now,
            }) && final(self)@ == (Tables {
                users: old(self)@.users.push(r.unwrap()),
                next_id: old(self)@.next_id + 1,
                ..old(self)@
            }),
    {
        if self.find_username(username.as_str()).is_some() {
            return Err(TRCError::Validation);
        }
        if self.next_id == i32::MAX {
            return Err(TRCError::Internal);
        }
        let user = User {
            id: self.next_id,
            username,
            password: hash,
            created_at: now,
            updated_at: now,
        };
        let copy = user.duplicate();
        proof {
            lemma_push_fresh(self.users@, user, self.next_id as int);
            lemma_push_user(self.users@, user);
        }
        self.users.push(user);
        self.next_id = self.next_id + 1;
        Ok(copy)
    }

    /// Whether some earlier item of the batch has the username of item `i`.
    fn name_repeated(items: &Vec<NewUser>, i: usize) -> (r: bool)
        requires
            i < items@.len(),
        ensures
            r == exists|j: int| 0 <= j < i && (#[trigger] items@[j]).username@ == items@[i as int].username@,
    {
        let mut j: usize = 0;
        while j < i
            invariant
                i < items@.len(),
                0 <= j <= i,
                forall|k: int| 0 <= k < j ==> (#[trigger] items@[k]).username@ != items@[i as int].username@,
            decreases i - j,
        {
            if items[j].username == items[i].username {
                return true;
            }
            j = j + 1;
        }
        false
    }

    /// Registers a batch of users, all or none: no username may be taken or
    /// repeated, and every password must hash. Each password is hashed on
    /// its own.
    pub fn create_users(&mut self, items: &Vec<NewUser>, now: i64) -> (r: Result<
        Vec<User>,
        TRCError,
    >)
        requires
            old(self).wf(),
        ensures
            final(self).wf(),
            !usernames_fresh(old(self)@, items@) ==> r == Err::<Vec<User>, TRCError>(
                TRCError::Validation,
            ),
            usernames_fresh(old(self)@, items@) && !old(self)@.room_for(items@.len() as int) ==> r
                == Err::<Vec<User>, TRCError>(TRCError::Internal),
            r.is_err() ==> final(self)@ == old(self)@,
            r.is_err() ==> r == Err::<Vec<User>, TRCError>(TRCError::Validation) || (
            usernames_fresh(old(self)@, items@) && r == Err::<Vec<User>, TRCError>(
                TRCError::Internal,
            )),
            r.is_ok() ==> usernames_fresh(old(self)@, items@) && old(self)@.room_for(
                items@.len() as int,
            ),
            r.is_ok() ==> users_appended(old(self)@, final(self)@, items@, now) && r.unwrap()@
                == final(self)@.users.subrange(
                old(self)@.users.len() as int,
                final(self)@.users.len() as int,
            ),
    {
        let n = items.len();
        let mut i: usize = 0;
        while i < n
            invariant
                self.wf(),
                self@ == old(self)@,
                n == items@.len(),
                0 <= i <= n,
                forall|k: int| 0 <= k < i ==> !username_taken(self@.users, #[trigger] items@[k].username@),
                forall|a: int, b: int|
                    0 <= a < b < i ==> (#[trigger] items@[a]).username@ != (#[trigger] items@[b]).username@,
            decreases n - i,
        {
            if self.find_username(items[i].username.as_str()).is_some() {
                return Err(TRCError::Validation);
            }
            if Self::name_repeated(items, i) {
                return Err(TRCError::Validation);
            }
            i = i + 1;
        }
        if n > i32::MAX as usize || self.next_id > i32::MAX - n as i32 {
            return Err(TRCError::Internal);
        }
        let mut hashes: Vec<String> = Vec::new();
        let mut h: usize = 0;
        while h < n
            invariant
                self.wf(),
                self@ == old(self)@,
                usernames_fresh(self@, items@),
                n == items@.len(),
                0 <= h <= n,
                hashes@.len() == h,
                forall|k: int| 0 <= k < h ==> bcrypt_accepts(items@[k].password@, #[trigger] hashes@[k]@),
            decreases n - h,
        {
            match hash_password(items[h].password.as_str()) {
                Some(x) => hashes.push(x),
                None => return Err(TRCError::Internal),
            }
            h = h + 1;
        }
        let ghost t0 = self@;
        let mut out: Vec<User> = Vec::new();
        let mut k: usize = 0;
        while k < n
            invariant
                self.wf(),
                n == items@.len(),
                0 <= k <= n,
                t0.room_for(n as int),
                usernames_fresh(t0, items@),
                hashes@.len() == n,
                forall|j: int| 0 <= j < n ==> bcrypt_accepts(items@[j].password@, #[trigger] hashes@[j]@),
                self@ == (Tables { users: self@.users, next_id: t0.next_id + k, ..t0 }),
                self@.users.len() == t0.users.len() + k,
                self@.users.subrange(0, t0.users.len() as int) == t0.users,
                forall|j: int|
                    0 <= j < k ==> is_new_user(
                        #[trigger] self@.users[t0.users.len() + j],
                        items@[j],
                        t0.next_id + j,
                        now,
                    ),
                out@ == self@.users.subrange(t0.users.len() as int, self@.users.len() as int),
            decreases n - k,
        {
            let ghost before = self@;
            let user = User {
                id: self.next_id,
                username: items[k].username.clone(),
                password: hashes[k].clone(),
                created_at: now,
                updated_at: now,
            };
            out.push(user.duplicate());
            proof {
                lemma_push_fresh(self.users@, user, self.next_id as int);
                assert(!username_taken(self@.users, user.username@)) by {
                    if username_taken(self@.users, user.username@) {
                        let a = choose|a: int|
                            0 <= a < self@.users.len() && (#[trigger] self@.users[a]).username@
                                == user.username@;
                        if a < t0.users.len() {
                            assert(self@.users[a] == t0.users[a]);
                            assert(username_taken(t0.users, items@[k as int].username@));
                        } else {
                            let j = a - t0.users.len();
                            assert(is_new_user(self@.users[t0.users.len() + j], items@[j], t0.next_id + j, now));
                            assert(items@[j].username@ != items@[k as int].username@);
                        }
                    }
                }
                lemma_push_user(self.users@, user);
            }
            self.users.push(user);
            self.next_id = self.next_id + 1;
            assert forall|j: int| 0 <= j < k + 1 implies is_new_user(
                #[trigger] self@.users[t0.users.len() + j],
                items@[j],
                t0.next_id + j,
                now,
            ) by {
                if j < k {
                    assert(self@.users[t0.users.len() + j] == before.users[t0.users.len() + j]);
                }
            }
            assert(self@.users.subrange(0, t0.users.len() as int) =~= t0.users);
            assert(out@ =~= self@.users.subrange(t0.users.len() as int, self@.users.len() as int));
            k = k + 1;
        }
        Ok(out)
    }

    /// Changes the caller's own password: the stored hash and the update
    /// time change, nothing else.
    pub fn update_user(&mut self, caller: Option<i32>, change: UserChangeset, now: i64) -> (r:
        Result<User, TRCError>)
        requires
            old(self).wf(),
        ensures
            final(self).wf(),
            caller.is_none() ==> r == Err::<User, TRCError>(TRCError::Unauthorized),
            caller.is_some() && !has_id(old(self)@.users, change.id) ==> r == Err::<User, TRCError>(
                TRCError::NotFound,
            ),
            caller.is_some() && has_id(old(self)@.users, change.id) && change.id != caller.unwrap()
                ==> r == Err::<User, TRCError>(TRCError::Unauthorized),
            r.is_err() ==> final(self)@ == old(self)@,
            r.is_err() ==> r == Err::<User, TRCError>(TRCError::Unauthorized) || r == Err::<
                User,
                TRCError,
            >(TRCError::NotFound) || (caller == Some(change.id) && has_id(
                old(self)@.users,
                change.id,
            ) && r == Err::<User, TRCError>(TRCError::Internal)),
            r.is_ok() ==> caller == Some(change.id) && has_id(old(self)@.users, change.id),
            r.is_ok() ==> bcrypt_accepts(change.password@, r.unwrap().password@) && r.unwrap() == (
            User { password: r.unwrap().password, updated_at: now, ..row_of(old(self)@.users, change.id) })
                && final(self)@ == with_password(old(self)@, change.id, r.unwrap().password, now),
    {
        let uid = match caller {
            Some(uid) => uid,
            None => return Err(TRCError::Unauthorized),
        };
        if find_row(&self.users, change.id).is_none() {
            return Err(TRCError::NotFound);
        }
        match authorize(caller, &vec![change.id]) {
            Ok(_) => {},
            Err(e) => return Err(e),
        }
        let hash = match hash_password(change.password.as_str()) {
            Some(h) => h,
            None => return Err(TRCError::Internal),
        };
        self.change_password_hash(caller, change.id, hash, now)
    }

    /// Sets the caller's own password hash to one already computed, as when
    /// a journal of earlier changes is replayed; the update time becomes
    /// `now`.
    pub fn change_password_hash(&mut self, caller: Option<i32>, id: i32, hash: String, now: i64) -> (r:
        Result<User, TRCError>)
        requires
            old(self).wf(),
        ensures
            final(self).wf(),
            caller.is_none() ==> r == Err::<User, TRCError>(TRCError::Unauthorized),
            caller.is_some() && !has_id(old(self)@.users, id) ==> r == Err::<User, TRCError>(
                TRCError::NotFound,
            ),
            caller.is_some() && has_id(old(self)@.users, id) && id != caller.unwrap() ==> r
                == Err::<User, TRCError>(TRCError::Unauthorized),
            r.is_err() ==> final(self)@ == old(self)@,
            r.is_ok() <==> caller == Some(id) && has_id(old(self)@.users, id),
            r.is_ok() ==> r.unwrap() == (User {
                password: hash,
                updated_at: now,
                ..row_of(old(self)@.users, id)
            }) && final(self)@ == with_password(old(self)@, id, hash, now),
    {
        if caller.is_none() {
            return Err(TRCError::Unauthorized);
        }
        let i = match find_row(&self.users, id) {
            Some(i) => i,
            None => return Err(TRCError::NotFound),
        };
        match authorize(caller, &vec![id]) {
            Ok(_) => {},
            Err(e) => return Err(e),
        }
        let current = self.users[i].duplicate();
        let user = User { password: hash, updated_at: now, ..current };
        let copy = user.duplicate();
        proof {
            lemma_index_of_found(self.users@, id);
            lemma_update_same_key(self.users@, i as int, user, self.next_id as int);
            let s = self.users@.update(i as int, user);
            assert forall|a: int, b: int|
                0 <= a < s.len() && 0 <= b < s.len() && a != b implies (#[trigger] s[a]).username@
                != (#[trigger] s[b]).username@ by {
                assert(s[a].username == self@.users[a].username);
                assert(s[b].username == self@.users[b].username);
            }
        }
        self.users.set(i, user);
        Ok(copy)
    }

    /// Closes the caller's own account. An account that does not exist
    /// counts zero; one that still owns decks or sets is kept, with
    /// `Validation`.
    pub fn delete_user(&mut self, caller: Option<i32>, target: UserDeleteset) -> (r: Result<
        i32,
        TRCError,
    >)
        requires
            old(self).wf(),
        ensures
            final(self).wf(),
            caller.is_none() ==> r == Err::<i32, TRCError>(TRCError::Unauthorized),
            caller.is_some() && !has_id(old(self)@.users, target.id) ==> r == Ok::<i32, TRCError>(
                0,
            ),
            caller.is_some() && has_id(old(self)@.users, target.id) && target.id != caller.unwrap()
                ==> r == Err::<i32, TRCError>(TRCError::Unauthorized),
            caller == Some(target.id) && has_id(old(self)@.users, target.id) && user_in_use(
                old(self)@,
                target.id,
            ) ==> r == Err::<i32, TRCError>(TRCError::Validation),
            caller == Some(target.id) && has_id(old(self)@.users, target.id) && !user_in_use(
                old(self)@,
                target.id,
            ) ==> r == Ok::<i32, TRCError>(1),
            r != Ok::<i32, TRCError>(1) ==> final(self)@ == old(self)@,
            r == Ok::<i32, TRCError>(1) ==> final(self)@ == (Tables {
                users: old(self)@.users.remove(index_of(old(self)@.users, target.id)),
                ..old(self)@
            }),
    {
        let uid = match caller {
            Some(uid) => uid,
            None => return Err(TRCError::Unauthorized),
        };
        if find_row(&self.users, target.id).is_none() {
            return Ok(0);
        }
        match authorize(caller, &vec![target.id]) {
            Ok(_) => {},
            Err(e) => return Err(e),
        }
        if self.user_referenced(target.id) {
            return Err(TRCError::Validation);
        }
        proof {
            lemma_remove(self.users@, target.id, self.next_id as int);
            let k = index_of(self@.users, target.id);
            let s = self@.users.remove(k);
            assert forall|a: int, b: int|
                0 <= a < s.len() && 0 <= b < s.len() && a != b implies (#[trigger] s[a]).username@
                != (#[trigger] s[b]).username@ by {
                let aa = if a < k { a } else { a + 1 };
                let bb = if b < k { b } else { b + 1 };
                assert(s[a] == self@.users[aa]);
                assert(s[b] == self@.users[bb]);
            }
        }
        Ok(remove_row(&mut self.users, target.id))
    }

    /// The account that this username and password log in to, or
    /// `Unauthorized`.
    pub fn authenticate(&self, username: &str, password: &str) -> (r: Result<i32, TRCError>)
        requires
            self.wf(),
        ensures
            authenticates(self@, username@, password@).is_some() ==> r == Ok::<i32, TRCError>(
                authenticates(self@, username@, password@).unwrap(),
            ),
            authenticates(self@, username@, password@).is_none() ==> r == Err::<i32, TRCError>(
                TRCError::Unauthorized,
            ),
    {
        let i = match self.find_username(username) {
            Some(i) => i,
            None => return Err(TRCError::Unauthorized),
        };
        if password_matches(password, self.users[i].password.as_str()) {
            Ok(self.users[i].id)
        } else {
            Err(TRCError::Unauthorized)
        }
    }

    /// Logs in: the id of the account that the username and password open,
    /// with a token for it that is valid for `TOKEN_DAYS` days. Only the
    /// clock can make a valid login fail, with `Internal`.
    pub fn login(&self, key: &SecretKey, attempt: &LoginAttempt) -> (r: Result<(String, i32), TRCError>)
        requires
            self.wf(),
        ensures
            authenticates(self@, attempt.username@, attempt.password@).is_none() ==> r == Err::<
                (String, i32),
                TRCError,
            >(TRCError::Unauthorized),
            authenticates(self@, attempt.username@, attempt.password@).is_some() && r.is_err() ==> r
                == Err::<(String, i32), TRCError>(TRCError::Internal),
            r.is_ok() ==> authenticates(self@, attempt.username@, attempt.password@) == Some(
                r.unwrap().1,
            ) && exists|now: u64|
                expiry_fits(now as int, TOKEN_DAYS as int) && issued_token(
                    #[trigger] r.unwrap().0@,
                    key@,
                    r.unwrap().1,
                    expiry_of(now as int, TOKEN_DAYS as int) as i32,
                ),
    {
        let id = match self.authenticate(attempt.username.as_str(), attempt.password.as_str()) {
            Ok(id) => id,
            Err(e) => return Err(e),
        };
        match encode_jwt(key, id, TOKEN_DAYS) {
            Ok(token) => Ok((token, id)),
            Err(_) => Err(TRCError::Internal),
        }
    }
}

} // verus!
