//! Users: the records, the store, and its listing, creation, update and
//! removal.

use vstd::prelude::*;
use crate::clock::{read_clock, Timestamp};
use crate::collection::{
    distinct_keys, find, has_key, keys, law_insert_then_find, models, with_edit, with_front,
    without, Collection, Edit, Record,
};
use crate::ident::{first_free, is_random_uuid, random_uuid, second_id, second_of};
use crate::status::{Status, StoreError};
use crate::text::{copy_texts, texts};

verus! {

/// What a user may do.
#[derive(Debug, Clone, Copy, PartialEq, Eq, Structural)]
pub enum UserRole {
    Admin,
    Moderator,
    User,
    Banned,
}

/// Whether an account is in use.
#[derive(Debug, Clone, Copy, PartialEq, Eq, Structural)]
pub enum UserStatus {
    Active,
    Inactive,
    Suspended,
}

/// A user account.
#[derive(Debug)]
pub struct User {
    pub id: u128,
    pub username: String,
    pub email: String,
    pub full_name: String,
    pub role: UserRole,
    pub status: UserStatus,
    pub join_date: Timestamp,
    pub last_activity: String,
    pub posts: u32,
    pub reputation: i32,
    pub permissions: Vec<String>,
}

/// What a user account holds, as mathematical values.
pub struct UserView {
    pub id: u128,
    pub username: Seq<char>,
    pub email: Seq<char>,
    pub full_name: Seq<char>,
    pub role: UserRole,
    pub status: UserStatus,
    pub join_date: Timestamp,
    pub last_activity: Seq<char>,
    pub posts: u32,
    pub reputation: i32,
    pub permissions: Seq<Seq<char>>,
}

impl View for User {
    type V = UserView;

    open spec fn view(&self) -> UserView {
        UserView {
            id: self.id,
            username: self.username@,
            email: self.email@,
            full_name: self.full_name@,
            role: self.role,
            status: self.status,
            join_date: self.join_date,
            last_activity: self.last_activity@,
            posts: self.posts,
            reputation: self.reputation,
            permissions: texts(self.permissions@),
        }
    }
}

impl Clone for User {
    fn clone(&self) -> (r: Self)
        ensures
            r@ == self@,
    {
        User {
            id: self.id,
            username: self.username.clone(),
            email: self.email.clone(),
            full_name: self.full_name.clone(),
            role: self.role,
            status: self.status,
            join_date: self.join_date,
            last_activity: self.last_activity.clone(),
            posts: self.posts,
            reputation: self.reputation,
            permissions: copy_texts(&self.permissions),
        }
    }
}

impl Record for User {
    open spec fn key_of(m: UserView) -> u128 {
        m.id
    }

    fn key(&self) -> (k: u128) {
        self.id
    }

    fn duplicate(&self) -> (r: Self) {
        self.clone()
    }
}

/// What a caller sends to create a user or to replace the editable fields of
/// one.
#[derive(Debug, Clone)]
pub struct UpsertUser {
    pub username: String,
    pub email: String,
    pub full_name: Option<String>,
    pub role: UserRole,
    pub status: UserStatus,
    pub permissions: Vec<String>,
}

/// The full name that a payload gives: the one sent, or the username where
/// none is sent.
pub open spec fn full_name_of(p: UpsertUser) -> Seq<char> {
    match p.full_name {
        Some(name) => name@,
        None => p.username@,
    }
}

/// The user that a payload gives under an identifier at an instant: the
/// payload's fields, the username for a missing full name, no posts and no
/// reputation, and an activity of just now.
pub open spec fn enrolled(p: UpsertUser, id: u128, at: Timestamp) -> UserView {
    UserView {
        id,
        username: p.username@,
        email: p.email@,
        full_name: full_name_of(p),
        role: p.role,
        status: p.status,
        join_date: at,
        last_activity: "только что"@,
        posts: 0,
        reputation: 0,
        permissions: texts(p.permissions@),
    }
}

/// The full name of a payload, by value.
fn take_full_name(full_name: Option<String>, username: &String) -> (name: String)
    ensures
        name@ == (match full_name {
            Some(n) => n@,
            None => username@,
        }),
{
    match full_name {
        Some(n) => n,
        None => username.clone(),
    }
}

impl Edit<User> for UpsertUser {
    /// Every editable field is replaced by the payload's, the full name by
    /// the new username where none is sent; identifier, join date, activity,
    /// posts and reputation stay.
    open spec fn edited(&self, m: UserView) -> UserView {
        UserView {
            id: m.id,
            username: self.username@,
            email: self.email@,
            full_name: full_name_of(*self),
            role: self.role,
            status: self.status,
            join_date: m.join_date,
            last_activity: m.last_activity,
            posts: m.posts,
            reputation: m.reputation,
            permissions: texts(self.permissions@),
        }
    }

    fn apply(self, current: &User) -> (r: User) {
        let full_name = take_full_name(self.full_name, &self.username);
        User {
            id: current.id,
            username: self.username,
            email: self.email,
            full_name,
            role: self.role,
            status: self.status,
            join_date: current.join_date,
            last_activity: current.last_activity.clone(),
            posts: current.posts,
            reputation: current.reputation,
            permissions: self.permissions,
        }
    }

    proof fn lemma_keeps_key(&self, m: UserView) {
    }
}

/// The sample administrator, under an identifier and a join date.
pub open spec fn sample_admin(id: u128, at: Timestamp) -> UserView {
    UserView {
        id,
        username: "admin"@,
        email: "admin@example.com"@,
        full_name: "Главный администратор"@,
        role: UserRole::Admin,
        status: UserStatus::Active,
        join_date: at,
        last_activity: "2 минуты назад"@,
        posts: 156,
        reputation: 9850,
        permissions: seq!["all"@],
    }
}

/// The sample moderator, under an identifier and a join date.
pub open spec fn sample_moderator(id: u128, at: Timestamp) -> UserView {
    UserView {
        id,
        username: "moderator1"@,
        email: "mod1@example.com"@,
        full_name: "Модератор Иван"@,
        role: UserRole::Moderator,
        status: UserStatus::Active,
        join_date: at,
        last_activity: "1 час назад"@,
        posts: 89,
        reputation: 4520,
        permissions: seq!["moderate"@, "edit"@, "delete"@],
    }
}

/// The users, newest first.
pub struct UsersStore {
    inner: Collection<User>,
}

impl View for UsersStore {
    type V = Seq<UserView>;

    closed spec fn view(&self) -> Seq<UserView> {
        self.inner@
    }
}

impl Default for UsersStore {
    /// A store without users.
    fn default() -> (store: Self)
        ensures
            store@ == Seq::<UserView>::empty(),
    {
        Self::new()
    }
}

impl UsersStore {
    /// A store without users.
    pub fn new() -> (store: Self)
        ensures
            store@ == Seq::<UserView>::empty(),
    {
        UsersStore { inner: Collection::new() }
    }

    /// The store with its two sample users, both joined at `at`: the
    /// administrator under the identifier `first`, the moderator under
    /// `second`, or under the number after it where the two are the same.
    pub fn seeded(first: u128, second: u128, at: Timestamp) -> (store: Self)
        ensures
            store@ == seq![sample_admin(first, at), sample_moderator(second_id(first, second), at)],
            distinct_keys::<User>(store@),
    {
        let second_key = second_of(first, second);
        let mut all: Vec<String> = Vec::new();
        all.push("all".to_owned());
        assert(texts(all@) =~= seq!["all"@]);
        let admin = User {
            id: first,
            username: "admin".to_owned(),
            email: "admin@example.com".to_owned(),
            full_name: "Главный администратор".to_owned(),
            role: UserRole::Admin,
            status: UserStatus::Active,
            join_date: at,
            last_activity: "2 минуты назад".to_owned(),
            posts: 156,
            reputation: 9850,
            permissions: all,
        };
        let mut rights: Vec<String> = Vec::new();
        rights.push("moderate".to_owned());
        rights.push("edit".to_owned());
        rights.push("delete".to_owned());
        assert(texts(rights@) =~= seq!["moderate"@, "edit"@, "delete"@]);
        let moderator = User {
            id: second_key,
            username: "moderator1".to_owned(),
            email: "mod1@example.com".to_owned(),
            full_name: "Модератор Иван".to_owned(),
            role: UserRole::Moderator,
            status: UserStatus::Active,
            join_date: at,
            last_activity: "1 час назад".to_owned(),
            posts: 89,
            reputation: 4520,
            permissions: rights,
        };
        let mut inner: Collection<User> = Collection::new();
        let ghost admin_model = admin@;
        let ghost moderator_model = moderator@;
        let put_moderator = inner.insert(moderator);
        assert(put_moderator is Ok);
        assert(inner@ =~= seq![moderator_model]);
        assert(!has_key::<User>(inner@, first)) by {
            if has_key::<User>(inner@, first) {
                let i = choose|i: int|
                    0 <= i < inner@.len() && User::key_of(#[trigger] inner@[i]) == first;
                assert(inner@[i] == moderator_model);
            }
        }
        let put_admin = inner.insert(admin);
        assert(put_admin is Ok);
        assert(inner@ =~= seq![admin_model, moderator_model]);
        UsersStore { inner }
    }

    /// The store with its two sample users, under freshly drawn identifiers
    /// and joined at one reading of the clock.
    pub fn new_with_mock() -> (store: Self)
        ensures
            store@.len() == 2,
            store@[0] == sample_admin(store@[0].id, store@[0].join_date),
            store@[1] == sample_moderator(store@[1].id, store@[0].join_date),
            store@[0].id != store@[1].id,
            is_random_uuid(store@[0].id),
            exists|draw: u128|
                is_random_uuid(draw) && store@[1].id == #[trigger] second_id(store@[0].id, draw),
    {
        let now = read_clock().at;
        let first = random_uuid();
        let second = random_uuid();
        let store = Self::seeded(first, second, now);
        assert(User::key_of(store@[0]) != User::key_of(store@[1]));
        store
    }

    /// The number of users.
    pub fn len(&self) -> (n: usize)
        ensures
            n == self@.len(),
            distinct_keys::<User>(self@),
    {
        self.inner.len()
    }

    /// Creates a user from a payload at the instant `at`, under the first
    /// unused identifier from `candidate` upwards, puts it in front and hands
    /// back a copy.
    pub fn create(&mut self, candidate: u128, at: Timestamp, payload: UpsertUser) -> (user: User)
        ensures
            first_free(keys::<User>(old(self)@), candidate, user.id),
            !has_key::<User>(old(self)@, user.id),
            user@ == enrolled(payload, user.id, at),
            final(self)@ == with_front::<User>(old(self)@, user@),
            find::<User>(final(self)@, user.id) == Some(user@),
            keys::<User>(final(self)@) == keys::<User>(old(self)@).insert(user.id),
            distinct_keys::<User>(final(self)@),
    {
        let id = self.inner.unused_key(candidate);
        let full_name = take_full_name(payload.full_name, &payload.username);
        let user = User {
            id,
            username: payload.username,
            email: payload.email,
            full_name,
            role: payload.role,
            status: payload.status,
            join_date: at,
            last_activity: "только что".to_owned(),
            posts: 0,
            reputation: 0,
            permissions: payload.permissions,
        };
        let copy = user.clone();
        let put = self.inner.insert(user);
        assert(put is Ok);
        proof {
            law_insert_then_find::<User>(old(self)@, copy@, copy.id);
        }
        copy
    }
}

/// A copy of all users, newest first.
pub fn list_users(store: &UsersStore) -> (all: Vec<User>)
    ensures
        models::<User>(all@) == store@,
{
    store.inner.snapshot()
}

/// Creates a user under a freshly drawn identifier, joined at the clock's
/// reading, and puts it in front of the others. The identifier is one that no
/// user had; the rest of the user is fixed by the payload.
pub fn create_user(store: &mut UsersStore, payload: UpsertUser) -> (r: (Status, User))
    ensures
        r.0 == Status::Created,
        exists|draw: u128|
            is_random_uuid(draw) && #[trigger] first_free(keys::<User>(old(store)@), draw, r.1.id),
        !has_key::<User>(old(store)@, r.1.id),
        r.1@ == enrolled(payload, r.1.id, r.1.join_date),
        final(store)@ == with_front::<User>(old(store)@, r.1@),
        find::<User>(final(store)@, r.1.id) == Some(r.1@),
        keys::<User>(final(store)@) == keys::<User>(old(store)@).insert(r.1.id),
        distinct_keys::<User>(final(store)@),
{
    let candidate = random_uuid();
    let now = read_clock();
    let user = store.create(candidate, now.at, payload);
    (Status::Created, user)
}

/// Replaces the editable fields of the user with the identifier `id` by the
/// payload's and hands back the changed user; without such a user nothing
/// changes and `NotFound` comes back.
pub fn update_user(store: &mut UsersStore, id: u128, payload: UpsertUser) -> (r: Result<
    User,
    StoreError,
>)
    ensures
        distinct_keys::<User>(final(store)@),
        match r {
            Ok(user) => has_key::<User>(old(store)@, id) && Some(user@) == find::<User>(
                final(store)@,
                id,
            ) && user@ == payload.edited(find::<User>(old(store)@, id).unwrap()) && final(store)@
                == with_edit::<User>(old(store)@, id, |m: UserView| payload.edited(m)),
            Err(e) => e == StoreError::NotFound && !has_key::<User>(old(store)@, id) 
                && final(store)@ == old(store)@,
        },
{
    store.inner.update(id, payload)
}

/// Removes the user with the identifier `id`: `NoContent` where there was
/// one, `NotFound` and no change where there was none.
pub fn delete_user(store: &mut UsersStore, id: u128) -> (status: Status)
    ensures
        distinct_keys::<User>(final(store)@),
        final(store)@ == without::<User>(old(store)@, id),
        has_key::<User>(old(store)@, id) ==> status == Status::NoContent,
        !has_key::<User>(old(store)@, id) ==> status == Status::NotFound && final(store)@
            == old(store)@,
{
    match store.inner.delete(id) {
        Ok(_) => Status::NoContent,
        Err(_) => Status::NotFound,
    }
}

} // verus!
