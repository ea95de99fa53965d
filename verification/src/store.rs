//! Durable user records and the in-memory user store.
//!
//! The store is the persistence collaborator of the authentication
//! core: it finds users by name and inserts new ones, surfacing a
//! violated username-uniqueness constraint as its own outcome, distinct
//! from any other failure.  Its invariant — usernames unique across the
//! whole user space, regardless of provider — is what the registration
//! and auto-provisioning contracts rest on.
use crate::errors::AuthError;
use vstd::prelude::*;

verus! {

/// Which identity provider a user came from.
#[derive(Clone, Copy, Debug, PartialEq, Eq, Structural)]
pub enum LoginProvider {
    /// The external university single-sign-on service.
    Iaaa,
    /// The local password store.
    Password,
}

/// A durable user record.  A user created through SSO has no password
/// hash; a user created through local registration always has one.
#[derive(Debug)]
pub struct User {
    pub id: i32,
    pub username: String,
    pub email: Option<String>,
    pub login_provider: LoginProvider,
    pub nickname: String,
    /// The salted adaptive hash of the password, never the password.
    pub password: Option<String>,
    /// Creation time, unix seconds.
    pub created_at: i64,
    /// Last profile update, unix seconds.
    pub updated_at: Option<i64>,
}

pub ghost struct UserView {
    pub id: i32,
    pub username: Seq<char>,
    pub email: Option<Seq<char>>,
    pub login_provider: LoginProvider,
    pub nickname: Seq<char>,
    pub password: Option<Seq<char>>,
    pub created_at: i64,
    pub updated_at: Option<i64>,
}

impl View for User {
    type V = UserView;

    open spec fn view(&self) -> UserView {
        UserView {
            id: self.id,
            username: self.username@,
            email: match self.email {
                Some(e) => Some(e@),
                None => None,
            },
            login_provider: self.login_provider,
            nickname: self.nickname@,
            password: match self.password {
                Some(p) => Some(p@),
                None => None,
            },
            created_at: self.created_at,
            updated_at: self.updated_at,
        }
    }
}

impl User {
    /// A field-for-field copy of the record.
    pub fn duplicate(&self) -> (r: User)
        ensures
            r@ == self@,
    {
        User {
            id: self.id,
            username: self.username.clone(),
            email: match &self.email {
                Some(e) => Some(e.clone()),
                None => None,
            },
            login_provider: self.login_provider,
            nickname: self.nickname.clone(),
            password: match &self.password {
                Some(p) => Some(p.clone()),
                None => None,
            },
            created_at: self.created_at,
            updated_at: self.updated_at,
        }
    }
}

/// Does some record in `s` carry this username?
pub open spec fn has_username(s: Seq<UserView>, name: Seq<char>) -> bool {
    exists|i: int| 0 <= i < s.len() && s[i].username == name
}

/// The user store.  Records are kept in insertion order; ids are
/// assigned from a counter that only grows.
#[derive(Debug)]
pub struct UserStore {
    pub users: Vec<User>,
    /// The id the next inserted record receives.
    pub next_id: i32,
}

impl View for UserStore {
    type V = Seq<UserView>;

    open spec fn view(&self) -> Seq<UserView> {
        self.users@.map_values(|u: User| u@)
    }
}

impl UserStore {
    /// Store invariant: usernames are unique across the whole user
    /// space, ids are unique, positive, and below the next free id.
    pub open spec fn wf(self) -> bool {
        &&& forall|i: int, j: int|
            0 <= i < j < self@.len() ==> self@[i].username != self@[j].username
        &&& forall|i: int, j: int| 0 <= i < j < self@.len() ==> self@[i].id != self@[j].id
        &&& forall|i: int| 0 <= i < self@.len() ==> 1 <= #[trigger] self@[i].id < self.next_id
        &&& self.next_id >= 1
    }

    /// An empty store.
    pub fn new() -> (r: UserStore)
        ensures
            r.wf(),
            r@ == Seq::<UserView>::empty(),
    {
        let s = UserStore { users: Vec::new(), next_id: 1 };
        proof {
            assert(s@ =~= Seq::<UserView>::empty());
        }
        s
    }

    /// Index of the record with this username, if any.  Under the store
    /// invariant that record is unique.
    pub fn find_by_username(&self, name: &String) -> (r: Option<usize>)
        ensures
            match r {
                Some(i) => i < self@.len() && self@[i as int].username == name@,
                None => !has_username(self@, name@),
            },
    {
        let mut i: usize = 0;
        while i < self.users.len()
            invariant
                i <= self.users@.len(),
                self@.len() == self.users@.len(),
                forall|k: int| 0 <= k < i ==> self@[k].username != name@,
            decreases self.users@.len() - i,
        {
            if self.users[i].username.eq(name) {
                assert(self@[i as int].username == name@);
                return Some(i);
            }
            assert(self@[i as int].username != name@);
            i = i + 1;
        }
        None
    }

    /// A copy of the record at `i`.
    pub fn get(&self, i: usize) -> (r: User)
        requires
            i < self@.len(),
        ensures
            r@ == self@[i as int],
    {
        self.users[i].duplicate()
    }

    /// Inserts a new record, enforcing the uniqueness constraint on
    /// usernames: a taken username is reported as `AlreadyExists` and
    /// the store is left unchanged; an exhausted id space — and nothing
    /// else — is an internal store failure.  On any fresh username with
    /// an id still free, insertion succeeds, appending the record with
    /// the next free id and no update time.
    pub fn insert_new_user(
        &mut self,
        username: String,
        email: Option<String>,
        login_provider: LoginProvider,
        nickname: String,
        password: Option<String>,
        created_at: i64,
    ) -> (r: Result<usize, AuthError>)
        requires
            old(self).wf(),
        ensures
            final(self).wf(),
            match r {
                Ok(i) => {
                    &&& !has_username(old(self)@, username@)
                    &&& old(self).next_id < i32::MAX
                    &&& final(self).next_id == old(self).next_id + 1
                    &&& i == old(self)@.len()
                    &&& final(self)@ == old(self)@.push(
                        UserView {
                            id: old(self).next_id,
                            username: username@,
                            email: match email {
                                Some(e) => Some(e@),
                                None => None,
                            },
                            login_provider: login_provider,
                            nickname: nickname@,
                            password: match password {
                                Some(p) => Some(p@),
                                None => None,
                            },
                            created_at: created_at,
                            updated_at: None,
                        },
                    )
                },
                Err(e) => {
                    &&& final(self)@ == old(self)@
                    &&& final(self).next_id == old(self).next_id
                    &&& (e == AuthError::AlreadyExists <==> has_username(old(self)@, username@))
                    &&& (e == AuthError::Internal <==> (!has_username(old(self)@, username@)
                        && old(self).next_id == i32::MAX))
                    &&& (e == AuthError::AlreadyExists || e == AuthError::Internal)
                },
            },
    {
        if let Some(i) = self.find_by_username(&username) {
            assert(has_username(self@, username@));
            return Err(AuthError::AlreadyExists);
        }
        if self.next_id == i32::MAX {
            return Err(AuthError::Internal);
        }
        let user = User {
            id: self.next_id,
            username,
            email,
            login_provider,
            nickname,
            password,
            created_at,
            updated_at: None,
        };
        let ghost before = self@;
        let ghost uv = user@;
        self.users.push(user);
        self.next_id = self.next_id + 1;
        proof {
            assert(self@ =~= before.push(uv));
            assert forall|i: int, j: int| 0 <= i < j < self@.len() implies self@[i].username
                != self@[j].username by {
                if j < before.len() {
                } else {
                    assert(self@[j] == uv);
                    assert(!has_username(before, uv.username));
                    assert(self@[i] == before[i]);
                }
            }
            assert forall|i: int, j: int| 0 <= i < j < self@.len() implies self@[i].id
                != self@[j].id by {
                if j < before.len() {
                } else {
                    assert(self@[i] == before[i]);
                }
            }
        }
        Ok(self.users.len() - 1)
    }
}

} // verus!
