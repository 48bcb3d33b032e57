//! Users, their registration and their login.

use vstd::prelude::*;
use vstd::slice::slice_to_vec;
use vstd::string::*;
use crate::database::{index_of, lemma_index_of, lookup, present, unique, Database, Row};
use crate::errors::Error;
use crate::items::fresh_id;
use crate::items::item::now;
use crate::utils::jwt::{expiry, token_text, Claims, Jwt, Token};
use crate::utils::{hash_password, password_matches, verify_password};
use crate::{Id, Timestamp};

verus! {

/// A registered user. `password` holds the digest, never the plain text.
#[derive(Clone, Debug, PartialEq, Eq)]
pub struct User {
    pub id: Id,
    pub username: String,
    pub password: String,
}

/// What a caller supplies to register.
#[derive(Clone, Debug, PartialEq, Eq)]
pub struct NewUser {
    pub username: String,
    pub password: String,
}

/// What a caller supplies to log in.
#[derive(Clone, Debug, PartialEq, Eq)]
pub struct LoginUser {
    pub username: String,
    pub password: String,
}

/// Changes to a user; what is `None` stays as it is.
#[derive(Clone, Debug, PartialEq, Eq)]
pub struct UpdateUser {
    pub username: Option<String>,
    pub password: Option<String>,
}

/// For how many seconds a token is good: thirty days.
pub const VALIDITY: Timestamp = 2_592_000;

/// Who issues the tokens: `journali.nl`.
pub open spec fn issuer() -> Seq<u8> {
    "journali.nl".spec_bytes()
}

/// What a token issued to the user `sub` at `now` asserts.
pub open spec fn claims_for(sub: Id, now: Timestamp) -> Claims {
    Claims { iss: issuer(), exp: expiry(now, VALIDITY), sub }
}

/// Some user goes by `name`.
pub open spec fn name_taken(users: Seq<User>, name: Seq<char>) -> bool {
    exists|i: int| 0 <= i < users.len() && (#[trigger] users[i]).username@ == name
}

/// Some user other than `id` goes by `name`.
pub open spec fn name_taken_by_other(users: Seq<User>, name: Seq<char>, id: Id) -> bool {
    exists|i: int|
        0 <= i < users.len() && (#[trigger] users[i]).username@ == name && users[i].id != id
}

/// No two users go by the same name.
pub open spec fn distinct_names(users: Seq<User>) -> bool {
    forall|i: int, j: int|
        0 <= i < j < users.len() ==> (#[trigger] users[i]).username@ != (#[trigger] users[j]).username@
}

/// The first user who goes by `name` and whose digest `password` matches.
pub open spec fn spec_find_user(users: Seq<User>, name: Seq<char>, password: Seq<char>) -> Option<
    User,
>
    decreases users.len(),
{
    if users.len() == 0 {
        None
    } else if users[0].username@ == name && password_matches(password, users[0].password@) {
        Some(users[0])
    } else {
        spec_find_user(users.drop_first(), name, password)
    }
}

/// What applying `hashed`, whose password is a digest already, to the
/// user `id` comes to: the changed user, unless there is no such user or
/// another one goes by the new name.
pub open spec fn spec_update_user(users: Seq<User>, id: Id, hashed: UpdateUser) -> Result<
    User,
    Error,
> {
    match lookup(users, id) {
        Some(before) => if name_taken_by_other(users, spec_changed(before, hashed).username@, id) {
            Err(Error::Storage)
        } else {
            Ok(spec_changed(before, hashed))
        },
        None => Err(Error::NotFound),
    }
}

/// `user` after `changes`, whose password is hashed already.
pub open spec fn spec_changed(user: User, changes: UpdateUser) -> User {
    User {
        id: user.id,
        username: match changes.username {
            Some(name) => name,
            None => user.username,
        },
        password: match changes.password {
            Some(digest) => digest,
            None => user.password,
        },
    }
}

impl Row for User {
    open spec fn key(&self) -> Id {
        self.id
    }

    fn row_key(&self) -> (k: Id) {
        self.id
    }

    fn duplicate(&self) -> (r: Self) {
        User { id: self.id, username: self.username.clone(), password: self.password.clone() }
    }
}

impl NewUser {
    /// This registration with a digest in the place of the password.
    pub fn hash_password(&self) -> (r: Result<NewUser, Error>)
        ensures
            r matches Ok(hashed) ==> hashed.username == self.username && password_matches(
                self.password@,
                hashed.password@,
            ),
            r matches Err(e) ==> e == Error::Storage,
    {
        match hash_password(self.password.as_str()) {
            Ok(digest) => Ok(NewUser { username: self.username.clone(), password: digest }),
            Err(e) => Err(e),
        }
    }
}

impl UpdateUser {
    /// These changes with a digest in the place of the password, if there is one.
    pub fn hash_password(self) -> (r: Result<UpdateUser, Error>)
        ensures
            r matches Ok(hashed) ==> hashed.username == self.username && match self.password {
                Some(password) => hashed.password matches Some(digest) && password_matches(
                    password@,
                    digest@,
                ),
                None => hashed.password is None,
            },
            self.password is None ==> r == Ok::<UpdateUser, Error>(self),
            r matches Err(e) ==> e == Error::Storage,
    {
        match self.password {
            Some(password) => match hash_password(password.as_str()) {
                Ok(digest) => Ok(UpdateUser { username: self.username, password: Some(digest) }),
                Err(e) => Err(e),
            },
            None => Ok(UpdateUser { username: self.username, password: None }),
        }
    }
}

/// Whether a user other than `id` goes by `name`.
fn name_in_use(conn: &Database, name: &String, id: Option<Id>) -> (b: bool)
    ensures
        b == match id {
            Some(own) => name_taken_by_other(conn.users@, name@, own),
            None => name_taken(conn.users@, name@),
        },
{
    let mut i: usize = 0;
    while i < conn.users.len()
        invariant
            i <= conn.users@.len(),
            forall|j: int|
                0 <= j < i ==> !((#[trigger] conn.users@[j]).username@ == name@ && match id {
                    Some(own) => conn.users@[j].id != own,
                    None => true,
                }),
        decreases conn.users@.len() - i,
    {
        let user = conn.users.at(i);
        let other = match id {
            Some(own) => user.id != own,
            None => true,
        };
        if other && user.username == *name {
            return true;
        }
        i += 1;
    }
    false
}

impl User {
    /// Registers `newuser` under an identifier drawn at random, with a
    /// digest in the place of the password.
    pub fn create(conn: &mut Database, newuser: &NewUser) -> (r: Result<User, Error>)
        ensures
            r matches Ok(user) ==> {
                &&& user.username == newuser.username
                &&& password_matches(newuser.password@, user.password@)
                &&& !name_taken(old(conn).users@, newuser.username@)
                &&& !present(old(conn).users@, user.id)
                &&& final(conn).users@ == old(conn).users@.push(user)
            },
            r matches Err(e) ==> e == Error::Storage && final(conn).users@ == old(conn).users@,
            final(conn).items@ == old(conn).items@,
            final(conn).payloads@ == old(conn).payloads@,
            old(conn).wf() ==> final(conn).wf(),
    {
        match newuser.hash_password() {
            Ok(hashed) => User::create_with(conn, hashed, fresh_id()),
            Err(e) => Err(e),
        }
    }

    /// Registers `hashed`, whose password is a digest already, under `id`.
    /// The store refuses a name or an identifier that is taken.
    pub fn create_with(conn: &mut Database, hashed: NewUser, id: Id) -> (r: Result<User, Error>)
        ensures
            r == if name_taken(old(conn).users@, hashed.username@) || present(old(conn).users@, id) {
                Err::<User, Error>(Error::Storage)
            } else {
                Ok(User { id, username: hashed.username, password: hashed.password })
            },
            final(conn).users@ == match r {
                Ok(user) => old(conn).users@.push(user),
                Err(_) => old(conn).users@,
            },
            final(conn).items@ == old(conn).items@,
            final(conn).payloads@ == old(conn).payloads@,
            old(conn).wf() ==> final(conn).wf(),
    {
        if name_in_use(conn, &hashed.username, None) {
            return Err(Error::Storage);
        }
        let user = User { id, username: hashed.username, password: hashed.password };
        let copy = user.duplicate();
        let ghost before = conn.users@;
        if conn.users.insert(user) {
            proof {
                if distinct_names(before) {
                    assert forall|i: int, j: int| 0 <= i < j < conn.users@.len() implies (
                    #[trigger] conn.users@[i]).username@ != (
                    #[trigger] conn.users@[j]).username@ by {
                        assert(conn.users@[i] == before[i]);
                        if j < before.len() {
                            assert(conn.users@[j] == before[j]);
                        }
                    }
                }
            }
            Ok(copy)
        } else {
            Err(Error::Storage)
        }
    }

    /// The user who goes by the name in `loginuser` and whose digest its
    /// password matches.
    pub fn find_user(conn: &Database, loginuser: &LoginUser) -> (r: Result<User, Error>)
        ensures
            r == match spec_find_user(conn.users@, loginuser.username@, loginuser.password@) {
                Some(user) => Ok::<User, Error>(user),
                None => Err(Error::NotFound),
            },
    {
        let ghost users = conn.users@;
        let ghost name = loginuser.username@;
        let ghost password = loginuser.password@;
        let mut i: usize = 0;
        assert(users.skip(0) == users);
        while i < conn.users.len()
            invariant
                i <= users.len(),
                users == conn.users@,
                name == loginuser.username@,
                password == loginuser.password@,
                spec_find_user(users, name, password) == spec_find_user(
                    users.skip(i as int),
                    name,
                    password,
                ),
            decreases users.len() - i,
        {
            let user = conn.users.at(i);
            proof {
                assert(users.skip(i as int)[0] == user);
                assert(users.skip(i as int).drop_first() == users.skip(i + 1));
            }
            if user.username == loginuser.username && user.verify_password(loginuser) {
                return Ok(user);
            }
            i += 1;
        }
        Err(Error::NotFound)
    }

    /// The user `id`.
    pub fn find_by_id(conn: &Database, id: Id) -> (r: Result<User, Error>)
        ensures
            r == match lookup(conn.users@, id) {
                Some(user) => Ok::<User, Error>(user),
                None => Err(Error::NotFound),
            },
    {
        match conn.users.get(id) {
            Some(user) => Ok(user),
            None => Err(Error::NotFound),
        }
    }

    /// Applies `update_user` to the user `id`, with a digest in the place
    /// of the new password, if there is one.
    pub fn update(id: Id, conn: &mut Database, update_user: UpdateUser) -> (r: Result<User, Error>)
        ensures
            r matches Ok(user) ==> {
                &&& lookup(old(conn).users@, id) matches Some(before)
                &&& user.id == id
                &&& user.username == match update_user.username {
                    Some(name) => name,
                    None => before.username,
                }
                &&& match update_user.password {
                    Some(password) => password_matches(password@, user.password@),
                    None => user.password == before.password,
                }
                &&& final(conn).users@ == old(conn).users@.update(
                    index_of(old(conn).users@, id),
                    user,
                )
            },
            r matches Err(e) ==> e == Error::NotFound || e == Error::Storage,
            r is Err ==> final(conn).users@ == old(conn).users@,
            r == Err::<User, Error>(Error::NotFound) <==> lookup(old(conn).users@, id) is None,
            update_user.password is None ==> r == spec_update_user(old(conn).users@, id, update_user),
            final(conn).users@ == match r {
                Ok(user) => old(conn).users@.update(index_of(old(conn).users@, id), user),
                Err(_) => old(conn).users@,
            },
            update_user.username matches Some(name) && name_taken_by_other(
                old(conn).users@,
                name@,
                id,
            ) ==> r is Err,
            final(conn).items@ == old(conn).items@,
            final(conn).payloads@ == old(conn).payloads@,
            old(conn).wf() ==> final(conn).wf(),
    {
        if !conn.users.contains(id) {
            return Err(Error::NotFound);
        }
        proof {
            lemma_index_of(conn.users@, id);
        }
        match update_user.hash_password() {
            Ok(hashed) => User::update_with(id, conn, hashed),
            Err(e) => Err(e),
        }
    }

    /// Applies `hashed`, whose password is a digest already, to the user
    /// `id`. The store refuses a name that another user goes by.
    pub fn update_with(id: Id, conn: &mut Database, hashed: UpdateUser) -> (r: Result<User, Error>)
        ensures
            r == spec_update_user(old(conn).users@, id, hashed),
            final(conn).users@ == match r {
                Ok(user) => old(conn).users@.update(index_of(old(conn).users@, id), user),
                Err(_) => old(conn).users@,
            },
            final(conn).items@ == old(conn).items@,
            final(conn).payloads@ == old(conn).payloads@,
            old(conn).wf() ==> final(conn).wf(),
    {
        match conn.users.get(id) {
            Some(before) => {
                let user = User {
                    id: before.id,
                    username: match hashed.username {
                        Some(name) => name,
                        None => before.username,
                    },
                    password: match hashed.password {
                        Some(digest) => digest,
                        None => before.password,
                    },
                };
                if name_in_use(conn, &user.username, Some(id)) {
                    return Err(Error::Storage);
                }
                let copy = user.duplicate();
                let ghost users = conn.users@;
                proof {
                    lemma_index_of(users, id);
                }
                let _ = conn.users.replace(user);
                proof {
                    let k = index_of(users, id);
                    if distinct_names(users) && unique(users) {
                        assert forall|i: int, j: int| 0 <= i < j < conn.users@.len() implies (
                        #[trigger] conn.users@[i]).username@ != (
                        #[trigger] conn.users@[j]).username@ by {
                            assert(users[i].username@ != users[j].username@);
                            assert(users[i].key() != users[j].key());
                            if i == k {
                                assert(users[j].id != id);
                            }
                            if j == k {
                                assert(users[i].id != id);
                            }
                        }
                    }
                }
                Ok(copy)
            },
            None => Err(Error::NotFound),
        }
    }

    /// A token that speaks for this user for thirty days from now.
    pub fn into_jwt(self, secret: &[u8]) -> (token: Token)
        ensures
            exists|at: Timestamp| token.token@ == token_text(#[trigger] claims_for(self.id, at), secret@),
    {
        self.into_jwt_at(secret, now())
    }

    /// A token that speaks for this user for thirty days from `now`.
    pub fn into_jwt_at(self, secret: &[u8], now: Timestamp) -> (token: Token)
        ensures
            token.token@ == token_text(claims_for(self.id, now), secret@),
    {
        let iss = slice_to_vec("journali.nl".as_bytes());
        Jwt::new_at(iss, VALIDITY, self.id, now).tokenize(secret)
    }

    /// Whether the password in `user` matches this user's digest.
    pub fn verify_password(&self, user: &LoginUser) -> (b: bool)
        ensures
            b == password_matches(user.password@, self.password@),
    {
        verify_password(user.password.as_str(), self.password.as_str())
    }
}

/// What logging in with `name` and `password` at `now` comes to.
pub open spec fn spec_login(
    users: Seq<User>,
    name: Seq<char>,
    password: Seq<char>,
    secret: Seq<u8>,
    now: Timestamp,
) -> Result<Seq<u8>, Error> {
    match spec_find_user(users, name, password) {
        Some(user) => Ok(token_text(claims_for(user.id, now), secret)),
        None => Err(Error::NotFound),
    }
}

/// `r` is what logging in with `name` and `password` at `now` comes to.
pub open spec fn logs_in_as(
    r: Result<Token, Error>,
    users: Seq<User>,
    name: Seq<char>,
    password: Seq<char>,
    secret: Seq<u8>,
    now: Timestamp,
) -> bool {
    match r {
        Ok(token) => spec_login(users, name, password, secret, now) == Ok::<Seq<u8>, Error>(
            token.token@,
        ),
        Err(e) => spec_login(users, name, password, secret, now) == Err::<Seq<u8>, Error>(e),
    }
}

/// Logs `loginuser` in, as of now: a token for the user, if name and
/// password fit.
pub fn login(conn: &Database, loginuser: &LoginUser, secret: &[u8]) -> (r: Result<Token, Error>)
    ensures
        exists|at: Timestamp| #[trigger]
            logs_in_as(r, conn.users@, loginuser.username@, loginuser.password@, secret@, at),
        r is Ok <==> spec_find_user(conn.users@, loginuser.username@, loginuser.password@) is Some,
        r matches Err(e) ==> e == Error::NotFound,
{
    login_at(conn, loginuser, secret, now())
}

/// Logs `loginuser` in, as of `now`.
pub fn login_at(conn: &Database, loginuser: &LoginUser, secret: &[u8], now: Timestamp) -> (r: Result<
    Token,
    Error,
>)
    ensures
        logs_in_as(r, conn.users@, loginuser.username@, loginuser.password@, secret@, now),
{
    match User::find_user(conn, loginuser) {
        Ok(user) => Ok(user.into_jwt_at(secret, now)),
        Err(e) => Err(e),
    }
}

/// Registers `newuser`.
pub fn register(conn: &mut Database, newuser: &NewUser) -> (r: Result<User, Error>)
    ensures
        r matches Ok(user) ==> {
            &&& user.username == newuser.username
            &&& password_matches(newuser.password@, user.password@)
            &&& !name_taken(old(conn).users@, newuser.username@)
            &&& !present(old(conn).users@, user.id)
            &&& final(conn).users@ == old(conn).users@.push(user)
        },
        r matches Err(e) ==> e == Error::Storage && final(conn).users@ == old(conn).users@,
        final(conn).items@ == old(conn).items@,
        final(conn).payloads@ == old(conn).payloads@,
        old(conn).wf() ==> final(conn).wf(),
{
    User::create(conn, newuser)
}

} // verus!
