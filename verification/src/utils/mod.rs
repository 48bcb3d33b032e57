//! Password digests and the checkpoint that admits callers by token.

use vstd::prelude::*;
use vstd::string::*;
use crate::database::{lemma_index_of, lookup, Database};
use crate::errors::Error;
use crate::items::item::now;
use crate::users::user::User;
use crate::utils::jwt::{spec_decrypt, Jwt};
use crate::Timestamp;

pub mod hex;
pub mod jwt;

verus! {

/// The error type of the `bcrypt` crate.
#[verifier::external_type_specification]
#[verifier::external_body]
pub struct ExBcryptError(bcrypt::BcryptError);

/// What `bcrypt::verify` answers for `password` and `hash`: whether they
/// match, or `None` where it reports an error (the hash is malformed).
pub uninterp spec fn bcrypt_verify(password: Seq<char>, hash: Seq<char>) -> Option<bool>;

/// How a digest made at `cost` begins: `$2b$`, the cost in two decimal
/// digits, and `$`.
pub open spec fn cost_prefix(cost: u32) -> Seq<char> {
    seq!['$', '2', 'b', '$', ((48 + cost / 10) as u8) as char, ((48 + cost % 10) as u8) as char, '$']
}

/// Calls `bcrypt::hash`, which salts `password` at random and hashes it at
/// `cost`. Whatever the salt, `bcrypt::verify` accepts `password` for the
/// digest that comes back: it reads cost and salt off the digest and
/// hashes again. The digest is the sixty characters that the crate
/// writes for version 2b: `$2b$`, the cost in two digits, `$`, the salt
/// and the hash.
#[verifier::external_body]
fn bcrypt_hash(password: &str, cost: u32) -> (r: Result<String, bcrypt::BcryptError>)
    ensures
        r matches Ok(digest) ==> {
            &&& bcrypt_verify(password@, digest@) == Some(true)
            &&& digest@.len() == 60
            &&& digest@.subrange(0, 7) == cost_prefix(cost)
        },
{
    bcrypt::hash(password, cost)
}

/// Calls `bcrypt::verify`.
#[verifier::external_body]
fn bcrypt_check(password: &str, hash: &str) -> (r: Result<bool, bcrypt::BcryptError>)
    ensures
        bcrypt_verify(password@, hash@) == match r {
            Ok(b) => Some(b),
            Err(_) => None,
        },
{
    bcrypt::verify(password, hash)
}

/// The work factor that passwords are hashed at.
pub const DEFAULT_COST: u32 = 12;

/// `digest` is a digest of `password`.
pub open spec fn password_matches(password: Seq<char>, digest: Seq<char>) -> bool {
    bcrypt_verify(password, digest) == Some(true)
}

/// What becomes of the outcome of hashing: the digest, or a refusal.
pub fn digest_of(outcome: Result<String, bcrypt::BcryptError>) -> (r: Result<String, Error>)
    ensures
        r == match outcome {
            Ok(digest) => Ok::<String, Error>(digest),
            Err(_) => Err(Error::Storage),
        },
{
    match outcome {
        Ok(digest) => Ok(digest),
        Err(_) => Err(Error::Storage),
    }
}

/// What becomes of the outcome of a check: only a plain yes counts.
pub fn accepted(outcome: Result<bool, bcrypt::BcryptError>) -> (b: bool)
    ensures
        b == (outcome == Ok::<bool, bcrypt::BcryptError>(true)),
{
    match outcome {
        Ok(true) => true,
        _ => false,
    }
}

/// A salted digest of `password`, made at `DEFAULT_COST`, to store in
/// its place.
pub fn hash_password(password: &str) -> (r: Result<String, Error>)
    ensures
        r matches Ok(digest) ==> {
            &&& password_matches(password@, digest@)
            &&& digest@.len() == 60
            &&& digest@.subrange(0, 7) == cost_prefix(DEFAULT_COST)
        },
        r matches Err(e) ==> e == Error::Storage,
{
    digest_of(bcrypt_hash(password, DEFAULT_COST))
}

/// Whether `digest` is a digest of `password`. A digest that cannot be
/// read matches nothing.
pub fn verify_password(password: &str, digest: &str) -> (b: bool)
    ensures
        b == password_matches(password@, digest@),
{
    accepted(bcrypt_check(password, digest))
}

/// How a request leaves the checkpoint.
#[derive(Clone, Debug, PartialEq, Eq)]
pub enum Gate {
    /// The request is for login or registration: nobody is asked who they are.
    Bypassed,
    /// The request comes from this user.
    Authenticated(User),
    /// The request is turned away.
    Rejected,
}

/// `path` is one of the two that need no token.
pub open spec fn is_open_path(path: Seq<char>) -> bool {
    path == "/register"@ || path == "/login"@
}

/// The user that `token` speaks for at `now`, if it is good and the user
/// exists. Whatever is wrong, the answer is `Auth`.
pub open spec fn spec_authenticate(
    token: Seq<u8>,
    secret: Seq<u8>,
    now: Timestamp,
    users: Seq<User>,
) -> Result<User, Error> {
    match spec_decrypt(token, secret, now) {
        Ok(claims) => match lookup(users, claims.sub) {
            Some(user) => Ok(user),
            None => Err(Error::Auth),
        },
        Err(_) => Err(Error::Auth),
    }
}

/// Where the checkpoint sends a request for `path` that shows `credentials`.
pub open spec fn spec_validator(
    path: Seq<char>,
    credentials: Option<Seq<u8>>,
    secret: Seq<u8>,
    now: Timestamp,
    users: Seq<User>,
) -> Gate {
    if is_open_path(path) {
        Gate::Bypassed
    } else {
        match credentials {
            None => Gate::Rejected,
            Some(token) => match spec_authenticate(token, secret, now, users) {
                Ok(user) => Gate::Authenticated(user),
                Err(_) => Gate::Rejected,
            },
        }
    }
}

/// What a request shows, as a value to reason about.
pub open spec fn shown(credentials: Option<&[u8]>) -> Option<Seq<u8>> {
    match credentials {
        Some(token) => Some(token@),
        None => None,
    }
}

/// Resolves `token` to the user it speaks for, as of now.
pub fn authenticate(token: &[u8], secret: &[u8], conn: &Database) -> (r: Result<User, Error>)
    ensures
        exists|at: Timestamp| r == #[trigger] spec_authenticate(token@, secret@, at, conn.users@),
        r matches Ok(user) ==> lookup(conn.users@, user.id) == Some(user),
        r matches Err(e) ==> e == Error::Auth,
{
    let at = now();
    let r = authenticate_at(token, secret, at, conn);
    proof {
        if let Ok(claims) = spec_decrypt(token@, secret@, at) {
            lemma_index_of(conn.users@, claims.sub);
        }
    }
    r
}

/// Resolves `token` to the user it speaks for, as of `now`.
pub fn authenticate_at(token: &[u8], secret: &[u8], now: Timestamp, conn: &Database) -> (r: Result<
    User,
    Error,
>)
    ensures
        r == spec_authenticate(token@, secret@, now, conn.users@),
{
    match Jwt::decrypt_at(token, secret, now) {
        Ok(jwt) => match conn.users.get(jwt.sub()) {
            Some(user) => Ok(user),
            None => Err(Error::Auth),
        },
        Err(_) => Err(Error::Auth),
    }
}

/// The checkpoint, as of now: lets login and registration through, and any
/// other request only for the user its token resolves to.
pub fn validator(path: &str, credentials: Option<&[u8]>, secret: &[u8], conn: &Database) -> (g: Gate)
    ensures
        exists|at: Timestamp|
            g == #[trigger] spec_validator(path@, shown(credentials), secret@, at, conn.users@),
        is_open_path(path@) <==> g is Bypassed,
        credentials is None && !is_open_path(path@) ==> g is Rejected,
        g matches Gate::Authenticated(user) ==> lookup(conn.users@, user.id) == Some(user),
{
    let at = now();
    let g = validator_at(path, credentials, secret, at, conn);
    proof {
        if let Some(token) = credentials {
            if let Ok(claims) = spec_decrypt(token@, secret@, at) {
                lemma_index_of(conn.users@, claims.sub);
            }
        }
    }
    g
}

/// The checkpoint, as of `now`.
pub fn validator_at(
    path: &str,
    credentials: Option<&[u8]>,
    secret: &[u8],
    now: Timestamp,
    conn: &Database,
) -> (g: Gate)
    ensures
        g == spec_validator(path@, shown(credentials), secret@, now, conn.users@),
{
    let asked = String::from_str(path);
    if asked == String::from_str("/register") || asked == String::from_str("/login") {
        return Gate::Bypassed;
    }
    match credentials {
        None => Gate::Rejected,
        Some(token) => match authenticate_at(token, secret, now, conn) {
            Ok(user) => Gate::Authenticated(user),
            Err(_) => Gate::Rejected,
        },
    }
}

} // verus!
