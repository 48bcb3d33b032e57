//! Signed, time-bounded assertions of who a caller is.
//!
//! A token is the lower-case hexadecimal text of these bytes: the subject
//! (16, little-endian), the expiry (8, little-endian), the length of the
//! issuer (8, little-endian), the issuer, and then the HMAC-SHA-256 tag of
//! all that went before, under the secret.

use hmac::{Hmac, KeyInit, Mac};
use sha2::Sha256;
use vstd::bytes::*;
use vstd::prelude::*;
use vstd::slice::{slice_subrange, slice_to_vec};
use crate::errors::Error;
use crate::items::item::now;
use crate::utils::hex::{from_hex, hex, lemma_hex_unhex, lemma_unhex_hex, to_hex, unhex};
use crate::{Id, Timestamp};

verus! {

/// The tag that HMAC-SHA-256 gives `message` under `key`: what
/// `hmac::Hmac::<sha2::Sha256>` returns from `finalize` once it was made
/// from `key` and fed `message`.
pub uninterp spec fn hmac_sha256(key: Seq<u8>, message: Seq<u8>) -> Seq<u8>;

/// Makes an `hmac::Hmac<sha2::Sha256>` from `key` with `new_from_slice`,
/// which takes a key of any length and so never fails, feeds it `message`
/// with `update` and hands back the bytes of `finalize`.
#[verifier::external_body]
fn sign(key: &[u8], message: &[u8]) -> (tag: Vec<u8>)
    ensures
        tag@ == hmac_sha256(key@, message@),
{
    let mut mac = Hmac::<Sha256>::new_from_slice(key).expect("HMAC takes a key of any length");
    mac.update(message);
    mac.finalize().into_bytes().as_slice().to_vec()
}

/// Makes an `hmac::Hmac<sha2::Sha256>` from `key`, feeds it `message` and
/// asks `verify_slice` whether `tag` is its tag: that compares all of
/// `tag` with the bytes of `finalize`, in constant time, and refuses a tag
/// of another length.
#[verifier::external_body]
fn tag_matches(key: &[u8], message: &[u8], tag: &[u8]) -> (ok: bool)
    ensures
        ok == (tag@ == hmac_sha256(key@, message@)),
{
    let mut mac = Hmac::<Sha256>::new_from_slice(key).expect("HMAC takes a key of any length");
    mac.update(message);
    mac.verify_slice(tag).is_ok()
}

/// What a token asserts.
#[derive(Clone, Debug, PartialEq, Eq)]
pub struct Jwt {
    /// Who issued the token.
    pub iss: Vec<u8>,
    /// The last second at which the token is good.
    pub exp: Timestamp,
    /// The user the token speaks for.
    pub sub: Id,
}

/// What a token asserts, as a value to reason about.
pub struct Claims {
    pub iss: Seq<u8>,
    pub exp: Timestamp,
    pub sub: Id,
}

/// A token as it travels: ASCII text.
#[derive(Clone, Debug, PartialEq, Eq)]
pub struct Token {
    pub token: Vec<u8>,
}

impl View for Jwt {
    type V = Claims;

    open spec fn view(&self) -> Claims {
        Claims { iss: self.iss@, exp: self.exp, sub: self.sub }
    }
}

/// The moment `duration` seconds after `now`, or the last (first) moment
/// there is, if that is out of range.
pub open spec fn expiry(now: Timestamp, duration: Timestamp) -> Timestamp {
    if now + duration > i64::MAX {
        i64::MAX
    } else if now + duration < i64::MIN {
        i64::MIN
    } else {
        (now + duration) as i64
    }
}

/// The bytes that are signed for `claims`.
pub open spec fn message_of(claims: Claims) -> Seq<u8> {
    spec_u128_to_le_bytes(claims.sub) + spec_u64_to_le_bytes(claims.exp as u64)
        + spec_u64_to_le_bytes(claims.iss.len() as u64) + claims.iss
}

/// The token for `claims` under `secret`.
pub open spec fn token_text(claims: Claims, secret: Seq<u8>) -> Seq<u8> {
    hex(message_of(claims) + hmac_sha256(secret, message_of(claims)))
}

/// What `text` asserts at `now` to one who holds `secret`: its claims, if
/// it is well formed, its tag is the one that `secret` gives and it has
/// not expired. Whatever else is wrong, the answer is the same.
pub open spec fn spec_decrypt(text: Seq<u8>, secret: Seq<u8>, now: Timestamp) -> Result<
    Claims,
    Error,
> {
    match unhex(text) {
        None => Err(Error::Auth),
        Some(bytes) => {
            if bytes.len() < 32 {
                Err(Error::Auth)
            } else {
                let n = spec_u64_from_le_bytes(bytes.subrange(24, 32));
                if n > bytes.len() - 32 {
                    Err(Error::Auth)
                } else {
                    let claims = Claims {
                        iss: bytes.subrange(32, 32 + n),
                        exp: spec_u64_from_le_bytes(bytes.subrange(16, 24)) as i64,
                        sub: spec_u128_from_le_bytes(bytes.subrange(0, 16)),
                    };
                    if bytes.subrange(32 + n, bytes.len() as int) != hmac_sha256(
                        secret,
                        bytes.subrange(0, 32 + n),
                    ) {
                        Err(Error::Auth)
                    } else if now > claims.exp {
                        Err(Error::Auth)
                    } else {
                        Ok(claims)
                    }
                }
            }
        },
    }
}

/// `r` is what `text` asserts at `now` to one who holds `secret`.
pub open spec fn reads_as(r: Result<Jwt, Error>, text: Seq<u8>, secret: Seq<u8>, now: Timestamp) -> bool {
    match r {
        Ok(jwt) => spec_decrypt(text, secret, now) == Ok::<Claims, Error>(jwt@),
        Err(e) => spec_decrypt(text, secret, now) == Err::<Claims, Error>(e),
    }
}

/// How the bytes signed for `claims`, followed by any `tag`, fall apart again.
proof fn lemma_parts(claims: Claims, tag: Seq<u8>)
    requires
        claims.iss.len() <= u64::MAX,
    ensures
        ({
            let message = message_of(claims);
            let bytes = message + tag;
            let n = claims.iss.len() as int;
            &&& message.len() == 32 + n
            &&& bytes.subrange(0, 16) == spec_u128_to_le_bytes(claims.sub)
            &&& bytes.subrange(16, 24) == spec_u64_to_le_bytes(claims.exp as u64)
            &&& bytes.subrange(24, 32) == spec_u64_to_le_bytes(claims.iss.len() as u64)
            &&& bytes.subrange(32, 32 + n) == claims.iss
            &&& bytes.subrange(0, 32 + n) == message
            &&& bytes.subrange(32 + n, bytes.len() as int) == tag
        }),
{
    lemma_auto_spec_u64_to_from_le_bytes();
    lemma_auto_spec_u128_to_from_le_bytes();
    let message = message_of(claims);
    let bytes = message + tag;
    let n = claims.iss.len() as int;
    assert(spec_u128_to_le_bytes(claims.sub).len() == 16);
    assert(spec_u64_to_le_bytes(claims.exp as u64).len() == 8);
    assert(spec_u64_to_le_bytes(claims.iss.len() as u64).len() == 8);
    assert(bytes.subrange(0, 16) =~= spec_u128_to_le_bytes(claims.sub));
    assert(bytes.subrange(16, 24) =~= spec_u64_to_le_bytes(claims.exp as u64));
    assert(bytes.subrange(24, 32) =~= spec_u64_to_le_bytes(claims.iss.len() as u64));
    assert(bytes.subrange(32, 32 + n) =~= claims.iss);
    assert(bytes.subrange(0, 32 + n) =~= message);
    assert(bytes.subrange(32 + n, bytes.len() as int) =~= tag);
}

/// What reading the bytes signed for `claims`, followed by `tag`, comes to.
proof fn lemma_read(claims: Claims, tag: Seq<u8>, secret: Seq<u8>, now: Timestamp)
    requires
        claims.iss.len() <= u64::MAX,
    ensures
        spec_decrypt(hex(message_of(claims) + tag), secret, now) == if tag == hmac_sha256(
            secret,
            message_of(claims),
        ) && now <= claims.exp {
            Ok::<Claims, Error>(claims)
        } else {
            Err(Error::Auth)
        },
{
    let bytes = message_of(claims) + tag;
    lemma_unhex_hex(bytes);
    lemma_parts(claims, tag);
    lemma_auto_spec_u64_to_from_le_bytes();
    lemma_auto_spec_u128_to_from_le_bytes();
    let x = claims.exp;
    assert((x as u64) as i64 == x) by (bit_vector);
    assert(spec_u64_from_le_bytes(bytes.subrange(24, 32)) == claims.iss.len());
}

/// A token that was just issued, or has not expired since, is accepted
/// and asserts what was put into it.
pub proof fn lemma_issued_token_is_accepted(claims: Claims, secret: Seq<u8>, now: Timestamp)
    requires
        claims.iss.len() <= u64::MAX,
        now <= claims.exp,
    ensures
        spec_decrypt(token_text(claims, secret), secret, now) == Ok::<Claims, Error>(claims),
{
    lemma_read(claims, hmac_sha256(secret, message_of(claims)), secret, now);
}

/// A token past its expiry is refused.
pub proof fn lemma_expired_token_is_refused(claims: Claims, secret: Seq<u8>, now: Timestamp)
    requires
        claims.iss.len() <= u64::MAX,
        now > claims.exp,
    ensures
        spec_decrypt(token_text(claims, secret), secret, now) == Err::<Claims, Error>(Error::Auth),
{
    lemma_read(claims, hmac_sha256(secret, message_of(claims)), secret, now);
}

/// Claims under any tag but the one the secret gives are refused.
pub proof fn lemma_forged_token_is_refused(
    claims: Claims,
    tag: Seq<u8>,
    secret: Seq<u8>,
    now: Timestamp,
)
    requires
        claims.iss.len() <= u64::MAX,
        tag != hmac_sha256(secret, message_of(claims)),
    ensures
        spec_decrypt(hex(message_of(claims) + tag), secret, now) == Err::<Claims, Error>(
            Error::Auth,
        ),
{
    lemma_read(claims, tag, secret, now);
}

/// The only text that is accepted for given claims is their token, and
/// only until they expire.
pub proof fn lemma_accepted_token_was_issued(
    text: Seq<u8>,
    secret: Seq<u8>,
    now: Timestamp,
    claims: Claims,
)
    requires
        spec_decrypt(text, secret, now) == Ok::<Claims, Error>(claims),
    ensures
        text == token_text(claims, secret),
        now <= claims.exp,
{
    lemma_hex_unhex(text);
    let bytes = unhex(text)->Some_0;
    let n = spec_u64_from_le_bytes(bytes.subrange(24, 32)) as int;
    let u = spec_u64_from_le_bytes(bytes.subrange(16, 24));
    let message = bytes.subrange(0, 32 + n);
    let tag = bytes.subrange(32 + n, bytes.len() as int);
    assert(claims.iss == bytes.subrange(32, 32 + n));
    assert(claims.exp == u as i64);
    assert(tag == hmac_sha256(secret, message));
    assert((u as i64) as u64 == u) by (bit_vector);
    assert(spec_u128_to_le_bytes(claims.sub) == bytes.subrange(0, 16)) by {
        lemma_auto_spec_u128_to_from_le_bytes();
    }
    assert(spec_u64_to_le_bytes(claims.exp as u64) == bytes.subrange(16, 24)) by {
        lemma_auto_spec_u64_to_from_le_bytes();
    }
    assert(spec_u64_to_le_bytes(claims.iss.len() as u64) == bytes.subrange(24, 32)) by {
        lemma_auto_spec_u64_to_from_le_bytes();
    }
    assert(message_of(claims) == message) by {
        assert(bytes.subrange(0, 16) + bytes.subrange(16, 24) + bytes.subrange(24, 32)
            + bytes.subrange(32, 32 + n) =~= message);
    }
    assert(message + tag =~= bytes);
}

impl Jwt {
    /// Claims of `iss` about `sub` that are good for `duration` seconds from now.
    pub fn new(iss: Vec<u8>, duration: Timestamp, sub: Id) -> (jwt: Jwt)
        ensures
            jwt.iss == iss,
            jwt.sub == sub,
            exists|at: Timestamp| jwt.exp == #[trigger] expiry(at, duration),
    {
        Jwt::new_at(iss, duration, sub, now())
    }

    /// Claims of `iss` about `sub` that are good for `duration` seconds from `now`.
    pub fn new_at(iss: Vec<u8>, duration: Timestamp, sub: Id, now: Timestamp) -> (jwt: Jwt)
        ensures
            jwt.iss == iss,
            jwt.exp == expiry(now, duration),
            jwt.sub == sub,
    {
        let exp: Timestamp = if duration >= 0 {
            if now > i64::MAX - duration {
                i64::MAX
            } else {
                now + duration
            }
        } else {
            if now < i64::MIN - duration {
                i64::MIN
            } else {
                now + duration
            }
        };
        Jwt { iss, exp, sub }
    }

    /// The user these claims speak for.
    pub fn sub(&self) -> (id: Id)
        ensures
            id == self.sub,
    {
        self.sub
    }

    /// Signs these claims with `secret`.
    pub fn tokenize(&self, secret: &[u8]) -> (token: Token)
        ensures
            token.token@ == token_text(self@, secret@),
    {
        let mut bytes = u128_to_le_bytes(self.sub);
        let mut exp = u64_to_le_bytes(#[verifier::truncate] (self.exp as u64));
        bytes.append(&mut exp);
        let mut len = u64_to_le_bytes(self.iss.len() as u64);
        bytes.append(&mut len);
        bytes.extend_from_slice(self.iss.as_slice());
        assert(bytes@ == message_of(self@));
        let mut tag = sign(secret, bytes.as_slice());
        bytes.append(&mut tag);
        Token { token: to_hex(bytes.as_slice()) }
    }

    /// Reads the claims out of `token`, if it is good now.
    pub fn decrypt(token: &[u8], secret: &[u8]) -> (r: Result<Jwt, Error>)
        ensures
            exists|at: Timestamp| #[trigger] reads_as(r, token@, secret@, at),
            r matches Ok(jwt) ==> token@ == token_text(jwt@, secret@),
            r matches Err(e) ==> e == Error::Auth,
    {
        let at = now();
        let r = Jwt::decrypt_at(token, secret, at);
        proof {
            if r is Ok {
                lemma_accepted_token_was_issued(token@, secret@, at, r->Ok_0@);
            }
        }
        r
    }

    /// Reads the claims out of `token`, if it is good at `now`.
    pub fn decrypt_at(token: &[u8], secret: &[u8], now: Timestamp) -> (r: Result<Jwt, Error>)
        ensures
            reads_as(r, token@, secret@, now),
    {
        let bytes = match from_hex(token) {
            Some(b) => b,
            None => {
                return Err(Error::Auth);
            },
        };
        if bytes.len() < 32 {
            return Err(Error::Auth);
        }
        let n = u64_from_le_bytes(slice_subrange(bytes.as_slice(), 24, 32));
        if n > (bytes.len() - 32) as u64 {
            return Err(Error::Auth);
        }
        let end: usize = 32 + n as usize;
        let message = slice_subrange(bytes.as_slice(), 0, end);
        let tag = slice_subrange(bytes.as_slice(), end, bytes.len());
        if !tag_matches(secret, message, tag) {
            return Err(Error::Auth);
        }
        let sub = u128_from_le_bytes(slice_subrange(bytes.as_slice(), 0, 16));
        let exp = #[verifier::truncate] (u64_from_le_bytes(slice_subrange(bytes.as_slice(), 16, 24)) as i64);
        if now > exp {
            return Err(Error::Auth);
        }
        let iss = slice_to_vec(slice_subrange(bytes.as_slice(), 32, end));
        Ok(Jwt { iss, exp, sub })
    }
}

} // verus!
