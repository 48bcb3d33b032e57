use journali_api::errors::Error;
use journali_api::users::user::{User, VALIDITY};
use journali_api::utils::hex::{from_hex, to_hex};
use journali_api::utils::jwt::{Jwt, Token};

const SUBJECT: u128 = 0x0123456789abcdef0123456789abcdef;
const ISSUED: i64 = 1_700_000_000;
const TEXT: &str = "efcdab8967452301efcdab8967452301007e7b65000000000b000000000000006a6f75726e616c692e6e6c04b0f4d9e9d38215300ff30af016a4726482a811230782a435943c331405face";

fn claims() -> Jwt {
    Jwt::new_at(b"journali.nl".to_vec(), VALIDITY, SUBJECT, ISSUED)
}

fn holder() -> User {
    User { id: SUBJECT, username: "alice".to_string(), password: String::new() }
}

#[test]
fn hex_writes_two_lower_case_digits_per_byte() {
    assert_eq!(to_hex(&[]), b"".to_vec());
    assert_eq!(to_hex(&[0x00, 0x0f, 0xa0, 0xff, 0x5c]), b"000fa0ff5c".to_vec());
}

#[test]
fn hex_reads_back_what_it_wrote() {
    let all: Vec<u8> = (0..=255).collect();
    assert_eq!(from_hex(&to_hex(&all)), Some(all));
    assert_eq!(from_hex(b"000fa0ff5c"), Some(vec![0x00, 0x0f, 0xa0, 0xff, 0x5c]));
    assert_eq!(from_hex(b""), Some(vec![]));
}

#[test]
fn hex_refuses_odd_length_upper_case_and_other_letters() {
    assert_eq!(from_hex(b"abc"), None);
    assert_eq!(from_hex(b"AB"), None);
    assert_eq!(from_hex(b"0g"), None);
    assert_eq!(from_hex(b"g0"), None);
    assert_eq!(from_hex(b" 0"), None);
    assert_eq!(from_hex(b"0/"), None);
    assert_eq!(from_hex(b"0:"), None);
    assert_eq!(from_hex(b"`0"), None);
}

#[test]
fn expiry_is_thirty_days_on() {
    assert_eq!(VALIDITY, 30 * 24 * 60 * 60);
    assert_eq!(claims().exp, 1_702_592_000);
    assert_eq!(claims().sub(), SUBJECT);
    assert_eq!(claims().iss, b"journali.nl".to_vec());
}

#[test]
fn expiry_stops_at_the_ends_of_time() {
    assert_eq!(Jwt::new_at(vec![], VALIDITY, 1, i64::MAX - 5).exp, i64::MAX);
    assert_eq!(Jwt::new_at(vec![], VALIDITY, 1, i64::MAX - VALIDITY).exp, i64::MAX);
    assert_eq!(Jwt::new_at(vec![], -10, 1, i64::MIN + 3).exp, i64::MIN);
    assert_eq!(Jwt::new_at(vec![], -10, 1, 100).exp, 90);
    assert_eq!(Jwt::new_at(vec![], 0, 1, -100).exp, -100);
}

#[test]
fn token_is_the_signed_claims_in_hex() {
    assert_eq!(claims().tokenize(b"secret"), Token { token: TEXT.as_bytes().to_vec() });
    assert_eq!(holder().into_jwt_at(b"secret", ISSUED), Token { token: TEXT.as_bytes().to_vec() });
}

#[test]
fn token_depends_on_secret_and_claims() {
    let t = claims().tokenize(b"secret").token;
    assert_ne!(claims().tokenize(b"Secret").token, t);
    assert_ne!(Jwt::new_at(b"journali.nl".to_vec(), VALIDITY, SUBJECT + 1, ISSUED).tokenize(b"secret").token, t);
    // The tag, the last 32 bytes, is not a copy of key or message.
    assert_eq!(t.len(), 2 * (16 + 8 + 8 + 11 + 32));
    assert_eq!(&t[t.len() - 64..], &TEXT.as_bytes()[TEXT.len() - 64..]);
}

#[test]
fn issue_then_verify_returns_the_subject() {
    let token = holder().into_jwt_at(b"secret", ISSUED);
    let read = Jwt::decrypt_at(&token.token, b"secret", ISSUED).unwrap();
    assert_eq!(read.sub(), SUBJECT);
    assert_eq!(read, claims());
    // Good up to and including the last second.
    assert_eq!(Jwt::decrypt_at(&token.token, b"secret", ISSUED + VALIDITY), Ok(claims()));
    assert_eq!(Jwt::decrypt_at(TEXT.as_bytes(), b"secret", 0), Ok(claims()));
}

#[test]
fn issue_then_verify_by_the_clock() {
    let token = holder().into_jwt(b"secret");
    let read = Jwt::decrypt(&token.token, b"secret").unwrap();
    assert_eq!(read.sub(), SUBJECT);
    assert_eq!(read.iss, b"journali.nl".to_vec());
    let fresh = Jwt::new(b"x".to_vec(), 60, 9);
    assert!(fresh.exp > 1_600_000_000);
    assert_eq!(Jwt::decrypt(&fresh.tokenize(b"k").token, b"k"), Ok(fresh));
    let stale = Jwt::new(b"x".to_vec(), -60, 9);
    assert_eq!(Jwt::decrypt(&stale.tokenize(b"k").token, b"k"), Err(Error::Auth));
}

#[test]
fn expired_token_is_refused() {
    let token = holder().into_jwt_at(b"secret", ISSUED);
    assert_eq!(Jwt::decrypt_at(&token.token, b"secret", ISSUED + VALIDITY + 1), Err(Error::Auth));
    assert_eq!(Jwt::decrypt_at(&token.token, b"secret", i64::MAX), Err(Error::Auth));
}

#[test]
fn tampered_signature_is_refused() {
    let token = holder().into_jwt_at(b"secret", ISSUED).token;
    for i in (token.len() - 64)..token.len() {
        let mut forged = token.clone();
        forged[i] = if forged[i] == b'0' { b'1' } else { b'0' };
        assert_eq!(Jwt::decrypt_at(&forged, b"secret", ISSUED), Err(Error::Auth));
    }
    // A tag that is too short or too long.
    assert_eq!(Jwt::decrypt_at(&token[..token.len() - 2], b"secret", ISSUED), Err(Error::Auth));
    let mut long = token.clone();
    long.extend_from_slice(b"00");
    assert_eq!(Jwt::decrypt_at(&long, b"secret", ISSUED), Err(Error::Auth));
}

#[test]
fn tampered_claims_are_refused() {
    let token = holder().into_jwt_at(b"secret", ISSUED).token;
    for i in 0..(token.len() - 64) {
        let mut forged = token.clone();
        forged[i] = if forged[i] == b'0' { b'1' } else { b'0' };
        assert_eq!(Jwt::decrypt_at(&forged, b"secret", ISSUED), Err(Error::Auth));
    }
}

#[test]
fn wrong_secret_and_malformed_text_are_refused_alike() {
    let token = holder().into_jwt_at(b"secret", ISSUED).token;
    assert_eq!(Jwt::decrypt_at(&token, b"other", ISSUED), Err(Error::Auth));
    assert_eq!(Jwt::decrypt_at(b"", b"secret", ISSUED), Err(Error::Auth));
    assert_eq!(Jwt::decrypt_at(b"not hex", b"secret", ISSUED), Err(Error::Auth));
    assert_eq!(Jwt::decrypt_at(b"abcd", b"secret", ISSUED), Err(Error::Auth));
    assert_eq!(Jwt::decrypt_at(&token[..62], b"secret", ISSUED), Err(Error::Auth));
    assert_eq!(Jwt::decrypt_at(&token.to_ascii_uppercase(), b"secret", ISSUED), Err(Error::Auth));
    // An issuer length that points past the end.
    let mut bytes = from_hex(&token).unwrap();
    bytes[24] = 0xff;
    bytes[31] = 0xff;
    assert_eq!(Jwt::decrypt_at(&to_hex(&bytes), b"secret", ISSUED), Err(Error::Auth));
}

#[test]
fn claims_with_an_empty_issuer_and_a_negative_expiry_survive() {
    let odd = Jwt { iss: vec![], exp: -5, sub: u128::MAX };
    let token = odd.tokenize(b"");
    assert_eq!(Jwt::decrypt_at(&token.token, b"", -5), Ok(odd.clone()));
    assert_eq!(Jwt::decrypt_at(&token.token, b"", -6), Ok(odd));
    assert_eq!(Jwt::decrypt_at(&token.token, b"", -4), Err(Error::Auth));
}
