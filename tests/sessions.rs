use track_wear::clock::{session_age, SessionAge, Timestamp, MAX_SESSION_AGE_SECS};
use track_wear::codec::{decode_cookie, encode_cookie, CodecError, SessionCookie};
use track_wear::guard::{authenticated_user, resolve_session, AuthError};
use track_wear::login::{generate_session_key, start_session, SESSION_KEY_LEN};
use track_wear::store::SessionStore;
use track_wear::users::{find_user, new_user_from_claims, TokenClaims, User};

fn ts(secs: u64, nanos: u32) -> Timestamp {
    Timestamp { secs, nanos }
}

fn user(id: i32, sub: &str, name: &str) -> User {
    User { id, sub: sub.to_string(), username: name.to_string(), email: format!("{}@example.org", name) }
}

#[test]
fn encode_gives_exact_text() {
    let c = SessionCookie { session_key: "abc123".to_string(), creation_time: ts(5, 7) };
    assert_eq!(
        encode_cookie(&c).unwrap(),
        "{\"session_key\":\"abc123\",\"creation_time\":{\"secs_since_epoch\":5,\"nanos_since_epoch\":7}}"
    );
}

#[test]
fn decode_of_encode_round_trips() {
    let c = SessionCookie {
        session_key: "Zq9XkPa0Zq9XkPa0Zq9XkPa0Zq9XkPa0".to_string(),
        creation_time: ts(1_700_000_000, 999_999_999),
    };
    let t = encode_cookie(&c).unwrap();
    let d = decode_cookie(&t).unwrap();
    assert_eq!(d.session_key, c.session_key);
    assert_eq!(d.creation_time, c.creation_time);
}

#[test]
fn round_trip_of_largest_seconds_and_empty_key() {
    let c = SessionCookie { session_key: String::new(), creation_time: ts(u64::MAX, 0) };
    let d = decode_cookie(&encode_cookie(&c).unwrap()).unwrap();
    assert_eq!(d.session_key, "");
    assert_eq!(d.creation_time, ts(u64::MAX, 0));
}

#[test]
fn encode_rejects_key_outside_alphabet() {
    let c = SessionCookie { session_key: "a\"b".to_string(), creation_time: ts(1, 0) };
    assert_eq!(encode_cookie(&c), Err(CodecError::Encoding));
}

#[test]
fn encode_rejects_improper_timestamp() {
    let c = SessionCookie { session_key: "ab".to_string(), creation_time: ts(1, 1_000_000_000) };
    assert_eq!(encode_cookie(&c), Err(CodecError::Encoding));
}

#[test]
fn decode_rejects_malformed_text() {
    assert_eq!(decode_cookie("").unwrap_err(), CodecError::Decoding);
    assert_eq!(decode_cookie("not a cookie").unwrap_err(), CodecError::Decoding);
    let leading_zero =
        "{\"session_key\":\"ab\",\"creation_time\":{\"secs_since_epoch\":05,\"nanos_since_epoch\":7}}";
    assert_eq!(decode_cookie(leading_zero).unwrap_err(), CodecError::Decoding);
    let trailing =
        "{\"session_key\":\"ab\",\"creation_time\":{\"secs_since_epoch\":5,\"nanos_since_epoch\":7}} ";
    assert_eq!(decode_cookie(trailing).unwrap_err(), CodecError::Decoding);
    let too_many_nanos =
        "{\"session_key\":\"ab\",\"creation_time\":{\"secs_since_epoch\":5,\"nanos_since_epoch\":1000000000}}";
    assert_eq!(decode_cookie(too_many_nanos).unwrap_err(), CodecError::Decoding);
    let overflow =
        "{\"session_key\":\"ab\",\"creation_time\":{\"secs_since_epoch\":18446744073709551616,\"nanos_since_epoch\":0}}";
    assert_eq!(decode_cookie(overflow).unwrap_err(), CodecError::Decoding);
}

#[test]
fn session_age_boundaries() {
    let created = ts(1_000, 500);
    assert_eq!(session_age(created, ts(1_000, 500)), SessionAge::Fresh);
    assert_eq!(session_age(created, ts(1_000 + MAX_SESSION_AGE_SECS, 500)), SessionAge::Fresh);
    assert_eq!(session_age(created, ts(1_000 + MAX_SESSION_AGE_SECS, 501)), SessionAge::TooOld);
    assert_eq!(session_age(created, ts(1_000, 499)), SessionAge::Unknown);
    assert_eq!(MAX_SESSION_AGE_SECS, 60 * 60 * 24 * 30);
}

#[test]
fn store_put_get_and_overwrite() {
    let mut s = SessionStore::new();
    assert_eq!(s.get(&"k1".to_string()), None);
    s.put("k1".to_string(), "alice".to_string());
    s.put("k2".to_string(), "bob".to_string());
    assert_eq!(s.get(&"k1".to_string()), Some("alice".to_string()));
    assert_eq!(s.get(&"k2".to_string()), Some("bob".to_string()));
    s.put("k1".to_string(), "carol".to_string());
    assert_eq!(s.get(&"k1".to_string()), Some("carol".to_string()));
    assert_eq!(s.get(&"k3".to_string()), None);
}

#[test]
fn generated_keys_are_alphanumeric_and_distinct() {
    let a = generate_session_key();
    let b = generate_session_key();
    assert_eq!(a.chars().count(), SESSION_KEY_LEN);
    assert!(a.chars().all(|c| c.is_ascii_alphanumeric()));
    assert_ne!(a, b);
}

#[test]
fn login_then_request_resolves_to_same_user() {
    let mut store = SessionStore::new();
    let key = generate_session_key();
    let now = ts(1_700_000_000, 123);
    let token = start_session(&mut store, key, "google-sub-1".to_string(), now).unwrap();
    let later = ts(1_700_000_000 + 3_600, 0);
    let subject = resolve_session(Some(&token), later, &store).unwrap();
    assert_eq!(subject, "google-sub-1");
    let rows = vec![user(7, "google-sub-1", "alice")];
    let u = authenticated_user(&subject, &rows).unwrap();
    assert_eq!(u.id, 7);
    assert_eq!(u.sub, "google-sub-1");
    assert_eq!(u.username, "alice");
}

#[test]
fn expired_session_is_rejected_even_when_stored() {
    let mut store = SessionStore::new();
    let now = ts(1_000, 0);
    let token = start_session(&mut store, "abc".to_string(), "s".to_string(), now).unwrap();
    let late = ts(1_000 + MAX_SESSION_AGE_SECS + 1, 0);
    assert_eq!(resolve_session(Some(&token), late, &store), Err(AuthError::SessionTooOld));
}

#[test]
fn absent_session_is_rejected_however_young() {
    let store = SessionStore::new();
    let c = SessionCookie { session_key: "abc".to_string(), creation_time: ts(1_000, 0) };
    let token = encode_cookie(&c).unwrap();
    assert_eq!(resolve_session(Some(&token), ts(1_000, 0), &store), Err(AuthError::NoSession));
}

#[test]
fn guard_failures_in_order() {
    let mut store = SessionStore::new();
    assert_eq!(resolve_session(None, ts(1, 0), &store), Err(AuthError::MissingCookie));
    assert_eq!(resolve_session(Some("{}"), ts(1, 0), &store), Err(AuthError::MalformedCookie));
    let token = start_session(&mut store, "k".to_string(), "s".to_string(), ts(10, 0)).unwrap();
    assert_eq!(resolve_session(Some(&token), ts(9, 0), &store), Err(AuthError::UnknownAge));
}

#[test]
fn start_session_with_improper_time_still_stores() {
    let mut store = SessionStore::new();
    let r = start_session(&mut store, "k".to_string(), "s".to_string(), ts(1, 2_000_000_000));
    assert_eq!(r, Err(CodecError::Encoding));
    assert_eq!(store.get(&"k".to_string()), Some("s".to_string()));
}

#[test]
fn first_matching_user_wins() {
    let rows = vec![user(1, "x", "a"), user(2, "y", "b"), user(3, "y", "c")];
    let u = find_user(&rows, &"y".to_string()).unwrap();
    assert_eq!(u.id, 2);
    assert_eq!(u.username, "b");
    assert!(find_user(&rows, &"z".to_string()).is_none());
    assert_eq!(
        authenticated_user(&"z".to_string(), &rows).unwrap_err(),
        AuthError::UserNotFound
    );
}

#[test]
fn claims_become_user_values() {
    let claims = TokenClaims {
        sub: "sub-9".to_string(),
        email: "a@b.c".to_string(),
        name: "Ann".to_string(),
    };
    let n = new_user_from_claims(claims);
    assert_eq!(n.sub, "sub-9");
    assert_eq!(n.username, "Ann");
    assert_eq!(n.email, "a@b.c");
}
