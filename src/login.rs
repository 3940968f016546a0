//! Starting a session after a successful login.
use vstd::prelude::*;
use rand::Rng;
use crate::clock::Timestamp;
use crate::codec::{encode_cookie, encoding, CodecError, CookieView, SessionCookie};
use crate::store::SessionStore;
use crate::text::{all_alnum, is_alnum, string_of};

verus! {

/// Length of a session key.
pub const SESSION_KEY_LEN: usize = 32;

/// Relies on rand's `Alphanumeric` distribution sampled from the thread-local
/// generator: it yields one of the 62 ASCII letters and digits.
#[verifier::external_body]
fn random_alnum_char() -> (c: char)
    ensures
        is_alnum(c),
{
    char::from(rand::thread_rng().sample(rand::distributions::Alphanumeric))
}

/// A fresh random session key of ASCII letters and digits.
pub fn generate_session_key() -> (r: String)
    ensures
        r@.len() == SESSION_KEY_LEN,
        all_alnum(r@),
{
    let mut v: Vec<char> = Vec::new();
    let mut i: usize = 0;
    while i < SESSION_KEY_LEN
        invariant
            i <= SESSION_KEY_LEN,
            v@.len() == i,
            all_alnum(v@),
        decreases SESSION_KEY_LEN - i,
    {
        let c = random_alnum_char();
        v.push(c);
        i = i + 1;
    }
    string_of(&v)
}

/// Records the session `key` of `subject` in the store and returns the
/// cookie text for it, created at `now`. The store gains the session in any
/// case; the cookie text exists when the key is made of ASCII letters and
/// digits and `now` is a proper timestamp.
pub fn start_session(store: &mut SessionStore, key: String, subject: String, now: Timestamp) -> (r:
    Result<String, CodecError>)
    requires
        old(store).wf(),
    ensures
        final(store).wf(),
        final(store)@ == old(store)@.insert(key@, subject@),
        r is Ok <==> all_alnum(key@) && now.valid(),
        r matches Ok(t) ==> t@ == encoding(CookieView { key: key@, created: now }),
        r matches Err(e) ==> e == CodecError::Encoding,
{
    let cookie = SessionCookie { session_key: key.clone(), creation_time: now };
    store.put(key, subject);
    encode_cookie(&cookie)
}

} // verus!
