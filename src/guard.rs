//! The authentication gate: from a session cookie to the user it belongs to.
use vstd::prelude::*;
use crate::clock::{is_fresh, session_age, SessionAge, Timestamp, MAX_SESSION_AGE_SECS, NANOS_PER_SEC};
use crate::codec::{decode_cookie, decoded, encoding, CookieView};
use crate::error::ErrorKind;
use crate::store::SessionStore;
use crate::text::all_alnum;
use crate::users::{find_user, first_with_subject, shows_user, User, UserOut};

verus! {

/// Why a request carries no usable identity.
#[derive(Clone, Copy, Debug, PartialEq, Eq, Structural)]
pub enum AuthError {
    /// No session cookie was sent.
    MissingCookie,
    /// The cookie is not the text form of a session payload.
    MalformedCookie,
    /// The session was created after the present moment.
    UnknownAge,
    /// The session is older than the maximum session age.
    SessionTooOld,
    /// The session store holds no such session.
    NoSession,
    /// The user directory holds no user with the session's subject.
    UserNotFound,
}

impl AuthError {
    /// Every failure to authenticate is of the kind `Unauthenticated`.
    pub fn kind(self) -> (r: ErrorKind)
        ensures
            r == ErrorKind::Unauthenticated,
    {
        ErrorKind::Unauthenticated
    }

    /// Whether the request goes on to the routes that need no login (`true`)
    /// or is answered at once as unauthenticated (`false`): only a session
    /// that is too old ends the request.
    pub fn falls_through(self) -> (r: bool)
        ensures
            r == (self != AuthError::SessionTooOld),
    {
        match self {
            AuthError::SessionTooOld => false,
            _ => true,
        }
    }
}

/// The subject that a request with `cookie`, seen at `now`, authenticates as
/// against the sessions `sessions`; or why it does not.
pub open spec fn session_subject(
    cookie: Option<Seq<char>>,
    now: Timestamp,
    sessions: Map<Seq<char>, Seq<char>>,
) -> Result<Seq<char>, AuthError> {
    match cookie {
        None => Err(AuthError::MissingCookie),
        Some(t) => match decoded(t) {
            None => Err(AuthError::MalformedCookie),
            Some(c) => if now.total_nanos() < c.created.total_nanos() {
                Err(AuthError::UnknownAge)
            } else if !is_fresh(c.created, now) {
                Err(AuthError::SessionTooOld)
            } else if !sessions.contains_key(c.key) {
                Err(AuthError::NoSession)
            } else {
                Ok(sessions[c.key])
            },
        },
    }
}

/// The text of a cookie, if one was sent.
pub open spec fn sent(cookie: Option<&str>) -> Option<Seq<char>> {
    match cookie {
        Some(t) => Some(t@),
        None => None,
    }
}

/// Resolves a session cookie to the subject of its session, checking in
/// order that a cookie was sent, that it decodes, that the session is young
/// enough, and that the store knows it.
pub fn resolve_session(cookie: Option<&str>, now: Timestamp, store: &SessionStore) -> (r: Result<
    String,
    AuthError,
>)
    requires
        store.wf(),
    ensures
        match r {
            Ok(s) => session_subject(sent(cookie), now, store@) == Ok::<
                Seq<char>,
                AuthError,
            >(s@),
            Err(e) => session_subject(sent(cookie), now, store@) == Err::<
                Seq<char>,
                AuthError,
            >(e),
        },
{
    let t = match cookie {
        None => {
            return Err(AuthError::MissingCookie);
        },
        Some(t) => t,
    };
    let c = match decode_cookie(t) {
        Err(_) => {
            return Err(AuthError::MalformedCookie);
        },
        Ok(c) => c,
    };
    match session_age(c.creation_time, now) {
        SessionAge::Unknown => {
            return Err(AuthError::UnknownAge);
        },
        SessionAge::TooOld => {
            return Err(AuthError::SessionTooOld);
        },
        SessionAge::Fresh => {},
    }
    match store.get(&c.session_key) {
        None => Err(AuthError::NoSession),
        Some(s) => Ok(s),
    }
}

/// The user that a request authenticates as: `rows` are the directory rows
/// loaded for the resolved subject, and the first row with that subject is
/// taken.
pub fn authenticated_user(subject: &String, rows: &Vec<User>) -> (r: Result<UserOut, AuthError>)
    ensures
        r is Err <==> first_with_subject(rows@, subject@) is None,
        r matches Ok(u) ==> shows_user(u, rows@[first_with_subject(rows@, subject@)->0]),
        r matches Err(e) ==> e == AuthError::UserNotFound,
{
    match find_user(rows, subject) {
        None => Err(AuthError::UserNotFound),
        Some(u) => Ok(u),
    }
}

/// A cookie issued for a session that the store holds resolves, while the
/// session is fresh, to the subject that logged in.
pub proof fn lemma_issued_cookie_resolves(
    sessions: Map<Seq<char>, Seq<char>>,
    key: Seq<char>,
    subject: Seq<char>,
    created: Timestamp,
    now: Timestamp,
)
    requires
        all_alnum(key),
        created.valid(),
        is_fresh(created, now),
    ensures
        session_subject(
            Some(encoding(CookieView { key, created })),
            now,
            sessions.insert(key, subject),
        ) == Ok::<Seq<char>, AuthError>(subject),
{
    crate::codec::lemma_cookie_round_trip(CookieView { key, created });
}

/// Once more than the maximum session age has passed, a cookie no longer
/// authenticates, whatever the store holds.
pub proof fn lemma_expired_session_rejected(
    cookie: Seq<char>,
    now: Timestamp,
    sessions: Map<Seq<char>, Seq<char>>,
)
    requires
        decoded(cookie) is Some,
        now.total_nanos() - decoded(cookie)->0.created.total_nanos() > MAX_SESSION_AGE_SECS
            * NANOS_PER_SEC,
    ensures
        session_subject(Some(cookie), now, sessions) == Err::<Seq<char>, AuthError>(
            AuthError::SessionTooOld,
        ),
{
}

/// A cookie whose key the store does not hold does not authenticate,
/// however young its session.
pub proof fn lemma_unknown_session_rejected(
    cookie: Seq<char>,
    now: Timestamp,
    sessions: Map<Seq<char>, Seq<char>>,
)
    requires
        decoded(cookie) is Some,
        !sessions.contains_key(decoded(cookie)->0.key),
    ensures
        session_subject(Some(cookie), now, sessions) is Err,
{
}

} // verus!
