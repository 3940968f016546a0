//! The session cookie payload and its text form,
//! `{"session_key":"<key>","creation_time":{"secs_since_epoch":<s>,"nanos_since_epoch":<n>}}`.
use vstd::prelude::*;
use crate::clock::{Timestamp, NANOS_PER_SEC};
use crate::text::{
    all_alnum, all_digits, alnum_run_end, chars_between, decimal_value, chars_of, char_is_alnum, decimal, has_at, is_alnum,
    is_digit, lemma_decimal, lemma_split_run, parse_decimal, push_decimal, same_chars, string_of,
};

verus! {

/// What a session cookie carries: the session key and when the session began.
#[derive(Debug)]
pub struct SessionCookie {
    pub session_key: String,
    pub creation_time: Timestamp,
}

/// The mathematical content of a session cookie.
pub struct CookieView {
    pub key: Seq<char>,
    pub created: Timestamp,
}

impl View for SessionCookie {
    type V = CookieView;

    open spec fn view(&self) -> CookieView {
        CookieView { key: self.session_key@, created: self.creation_time }
    }
}

impl CookieView {
    /// A payload that has a text form: the key is made of ASCII letters and
    /// digits, and the time is a proper timestamp.
    pub open spec fn valid(self) -> bool {
        all_alnum(self.key) && self.created.valid()
    }
}

/// Why a cookie could not be encoded or decoded.
#[derive(Clone, Copy, Debug, PartialEq, Eq, Structural)]
pub enum CodecError {
    /// The payload has no text form.
    Encoding,
    /// The text is not the text form of any payload.
    Decoding,
}

pub open spec fn key_open() -> Seq<char> {
    "{\"session_key\":\""@
}

pub open spec fn key_close() -> Seq<char> {
    "\",\"creation_time\":{\"secs_since_epoch\":"@
}

pub open spec fn nanos_open() -> Seq<char> {
    ",\"nanos_since_epoch\":"@
}

pub open spec fn payload_close() -> Seq<char> {
    "}}"@
}

/// The text that follows the key.
pub open spec fn after_key(t: Timestamp) -> Seq<char> {
    key_close() + (decimal(t.secs as nat) + (nanos_open() + (decimal(t.nanos as nat)
        + payload_close())))
}

/// The text form of a payload.
pub open spec fn encoding(c: CookieView) -> Seq<char> {
    key_open() + (c.key + after_key(c.created))
}

/// `s` is the text form of some valid payload.
pub open spec fn is_cookie_text(s: Seq<char>) -> bool {
    exists|c: CookieView| c.valid() && encoding(c) == s
}

/// The payload whose text form is `s`, if any.
pub open spec fn decoded(s: Seq<char>) -> Option<CookieView> {
    if is_cookie_text(s) {
        Some(choose|c: CookieView| c.valid() && encoding(c) == s)
    } else {
        None
    }
}

proof fn lemma_literals()
    ensures
        key_open().len() == 16,
        key_close().len() > 0 && !is_alnum(key_close()[0]),
        nanos_open().len() > 0 && !is_digit(nanos_open()[0]),
        payload_close().len() > 0 && !is_digit(payload_close()[0]),
{
    reveal_strlit("{\"session_key\":\"");
    reveal_strlit("\",\"creation_time\":{\"secs_since_epoch\":");
    reveal_strlit(",\"nanos_since_epoch\":");
    reveal_strlit("}}");
}

/// Splits `k + (d + rest)` where `k` is a run of letters and digits that the
/// character after it ends.
proof fn lemma_split_alnum(a1: Seq<char>, b1: Seq<char>, a2: Seq<char>, b2: Seq<char>)
    requires
        a1 + b1 == a2 + b2,
        all_alnum(a1),
        all_alnum(a2),
        b1.len() > 0 ==> !is_alnum(b1[0]),
        b2.len() > 0 ==> !is_alnum(b2[0]),
    ensures
        a1 == a2,
        b1 == b2,
{
    lemma_split_run(|c: char| is_alnum(c), a1, b1, a2, b2);
}

proof fn lemma_split_decimal(n1: nat, b1: Seq<char>, n2: nat, b2: Seq<char>)
    requires
        decimal(n1) + b1 == decimal(n2) + b2,
        b1.len() > 0 ==> !is_digit(b1[0]),
        b2.len() > 0 ==> !is_digit(b2[0]),
    ensures
        n1 == n2,
        b1 == b2,
{
    lemma_decimal(n1);
    lemma_decimal(n2);
    lemma_split_run(|c: char| is_digit(c), decimal(n1), b1, decimal(n2), b2);
}

/// Distinct valid payloads have distinct text forms.
pub proof fn lemma_encoding_injective(c1: CookieView, c2: CookieView)
    requires
        c1.valid(),
        c2.valid(),
        encoding(c1) == encoding(c2),
    ensures
        c1 == c2,
{
    lemma_literals();
    let s = encoding(c1);
    let n = key_open().len() as int;
    assert(s.subrange(n, s.len() as int) =~= c1.key + after_key(c1.created));
    assert(s.subrange(n, s.len() as int) =~= c2.key + after_key(c2.created));
    lemma_split_alnum(c1.key, after_key(c1.created), c2.key, after_key(c2.created));
    let a = after_key(c1.created);
    let m = key_close().len() as int;
    let t1 = c1.created;
    let t2 = c2.created;
    assert(a.subrange(m, a.len() as int) =~= decimal(t1.secs as nat) + (nanos_open() + (decimal(
        t1.nanos as nat,
    ) + payload_close())));
    assert(a.subrange(m, a.len() as int) =~= decimal(t2.secs as nat) + (nanos_open() + (decimal(
        t2.nanos as nat,
    ) + payload_close())));
    lemma_split_decimal(
        t1.secs as nat,
        nanos_open() + (decimal(t1.nanos as nat) + payload_close()),
        t2.secs as nat,
        nanos_open() + (decimal(t2.nanos as nat) + payload_close()),
    );
    let b = nanos_open() + (decimal(t1.nanos as nat) + payload_close());
    let k = nanos_open().len() as int;
    assert(b.subrange(k, b.len() as int) =~= decimal(t1.nanos as nat) + payload_close());
    assert(b.subrange(k, b.len() as int) =~= decimal(t2.nanos as nat) + payload_close());
    lemma_split_decimal(t1.nanos as nat, payload_close(), t2.nanos as nat, payload_close());
}

/// Decoding the text form of a valid payload gives that payload back.
pub proof fn lemma_cookie_round_trip(c: CookieView)
    requires
        c.valid(),
    ensures
        is_cookie_text(encoding(c)),
        decoded(encoding(c)) == Some(c),
{
    let d = choose|d: CookieView| d.valid() && encoding(d) == encoding(c);
    lemma_encoding_injective(c, d);
}

fn cookie_chars(key: &Vec<char>, created: Timestamp) -> (r: Vec<char>)
    ensures
        r@ == encoding(CookieView { key: key@, created }),
{
    let mut out = chars_of("{\"session_key\":\"");
    let mut k = key.clone();
    out.append(&mut k);
    let mut part = chars_of("\",\"creation_time\":{\"secs_since_epoch\":");
    out.append(&mut part);
    push_decimal(&mut out, created.secs);
    let mut part = chars_of(",\"nanos_since_epoch\":");
    out.append(&mut part);
    push_decimal(&mut out, created.nanos as u64);
    let mut part = chars_of("}}");
    out.append(&mut part);
    assert(out@ =~= encoding(CookieView { key: key@, created }));
    out
}

fn chars_all_alnum(s: &Vec<char>) -> (r: bool)
    ensures
        r == all_alnum(s@),
{
    let mut i: usize = 0;
    while i < s.len()
        invariant
            i <= s@.len(),
            forall|j: int| 0 <= j < i ==> is_alnum(#[trigger] s@[j]),
        decreases s@.len() - i,
    {
        if !char_is_alnum(s[i]) {
            return false;
        }
        i = i + 1;
    }
    true
}

/// Writes a payload in its text form. Fails exactly when the payload has none.
pub fn encode_cookie(c: &SessionCookie) -> (r: Result<String, CodecError>)
    ensures
        r is Ok <==> c@.valid(),
        r matches Ok(t) ==> t@ == encoding(c@),
        r matches Err(e) ==> e == CodecError::Encoding,
{
    let key = chars_of(c.session_key.as_str());
    if !chars_all_alnum(&key) || c.creation_time.nanos as u64 >= NANOS_PER_SEC {
        return Err(CodecError::Encoding);
    }
    let out = cookie_chars(&key, c.creation_time);
    Ok(string_of(&out))
}

/// In the text form of `h`, the run of letters and digits after the opening
/// literal is the key, and the key's closing literal follows it.
proof fn lemma_key_run(s: Seq<char>, h: CookieView, ke: int)
    requires
        h.valid(),
        encoding(h) == s,
        16 <= ke <= s.len(),
        all_alnum(s.subrange(16, ke)),
        ke == s.len() || !is_alnum(s[ke]),
    ensures
        s.subrange(0, 16) == key_open(),
        s.subrange(16, ke) == h.key,
        s.subrange(ke, s.len() as int) == after_key(h.created),
{
    lemma_literals();
    let rest = after_key(h.created);
    assert(s.subrange(0, 16) =~= key_open());
    assert(s.subrange(16, s.len() as int) =~= h.key + rest);
    assert(s.subrange(16, s.len() as int) =~= s.subrange(16, ke) + s.subrange(ke, s.len() as int));
    if ke < s.len() {
        assert(s.subrange(ke, s.len() as int)[0] == s[ke]);
    }
    lemma_split_alnum(h.key, rest, s.subrange(16, ke), s.subrange(ke, s.len() as int));
}

/// Where the decimal spelling of `n` and then a non-digit follow `start`, a
/// maximal run of digits from `start` is that spelling.
proof fn lemma_number_run(s: Seq<char>, start: int, n: nat, rest: Seq<char>)
    requires
        0 <= start <= s.len(),
        s.subrange(start, s.len() as int) == decimal(n) + rest,
        rest.len() > 0,
        !is_digit(rest[0]),
    ensures
        ({
            let e = start + decimal(n).len();
            &&& start < e < s.len()
            &&& s.subrange(start, e) == decimal(n)
            &&& all_digits(s.subrange(start, e))
            &&& !is_digit(s[e])
            &&& decimal_value(s.subrange(start, e)) == n
            &&& s.subrange(e, s.len() as int) == rest
        }),
        forall|e: int|
            #![trigger s.subrange(start, e)]
            start < e <= s.len() && all_digits(s.subrange(start, e)) && (e == s.len() || !is_digit(
                s[e],
            )) ==> e == start + decimal(n).len(),
{
    lemma_decimal(n);
    let e0 = start + decimal(n).len();
    let t = s.subrange(start, s.len() as int);
    assert(t.len() == decimal(n).len() + rest.len());
    assert(e0 < s.len());
    assert(s.subrange(start, e0) =~= t.subrange(0, decimal(n).len() as int));
    assert(t.subrange(0, decimal(n).len() as int) =~= decimal(n));
    assert(t.len() == decimal(n).len() + rest.len());
    assert(t[decimal(n).len() as int] == rest[0]);
    assert(s[e0] == t[decimal(n).len() as int]);
    assert(s.subrange(e0, s.len() as int) =~= t.subrange(decimal(n).len() as int, t.len() as int));
    assert(t.subrange(decimal(n).len() as int, t.len() as int) =~= rest);
    assert forall|e: int|
        #![trigger s.subrange(start, e)]
        start < e <= s.len() && all_digits(s.subrange(start, e)) && (e == s.len() || !is_digit(
            s[e],
        )) implies e == e0 by {
        assert(t =~= s.subrange(start, e) + s.subrange(e, s.len() as int));
        if e < s.len() {
            assert(s.subrange(e, s.len() as int)[0] == s[e]);
        }
        lemma_split_run(
            |c: char| is_digit(c),
            decimal(n),
            rest,
            s.subrange(start, e),
            s.subrange(e, s.len() as int),
        );
    }
}

/// Splits `s` at `pos` where the literal `lit` and then `rest` follow.
proof fn lemma_literal_then(s: Seq<char>, pos: int, lit: Seq<char>, rest: Seq<char>)
    requires
        0 <= pos <= s.len(),
        s.subrange(pos, s.len() as int) == lit + rest,
    ensures
        pos + lit.len() <= s.len(),
        s.subrange(pos, pos + lit.len()) == lit,
        s.subrange(pos + lit.len(), s.len() as int) == rest,
{
    let t = s.subrange(pos, s.len() as int);
    assert(t.len() == lit.len() + rest.len());
    assert(s.subrange(pos, pos + lit.len()) =~= t.subrange(0, lit.len() as int));
    assert(t.subrange(0, lit.len() as int) =~= lit);
    assert(s.subrange(pos + lit.len(), s.len() as int) =~= t.subrange(lit.len() as int, t.len() as int));
    assert(t.subrange(lit.len() as int, t.len() as int) =~= rest);
}

/// Picks the key and the timestamp out of a text that has the layout of a
/// text form.
#[verifier::rlimit(40)]
fn parse_cookie_chars(s: &Vec<char>) -> (r: Option<(Vec<char>, Timestamp)>)
    ensures
        r matches Some((k, ts)) ==> all_alnum(k@) && ts.valid(),
        is_cookie_text(s@) ==> (r matches Some((k, ts)) && k@ == decoded(s@)->0.key && ts
            == decoded(s@)->0.created),
{
    let ghost wf = is_cookie_text(s@);
    let ghost h = choose|c: CookieView| c.valid() && encoding(c) == s@;
    let ghost len = s@.len() as int;
    proof {
        lemma_literals();
    }
    let open = chars_of("{\"session_key\":\"");
    let close = chars_of("\",\"creation_time\":{\"secs_since_epoch\":");
    let nanos_lit = chars_of(",\"nanos_since_epoch\":");
    proof {
        if wf {
            assert(s@.len() >= 16);
        }
    }
    if s.len() < open.len() {
        return None;
    }
    let ks: usize = open.len();
    let ke = alnum_run_end(s, ks);
    proof {
        if wf {
            lemma_key_run(s@, h, ke as int);
            lemma_literal_then(
                s@,
                ke as int,
                key_close(),
                decimal(h.created.secs as nat) + (nanos_open() + (decimal(h.created.nanos as nat)
                    + payload_close())),
            );
        }
    }
    if !has_at(s, 0, &open) || !has_at(s, ke, &close) {
        return None;
    }
    let ss: usize = ke + close.len();
    let ghost rest3 = nanos_open() + (decimal(h.created.nanos as nat) + payload_close());
    proof {
        if wf {
            lemma_number_run(s@, ss as int, h.created.secs as nat, rest3);
        }
    }
    let (secs, se) = match parse_decimal(s, ss) {
        Some(p) => p,
        None => {
            proof {
                if wf {
                    let e = ss + decimal(h.created.secs as nat).len();
                    assert(decimal_value(s@.subrange(ss as int, e)) == h.created.secs);
                }
            }
            return None;
        },
    };
    proof {
        if wf {
            lemma_literal_then(
                s@,
                se as int,
                nanos_open(),
                decimal(h.created.nanos as nat) + payload_close(),
            );
        }
    }
    if !has_at(s, se, &nanos_lit) {
        return None;
    }
    let ns: usize = se + nanos_lit.len();
    proof {
        if wf {
            lemma_number_run(s@, ns as int, h.created.nanos as nat, payload_close());
        }
    }
    let (nanos, ne) = match parse_decimal(s, ns) {
        Some(p) => p,
        None => {
            proof {
                if wf {
                    let e = ns + decimal(h.created.nanos as nat).len();
                    assert(decimal_value(s@.subrange(ns as int, e)) == h.created.nanos);
                }
            }
            return None;
        },
    };
    if nanos >= NANOS_PER_SEC {
        return None;
    }
    let key = chars_between(s, ks, ke);
    let created = Timestamp { secs, nanos: nanos as u32 };
    proof {
        if wf {
            lemma_cookie_round_trip(h);
        }
    }
    Some((key, created))
}

/// Reads a payload from its text form. Only the exact text form of a valid
/// payload is accepted; any other text is a decoding error.
pub fn decode_cookie(t: &str) -> (r: Result<SessionCookie, CodecError>)
    ensures
        r is Ok <==> is_cookie_text(t@),
        r matches Ok(c) ==> decoded(t@) == Some(c@),
        r matches Err(e) ==> e == CodecError::Decoding,
{
    let s = chars_of(t);
    let (key, created) = match parse_cookie_chars(&s) {
        Some(p) => p,
        None => {
            return Err(CodecError::Decoding);
        },
    };
    let again = cookie_chars(&key, created);
    if !same_chars(&again, &s) {
        return Err(CodecError::Decoding);
    }
    let c = SessionCookie { session_key: string_of(&key), creation_time: created };
    proof {
        lemma_cookie_round_trip(c@);
    }
    Ok(c)
}

} // verus!
