//! User records as the user directory holds them and as callers see them.
use vstd::prelude::*;
use crate::search::{first_index, lemma_first_index, lemma_first_index_at};

verus! {

/// A row of the user directory.
#[derive(Debug)]
pub struct User {
    pub id: i32,
    pub sub: String,
    pub username: String,
    pub email: String,
}

/// The user record handed to protected operations.
#[derive(Debug)]
pub struct UserOut {
    pub id: i32,
    pub sub: String,
    pub username: String,
    pub email: String,
}

/// The values a login writes to the user directory, keyed by `sub`.
#[derive(Debug)]
pub struct NewUser {
    pub sub: String,
    pub username: String,
    pub email: String,
}

/// The claims of a verified identity token.
#[derive(Debug)]
pub struct TokenClaims {
    pub sub: String,
    pub email: String,
    pub name: String,
}

/// `u` carries the fields of row `r`.
pub open spec fn shows_user(u: UserOut, r: User) -> bool {
    u.id == r.id && u.sub@ == r.sub@ && u.username@ == r.username@ && u.email@ == r.email@
}

/// The index of the first row whose subject is `subject`, if any.
pub open spec fn first_with_subject(rows: Seq<User>, subject: Seq<char>) -> Option<int> {
    first_index(|i: int| rows[i].sub@ == subject, rows.len() as int)
}

/// The values that a login with `claims` writes for its user: the subject,
/// and the name and address as the token asserts them.
pub fn new_user_from_claims(claims: TokenClaims) -> (r: NewUser)
    ensures
        r.sub@ == claims.sub@,
        r.username@ == claims.name@,
        r.email@ == claims.email@,
{
    NewUser { sub: claims.sub, username: claims.name, email: claims.email }
}

/// The record of row `r`.
pub fn user_out(r: &User) -> (u: UserOut)
    ensures
        shows_user(u, *r),
{
    UserOut { id: r.id, sub: r.sub.clone(), username: r.username.clone(), email: r.email.clone() }
}

/// The first of `rows` whose subject is `subject`; `None` when there is none.
/// Where several rows match, the first one is taken.
pub fn find_user(rows: &Vec<User>, subject: &String) -> (r: Option<UserOut>)
    ensures
        r is None <==> first_with_subject(rows@, subject@) is None,
        r matches Some(u) ==> shows_user(u, rows@[first_with_subject(rows@, subject@)->0]),
{
    let mut i: usize = 0;
    while i < rows.len()
        invariant
            i <= rows@.len(),
            forall|j: int| 0 <= j < i ==> rows@[j].sub@ != subject@,
        decreases rows@.len() - i,
    {
        if rows[i].sub == *subject {
            proof {
                lemma_first_index_at(|k: int| rows@[k].sub@ == subject@, rows@.len() as int, i as int);
            }
            return Some(user_out(&rows[i]));
        }
        i = i + 1;
    }
    proof {
        lemma_first_index(|k: int| rows@[k].sub@ == subject@, rows@.len() as int);
    }
    None
}

} // verus!
