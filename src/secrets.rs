use vstd::prelude::*;

verus! {

/// Whether `bcrypt::verify` accepts a password against a digest.
pub uninterp spec fn password_matches(password: Seq<char>, digest: Seq<char>) -> bool;

/// Relies on `bcrypt::hash` at cost 10: on success the digest is the 60-character
/// modular-crypt form holding a fresh random salt, and `bcrypt::verify`
/// recomputes the hash with that salt and cost, so it accepts the same password
/// against it.
#[verifier::external_body]
pub(crate) fn hash_password(password: &str) -> (r: Option<String>)
    ensures
        r matches Some(d) ==> password_matches(password@, d@) && d@.len() == 60,
{
    bcrypt::hash(password, 10).ok()
}

/// Relies on `bcrypt::verify`; a malformed digest counts as a mismatch.
#[verifier::external_body]
pub(crate) fn verify_password(password: &str, digest: &str) -> (r: bool)
    ensures
        r == password_matches(password@, digest@),
{
    bcrypt::verify(password, digest).unwrap_or(false)
}

/// Relies on `uuid::Uuid::new_v4` and its `Display`, the 36-character hyphenated
/// form: a random, unguessable identifier.
#[verifier::external_body]
pub(crate) fn fresh_token() -> (r: String)
    ensures
        r@.len() == 36,
{
    uuid::Uuid::new_v4().to_string()
}

} // verus!
