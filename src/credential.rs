use vstd::prelude::*;
use vstd::string::StrSliceExecFns;

verus! {

/// The fewest characters a secret may have when an account is created or
/// its secret is replaced.
pub const MIN_SECRET_LEN: usize = 8;

/// Whether bcrypt accepts `secret` against the stored hash `hash`: `true`
/// exactly when `bcrypt::verify` returns `Ok(true)`.
pub uninterp spec fn bcrypt_accepts(secret: Seq<char>, hash: Seq<char>) -> bool;

/// The bcrypt cost used for every stored hash.
const HASH_COST: u32 = 4;

/// Relies on `bcrypt::hash`: a 60-character bcrypt string whose salt is drawn
/// at random, so the text itself is not a function of the secret; the source
/// shows that `bcrypt::verify` re-derives the same hash from that salt and
/// cost, so the secret is accepted against it. An error (a failed random
/// draw) is handed back as `None`.
#[verifier::external_body]
pub(crate) fn hash_credential(secret: &str) -> (r: Option<String>)
    ensures
        r matches Some(h) ==> bcrypt_accepts(secret@, h@),
{
    bcrypt::hash(secret, HASH_COST).ok()
}

/// Relies on `bcrypt::verify`: whether the secret hashes, under the salt and
/// cost read from `hash`, to the digest stored there; a malformed hash counts
/// as a mismatch.
#[verifier::external_body]
pub(crate) fn credential_matches(secret: &str, hash: &str) -> (r: bool)
    ensures
        r == bcrypt_accepts(secret@, hash@),
{
    bcrypt::verify(secret, hash).unwrap_or(false)
}

/// Whether a secret is long enough to register: at least `MIN_SECRET_LEN`
/// characters.
pub fn secret_is_valid(secret: &str) -> (r: bool)
    ensures
        r == (secret@.len() >= MIN_SECRET_LEN),
{
    secret.unicode_len() >= MIN_SECRET_LEN
}

} // verus!
