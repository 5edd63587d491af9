//! The credential store boundary and the token authority: password hashing
//! and verification behind an opaque one-way function, token generation, and
//! the issue/authenticate pair against the catalog.

use vstd::prelude::*;
use rand::Rng;

use crate::catalog::{
    lemma_token_row_unique, token_taken, token_user, user_id_taken, wf, Catalog,
};
use crate::errors::ApiError;
use crate::models::AuthToken;
use crate::util::now_millis;

verus! {

/// Whether a clear-text password matches a stored digest. The password
/// hashing primitive is an opaque boundary: this names the outcome of its
/// verification, a function of the two arguments alone.
pub uninterp spec fn digest_matches(password: Seq<char>, digest: Seq<char>) -> bool;

/// Relies on bcrypt's `hash` with `DEFAULT_COST`: it draws a random salt and
/// returns a digest that `verify` accepts for the same password, or an error
/// only on catastrophic failure of the primitive (the cost is fixed and
/// valid, so only a failure of the OS randomness source remains). A produced
/// digest is always the 60-character bcrypt form.
#[verifier::external_body]
fn bcrypt_hash(password: &str) -> (r: Option<String>)
    ensures
        r matches Some(digest) ==> digest_matches(password@, digest@) && digest@.len() == 60,
{
    bcrypt::hash(password, bcrypt::DEFAULT_COST).ok()
}

/// Hashes a password for storage. Failure of the underlying primitive is not
/// attributable to caller input and surfaces as `Internal`.
pub fn hash_password(password: &str) -> (r: Result<String, ApiError>)
    ensures
        r matches Ok(digest) ==> digest_matches(password@, digest@) && digest@.len() == 60,
        r is Err ==> r == Err::<String, ApiError>(ApiError::Internal),
{
    match bcrypt_hash(password) {
        Some(digest) => Ok(digest),
        None => Err(ApiError::Internal),
    }
}

/// Relies on bcrypt's `verify`: whether the password matches the digest, a
/// deterministic function of the two arguments, named by [`digest_matches`].
/// A malformed digest never raises; it yields `false` (fail closed), and a
/// digest that is not exactly the 60 characters of the bcrypt form is
/// malformed by construction.
#[verifier::external_body]
pub fn verify_password(password: &str, digest: &str) -> (r: bool)
    ensures
        r == digest_matches(password@, digest@),
        digest@.len() != 60 ==> r == false,
{
    bcrypt::verify(password, digest).unwrap_or(false)
}

/// A character a bearer token may contain.
pub open spec fn token_char(c: char) -> bool {
    ('a' <= c && c <= 'z') || ('A' <= c && c <= 'Z') || ('0' <= c && c <= '9')
}

/// Relies on rand's `thread_rng` sampling the `Alphanumeric` distribution:
/// 32 uniformly drawn alphanumeric ASCII characters. Unpredictability is the
/// point of the draw, so nothing is promised beyond length and character
/// class; two calls may or may not collide.
#[verifier::external_body]
pub fn generate_token() -> (token: String)
    ensures
        token@.len() == 32,
        forall|i: int| 0 <= i < 32 ==> token_char(#[trigger] token@[i]),
{
    rand::thread_rng().sample_iter(&rand::distributions::Alphanumeric).take(32).map(
        char::from,
    ).collect()
}

/// Issues a bearer token for an existing user: one durable token row is
/// inserted and the token is returned. The freshly drawn token string may —
/// with negligible probability — collide with an existing row; then nothing
/// changes and `Internal` is reported.
pub fn create_auth_token(catalog: &mut Catalog, user_id: &String) -> (r: Result<
    AuthToken,
    ApiError,
>)
    requires
        wf(old(catalog)@),
        user_id_taken(old(catalog)@, user_id@),
    ensures
        wf(final(catalog)@),
        r matches Ok(at) ==> {
            &&& at.token@.len() == 32
            &&& forall|i: int| 0 <= i < at.token@.len() ==> token_char(#[trigger] at.token@[i])
            &&& !token_taken(old(catalog)@, at.token@)
            &&& final(catalog)@.tokens.len() == old(catalog)@.tokens.len() + 1
            &&& final(catalog)@.tokens.drop_last() == old(catalog)@.tokens
            &&& final(catalog)@.tokens.last().token == at.token@
            &&& final(catalog)@.tokens.last().user_id == user_id@
            &&& final(catalog)@.users == old(catalog)@.users
            &&& final(catalog)@.files == old(catalog)@.files
            &&& token_user(final(catalog)@, at.token@) == Some(user_id@)
        },
        r is Err ==> final(catalog)@ == old(catalog)@ && r == Err::<AuthToken, ApiError>(
            ApiError::Internal,
        ),
{
    let token = generate_token();
    let now = now_millis();
    match catalog.insert_token(token.clone(), user_id.clone(), now) {
        Ok(()) => {
            proof {
                let c2 = catalog@;
                assert(c2.tokens.drop_last() =~= old(catalog)@.tokens);
                lemma_token_row_unique(c2, c2.tokens.len() - 1);
            }
            Ok(AuthToken { token })
        },
        Err(e) => Err(e),
    }
}

/// The authentication gate every protected operation passes first: resolve a
/// bearer token to its owning user id. An absent token — missing, malformed
/// or never issued, indistinguishably — reports `Unauthorized`.
pub fn verify_auth_token(catalog: &Catalog, token: &String) -> (r: Result<String, ApiError>)
    requires
        wf(catalog@),
    ensures
        r is Ok <==> token_taken(catalog@, token@),
        r matches Ok(uid) ==> token_user(catalog@, token@) == Some(uid@),
        r is Err ==> token_user(catalog@, token@) is None && r == Err::<String, ApiError>(
            ApiError::Unauthorized,
        ),
{
    match catalog.token_owner(token) {
        Some(uid) => Ok(uid),
        None => Err(ApiError::Unauthorized),
    }
}

} // verus!
