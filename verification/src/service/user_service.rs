//! API keys: how they are made, hashed and checked.

use sha2::Digest;
use vstd::prelude::*;
use crate::api::CreateApiKeyRequest;
use crate::error::{AppError, AppErrorView};
use crate::models::user::User;
use crate::numbers::{hex_digits, hex_of_bytes, to_hex, to_hex_digits};

verus! {

/// The SHA-256 digest of a run of bytes.
pub uninterp spec fn sha256(data: Seq<u8>) -> Seq<u8>;

/// The SHA-256 digest of `data`, by `sha2::Sha256::digest`: the hash of the
/// bytes handed in, a function of them alone.
#[verifier::external_body]
fn sha256_digest(data: &[u8]) -> (out: Vec<u8>)
    ensures
        out@ == sha256(data@),
{
    sha2::Sha256::digest(data).to_vec()
}

/// The 128-bit value of a fresh random identifier, by `uuid::Uuid::new_v4`
/// read with `Uuid::as_u128`. Nothing is claimed of the value.
#[verifier::external_body]
fn random_id() -> (id: u128) {
    uuid::Uuid::new_v4().as_u128()
}

/// The hash under which the key `key` is stored: the SHA-256 digest of its
/// UTF-8 bytes in lower-case hexadecimal.
pub open spec fn key_hash(key: Seq<char>) -> Seq<char> {
    hex_of_bytes(sha256(vstd::utf8::encode_utf8(key)))
}

pub fn hash_api_key(key: &str) -> (hash: String)
    ensures
        hash@ == key_hash(key@),
{
    let digest = sha256_digest(key.as_bytes());
    to_hex(&digest)
}

/// The text of the API key made from the identifier `id`: `tf_` and the
/// identifier's 32 hexadecimal digits.
pub open spec fn api_key_text(id: u128) -> Seq<char> {
    "tf_"@ + hex_digits(id as nat, 32)
}

/// Makes the API key of an identifier.
pub fn api_key_of(id: u128) -> (key: String)
    ensures
        key@ == api_key_text(id),
{
    let mut key: String = "tf_".to_owned();
    let digits = to_hex_digits(id, 32);
    key.append(digits.as_str());
    key
}

/// Makes a fresh API key from a random identifier.
pub fn generate_api_key() -> (key: String)
    ensures
        exists|id: u128| key@ == #[trigger] api_key_text(id),
{
    let id: u128 = random_id();
    let key = api_key_of(id);
    assert(key@ == api_key_text(id));
    key
}

/// A key that was just made: its text, shown once, and the hash that is
/// stored.
#[derive(Debug, Clone)]
pub struct IssuedKey {
    pub key: String,
    pub key_hash: String,
}

/// Issues a key for a request. A request without a label is refused; no
/// other request is.
pub fn issue_api_key(req: &CreateApiKeyRequest) -> (issued: Result<IssuedKey, AppError>)
    ensures
        req.label@.len() == 0 <==> issued is Err,
        issued matches Err(e) ==> e@ == AppErrorView::Validation("label cannot be empty"@),
        issued matches Ok(k) ==> k.key_hash@ == key_hash(k.key@) && (exists|id: u128|
            k.key@ == #[trigger] api_key_text(id)),
{
    if req.label.as_str().unicode_len() == 0 {
        return Err(AppError::Validation("label cannot be empty".to_owned()));
    }
    let key = generate_api_key();
    let key_hash = hash_api_key(key.as_str());
    Ok(IssuedKey { key, key_hash })
}

/// The user that a key hash was found to belong to, or the refusal where it
/// belongs to none.
pub fn authenticated(found: Option<User>) -> (user: Result<User, AppError>)
    ensures
        found matches Some(u) ==> user == Ok::<User, AppError>(u),
        found is None ==> (user matches Err(e) && e@ == AppErrorView::Unauthorized),
{
    match found {
        Some(u) => Ok(u),
        None => Err(AppError::Unauthorized),
    }
}

/// What a deletion amounts to: nothing to report where a key was deleted, an
/// error where there was none to delete.
pub fn deletion_outcome(deleted: bool) -> (outcome: Result<(), AppError>)
    ensures
        deleted <==> outcome is Ok,
        outcome matches Err(e) ==> e@ == AppErrorView::NotFound("api key not found"@),
{
    if deleted {
        Ok(())
    } else {
        Err(AppError::NotFound("api key not found".to_owned()))
    }
}

/// Whether the first user has yet to be made: only where there is none.
pub fn needs_admin(user_count: i64) -> (yes: bool)
    ensures
        yes == (user_count <= 0),
{
    user_count <= 0
}

/// How a request is authenticated.
#[derive(Debug, Clone)]
pub enum AuthPlan {
    /// By the user whose key has this hash.
    ByKeyHash(String),
    /// As the first user: a request from this machine that shows no key.
    FirstUser,
    /// Not at all.
    Refuse,
}

/// Decides how a request is authenticated: by its key where it shows one;
/// without a key, as the first user where it comes from this machine, and
/// not at all where it comes from elsewhere.
pub fn auth_plan(api_key: Option<&str>, from_loopback: bool) -> (plan: AuthPlan)
    ensures
        match api_key {
            Some(key) => plan matches AuthPlan::ByKeyHash(h) && h@ == key_hash(key@),
            None => if from_loopback {
                plan is FirstUser
            } else {
                plan is Refuse
            },
        },
{
    match api_key {
        Some(key) => AuthPlan::ByKeyHash(hash_api_key(key)),
        None => if from_loopback {
            AuthPlan::FirstUser
        } else {
            AuthPlan::Refuse
        },
    }
}

} // verus!
