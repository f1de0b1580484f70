//! Tokens: how they are made, and by which hash they are kept.

use vstd::prelude::*;
use vstd::string::StringSliceAdditionalSpecFns;
use vstd::utf8::encode_utf8;

use super::error::{auth_outcome, AuthError, AuthFault};
use super::password::option_bytes;
use super::random::random_bytes;
use crate::digest::{base64_url, base64_url_of, sha256_hex, sha256_hex_text};

verus! {

/// How many random bytes make a token.
pub const TOKEN_BYTES: usize = 32;

/// The token that random bytes make.
pub open spec fn token_from(bytes: Option<Seq<u8>>) -> Result<Seq<char>, AuthFault> {
    match bytes {
        Some(known) => Ok(base64_url(known)),
        None => Err(AuthFault::Internal("生成登录凭证失败"@)),
    }
}

/// Makes a token of random bytes.
pub fn token_of(bytes: Option<Vec<u8>>) -> (result: Result<String, AuthError>)
    ensures
        auth_outcome(result) == token_from(option_bytes(bytes)),
{
    match bytes {
        Some(known) => Ok(base64_url_of(known.as_slice())),
        None => Err(AuthError::Internal("生成登录凭证失败".to_owned())),
    }
}

/// Makes a token of its own.
pub fn generate_token() -> (result: Result<String, AuthError>)
    ensures
        exists|bytes: Option<Seq<u8>>|
            auth_outcome(result) == #[trigger] token_from(bytes) && (bytes is Some
                ==> bytes->0.len() == TOKEN_BYTES),
{
    let bytes = random_bytes(TOKEN_BYTES);
    let ghost used = option_bytes(bytes);
    let result = token_of(bytes);
    assert(auth_outcome(result) == token_from(used));
    result
}

/// The hash by which a token is kept.
pub open spec fn token_hash(token: Seq<char>) -> Seq<char> {
    sha256_hex(encode_utf8(token))
}

pub fn hash_token(token: &str) -> (hash: String)
    ensures
        hash@ == token_hash(token@),
        hash@.len() == 64,
{
    sha256_hex_text(token.as_bytes())
}

} // verus!
