//! Passwords: which are accepted, and how they are hashed and verified.

use argon2::{PasswordHasher, PasswordVerifier};
use vstd::prelude::*;

use super::error::{auth_fault, auth_outcome, invalid_input, AuthError, AuthFault};
use super::random::random_bytes;
use crate::pieces::option_text;
use crate::text::chars_of;

verus! {

/// How many random bytes salt a hash.
pub const SALT_BYTES: usize = 16;

pub open spec fn short_password_fault() -> AuthFault {
    AuthFault::InvalidInput("密码至少需要 8 个字符"@)
}

/// What is wrong with a password.
pub open spec fn password_fault(password: Seq<char>) -> Option<AuthFault> {
    if password.len() < 8 {
        Some(short_password_fault())
    } else {
        None
    }
}

/// A password has at least eight characters.
pub fn validate_password(password: &str) -> (result: Result<(), AuthError>)
    ensures
        auth_fault(result) == password_fault(password@),
{
    if password.unicode_len() < 8 {
        return Err(invalid_input("密码至少需要 8 个字符"));
    }
    Ok(())
}

/// The fewest bytes that a salt can have.
pub const MIN_SALT_BYTES: usize = 3;

/// The hash of a password under a salt, in text form with the salt and the parameters.
pub uninterp spec fn argon2_hash(password: Seq<char>, salt: Seq<u8>) -> Option<Seq<char>>;

/// The text is a hash in text form: the algorithm, the parameters, the salt and the digest, each
/// behind a dollar sign.
pub uninterp spec fn is_password_hash(text: Seq<char>) -> bool;

/// The password belongs to the hash in text form.
pub uninterp spec fn argon2_verifies(password: Seq<char>, hash: Seq<char>) -> bool;

/// A character that stands between the parts of a hash in text form.
pub open spec fn separates(c: char) -> bool {
    c == '$' || c == ','
}

/// The number of lanes is set at the position.
pub open spec fn sets_lanes(hash: Seq<char>, at: int) -> bool {
    0 < at && at + 1 < hash.len() && separates(hash[at - 1]) && hash[at] == 'p' && hash[at + 1]
        == '='
}

/// The number of lanes that is set at the position has more than eight digits. The largest number
/// of lanes, 16777215, has eight.
pub open spec fn is_wide(hash: Seq<char>, at: int) -> bool {
    at + 10 < hash.len() && forall|i: int|
        at + 2 <= i < at + 11 ==> !separates(#[trigger] hash[i])
}

/// Among the first positions, the last that sets the number of lanes asks for too many.
pub open spec fn has_wide_lanes(hash: Seq<char>, positions: int) -> bool
    decreases positions,
{
    if positions <= 0 {
        false
    } else if sets_lanes(hash, positions - 1) {
        is_wide(hash, positions - 1)
    } else {
        has_wide_lanes(hash, positions - 1)
    }
}

/// The hash asks for more lanes than there can be. Where the number is set more than once, the
/// last time counts.
pub open spec fn asks_for_too_many_lanes(hash: Seq<char>) -> bool {
    has_wide_lanes(hash, hash.len() as int)
}

/// `argon2::Argon2::hash_password` with the default parameters, one lane among them, and the given
/// salt, written as a text. The outcome depends on the password and the salt alone. The text is a
/// hash, and the password belongs to it. Which longer salts are refused, and what else a hash
/// looks like, is not stated. A salt of fewer bytes than required has no text form.
#[verifier::external_body]
fn hash_with_salt(password: &str, salt: &[u8]) -> (hash: Option<String>)
    requires
        salt@.len() >= MIN_SALT_BYTES,
    ensures
        option_text(hash) == argon2_hash(password@, salt@),
        hash is Some ==> is_password_hash(hash->0@),
        hash is Some ==> !asks_for_too_many_lanes(hash->0@),
        hash is Some ==> argon2_verifies(password@, hash->0@),
{
    let salt = argon2::password_hash::SaltString::encode_b64(salt).ok()?;
    let hash = argon2::Argon2::default().hash_password(password.as_bytes(), &salt).ok()?;
    Some(hash.to_string())
}

/// `argon2::PasswordHash::new`: whether it reads a hash from the text. That depends on the text
/// alone. Which texts are hashes is not stated.
#[verifier::external_body]
fn reads_as_hash(text: &str) -> (reads: bool)
    ensures
        reads == is_password_hash(text@),
{
    argon2::PasswordHash::new(text).is_ok()
}

/// `argon2::Argon2::verify_password` on the hash that `argon2::PasswordHash::new` reads from the
/// text: whether the password belongs to it. That depends on the two texts alone. When a password
/// does not belong to a hash is not stated. The number of lanes is multiplied by eight as a number
/// of 32 bits, so it must not be too large. As much memory is taken as the hash asks for.
#[verifier::external_body]
fn verify_with_hash(password: &str, hash: &str) -> (belongs: bool)
    requires
        is_password_hash(hash@),
        !asks_for_too_many_lanes(hash@),
    ensures
        belongs == argon2_verifies(password@, hash@),
{
    match argon2::PasswordHash::new(hash) {
        Ok(parsed) => {
            argon2::Argon2::default().verify_password(password.as_bytes(), &parsed).is_ok()
        },
        Err(_) => false,
    }
}

/// Whether the hash asks for more lanes than there can be.
fn too_many_lanes(hash: &str) -> (found: bool)
    ensures
        found == asks_for_too_many_lanes(hash@),
{
    let chars = chars_of(hash);
    let mut found = false;
    let mut i: usize = 0;
    while i < chars.len()
        invariant
            chars@ == hash@,
            i <= chars@.len(),
            found == has_wide_lanes(hash@, i as int),
        decreases chars@.len() - i,
    {
        if i > 0 && chars.len() - i > 1 && (chars[i - 1] == '$' || chars[i - 1] == ',') && chars[i]
            == 'p' && chars[i + 1] == '=' {
            let mut wide: bool = chars.len() - i > 10;
            let mut j: usize = 0;
            while wide && j < 9
                invariant
                    chars@ == hash@,
                    i < chars@.len(),
                    j <= 9,
                    wide ==> i + 10 < chars.len() && forall|k: int|
                        i + 2 <= k < i + 2 + j ==> !separates(#[trigger] hash@[k]),
                    is_wide(hash@, i as int) ==> wide,
                decreases 9 - j,
            {
                if chars[i + 2 + j] == '$' || chars[i + 2 + j] == ',' {
                    assert(separates(hash@[i + 2 + j]));
                    wide = false;
                }
                j = j + 1;
            }
            found = wide;
        }
        i = i + 1;
    }
    found
}

/// What becomes of a password, given random bytes.
pub open spec fn hashed_with(password: Seq<char>, salt: Option<Seq<u8>>) -> Result<
    Seq<char>,
    AuthFault,
> {
    if password.len() < 8 {
        Err(short_password_fault())
    } else {
        match salt {
            Some(bytes) => if bytes.len() < MIN_SALT_BYTES {
                Err(AuthFault::Internal("密码哈希失败"@))
            } else {
                match argon2_hash(password, bytes) {
                    Some(hash) => Ok(hash),
                    None => Err(AuthFault::Internal("密码哈希失败"@)),
                }
            },
            None => Err(AuthFault::Internal("密码哈希失败"@)),
        }
    }
}

/// Random bytes that were drawn for a salt: nothing, or as many as a salt takes.
pub open spec fn is_salt_draw(salt: Option<Seq<u8>>) -> bool {
    salt is Some ==> salt->0.len() == SALT_BYTES
}

pub open spec fn option_bytes(bytes: Option<Vec<u8>>) -> Option<Seq<u8>> {
    match bytes {
        Some(known) => Some(known@),
        None => None,
    }
}

/// Hashes a password with the given random bytes.
pub fn hash_password_with(password: &str, salt: Option<Vec<u8>>) -> (result: Result<
    String,
    AuthError,
>)
    ensures
        auth_outcome(result) == hashed_with(password@, option_bytes(salt)),
        result is Ok ==> verification(password@, result->Ok_0@) == Ok::<bool, AuthFault>(
            true,
        ),
{
    match validate_password(password) {
        Ok(_) => {},
        Err(error) => return Err(error),
    }
    match salt {
        Some(bytes) => {
            if bytes.len() < MIN_SALT_BYTES {
                return Err(AuthError::Internal("密码哈希失败".to_owned()));
            }
            match hash_with_salt(password, bytes.as_slice()) {
                Some(hash) => Ok(hash),
                None => Err(AuthError::Internal("密码哈希失败".to_owned())),
            }
        },
        None => Err(AuthError::Internal("密码哈希失败".to_owned())),
    }
}

/// Hashes a password with a salt of its own. The password belongs to the hash.
pub fn hash_password(password: &str) -> (result: Result<String, AuthError>)
    ensures
        password@.len() < 8 ==> auth_outcome(result) == Err::<Seq<char>, AuthFault>(
            short_password_fault(),
        ),
        exists|salt: Option<Seq<u8>>|
            is_salt_draw(salt) && auth_outcome(result) == #[trigger] hashed_with(password@, salt),
        result is Ok ==> verification(password@, result->Ok_0@) == Ok::<bool, AuthFault>(
            true,
        ),
{
    let salt = random_bytes(SALT_BYTES);
    let ghost used = option_bytes(salt);
    let result = hash_password_with(password, salt);
    assert(auth_outcome(result) == hashed_with(password@, used));
    result
}

/// What is answered to a password and a hash. No password belongs to a hash that asks for too many
/// lanes.
pub open spec fn verification(password: Seq<char>, hash: Seq<char>) -> Result<bool, AuthFault> {
    if !is_password_hash(hash) {
        Err(AuthFault::Internal("密码哈希格式无效"@))
    } else {
        Ok(!asks_for_too_many_lanes(hash) && argon2_verifies(password, hash))
    }
}

/// Whether the password belongs to the hash.
pub fn verify_password(password: &str, password_hash: &str) -> (result: Result<bool, AuthError>)
    ensures
        match result {
            Ok(belongs) => verification(password@, password_hash@) == Ok::<bool, AuthFault>(
                belongs,
            ),
            Err(error) => verification(password@, password_hash@) == Err::<bool, AuthFault>(error@),
        },
{
    if !reads_as_hash(password_hash) {
        return Err(AuthError::Internal("密码哈希格式无效".to_owned()));
    }
    if too_many_lanes(password_hash) {
        return Ok(false);
    }
    Ok(verify_with_hash(password, password_hash))
}

/// A password is accepted exactly if it has eight characters or more, and hashed exactly if there is
/// a salt for it.
pub proof fn passwords_have_eight_characters(password: Seq<char>, salt: Option<Seq<u8>>)
    ensures
        password_fault(password) is None <==> password.len() >= 8,
        password.len() < 8 ==> hashed_with(password, salt) is Err && hashed_with(
            password,
            salt,
        )->Err_0 is InvalidInput,
        hashed_with(password, None) is Err,
        password.len() >= 8 && salt is Some && salt->0.len() >= 3 ==> (hashed_with(
            password,
            salt,
        ) is Ok <==> argon2_hash(password, salt->0) is Some),
        hashed_with(password, salt) matches Ok(hash) ==> salt is Some && argon2_hash(
            password,
            salt->0,
        ) == Some(hash),
{
}

/// What is no hash is refused; a hash that asks for no unreasonable number of lanes is verified.
pub proof fn hashes_are_verified(password: Seq<char>, hash: Seq<char>)
    ensures
        verification(password, hash) is Err <==> !is_password_hash(hash),
        is_password_hash(hash) && !asks_for_too_many_lanes(hash) ==> verification(password, hash)
            == Ok::<bool, AuthFault>(argon2_verifies(password, hash)),
        is_password_hash(hash) && asks_for_too_many_lanes(hash) ==> verification(password, hash)
            == Ok::<bool, AuthFault>(false),
{
}

proof fn lemma_no_later_lanes(hash: Seq<char>, from: int, to: int)
    requires
        from <= to,
        forall|at: int| from <= at < to ==> !#[trigger] sets_lanes(hash, at),
        from >= 0,
    ensures
        has_wide_lanes(hash, to) == has_wide_lanes(hash, from),
    decreases to - from,
{
    if from < to {
        assert(!sets_lanes(hash, to - 1));
        lemma_no_later_lanes(hash, from, to - 1);
    }
}

/// A hash asks for too many lanes exactly if its last number of lanes has nine digits or more. The
/// number of lanes follows `p=`, after a dollar sign or a comma, and goes up to the next of these.
pub proof fn too_many_lanes_have_nine_digits(
    before: Seq<char>,
    mark: char,
    digits: Seq<char>,
    rest: Seq<char>,
)
    requires
        mark == '$' || mark == ',',
        forall|i: int| 0 <= i < digits.len() ==> '0' <= #[trigger] digits[i] <= '9',
        rest.len() > 0 ==> rest[0] == '$' || rest[0] == ',',
        forall|at: int|
            #![trigger rest[at]]
            0 < at && at + 1 < rest.len() && (rest[at - 1] == '$' || rest[at - 1] == ',') ==> !(
            rest[at] == 'p' && rest[at + 1] == '='),
    ensures
        asks_for_too_many_lanes(before + seq![mark, 'p', '='] + digits + rest) <==> digits.len()
            >= 9,
{
    let hash = before + seq![mark, 'p', '='] + digits + rest;
    let at = (before.len() + 1) as int;
    let end = at + 2 + digits.len();
    assert(hash[at - 1] == mark);
    assert(hash[at] == 'p');
    assert(hash[at + 1] == '=');
    assert(sets_lanes(hash, at));
    assert forall|k: int| at + 1 <= k < hash.len() implies !#[trigger] sets_lanes(hash, k) by {
        if k == at + 1 {
            assert(hash[k] == '=');
        } else if k < end {
            assert(hash[k] == digits[k - at - 2]);
        } else if k == end {
            assert(hash[k] == rest[0]);
        } else {
            assert(hash[k] == rest[k - end]);
            assert(hash[k - 1] == rest[k - end - 1]);
            if k + 1 < hash.len() {
                assert(hash[k + 1] == rest[k - end + 1]);
            }
        }
    }
    lemma_no_later_lanes(hash, at + 1, hash.len() as int);
    assert(has_wide_lanes(hash, at + 1) == is_wide(hash, at));
    if digits.len() >= 9 {
        assert forall|i: int| at + 2 <= i < at + 11 implies !separates(#[trigger] hash[i]) by {
            assert(hash[i] == digits[i - at - 2]);
        }
    } else if rest.len() > 0 {
        assert(hash[end] == rest[0]);
        assert(separates(hash[end]));
        assert(!is_wide(hash, at));
    }
}

/// Passwords are salted with 16 random bytes.
pub proof fn salts_have_16_bytes(bytes: Seq<u8>)
    ensures
        is_salt_draw(Some(bytes)) <==> bytes.len() == 16,
        is_salt_draw(None),
{
}

} // verus!
