//! Logging in to the web UI with the Argon2 password hash of the
//! configuration, and the rules for setting a new password.

use vstd::prelude::*;
use vstd::string::StringSliceAdditionalSpecFns;
use argon2::password_hash::rand_core::OsRng;
use argon2::password_hash::{PasswordHash, PasswordHasher, PasswordVerifier, Salt, SaltString};
use argon2::Argon2;
use crate::session::{SessionStore, SESSION_DURATION_MS, TOKEN_BYTES};
use crate::text::{hex_lower, str_eq};

verus! {

#[verifier::external_type_specification]
#[verifier::external_body]
pub struct ExPasswordHashError(argon2::password_hash::Error);

/// Whether `Argon2::default().verify_password` accepts a password (as
/// bytes) against a PHC hash string: the string parses (`PasswordHash::new`),
/// and the password, hashed with the algorithm, version, parameters and salt
/// that the string records, gives the output it records. It depends on the
/// password and the text alone.
pub uninterp spec fn argon2_accepts(password: Seq<u8>, hash: Seq<char>) -> bool;

/// `PasswordHash::new` on the hash text, then
/// `Argon2::default().verify_password` on the parsed hash: the verdict is
/// named by [`argon2_accepts`]; a text that does not parse is refused.
#[verifier::external_body]
fn argon2_verify(password: &[u8], hash: &str) -> (ok: bool)
    ensures
        ok == argon2_accepts(password@, hash@),
{
    match PasswordHash::new(hash) {
        Ok(parsed) => Argon2::default().verify_password(password, &parsed).is_ok(),
        Err(_) => false,
    }
}

/// A character of the standard Base64 alphabet.
pub open spec fn is_b64_char(c: char) -> bool {
    ('A' <= c <= 'Z') || ('a' <= c <= 'z') || ('0' <= c <= '9') || c == '+' || c == '/'
}

/// The text is the unpadded standard Base64 encoding of some 16 bytes: 22
/// characters of the alphabet, the last of which carries two bits of data
/// and four zero bits (so it is `A`, `Q`, `g` or `w`).
pub open spec fn is_b64_salt_of_16_bytes(s: Seq<char>) -> bool {
    &&& s.len() == 22
    &&& forall|i: int| 0 <= i < 22 ==> #[trigger] is_b64_char(s[i])
    &&& (s[21] == 'A' || s[21] == 'Q' || s[21] == 'g' || s[21] == 'w')
}

/// `SaltString::generate(&mut OsRng)`, as its B64 text: 16 fresh random
/// bytes from the operating system (`Salt::RECOMMENDED_LENGTH`), written by
/// `SaltString::encode_b64` in unpadded standard Base64. Which bytes are
/// drawn is left to chance; the text is always such an encoding.
#[verifier::external_body]
fn generate_salt() -> (s: String)
    ensures
        is_b64_salt_of_16_bytes(s@),
{
    SaltString::generate(&mut OsRng).as_str().to_string()
}

/// The PHC string that `Argon2::default().hash_password` gives for a
/// password (as bytes) and a salt (as B64 text), or `None` where it fails
/// (a salt text that `Salt::from_b64` refuses among them). Argon2 with fixed
/// parameters is deterministic, so this depends on the two arguments alone.
pub uninterp spec fn argon2_phc(password: Seq<u8>, salt: Seq<char>) -> Option<Seq<char>>;

/// `Argon2::default().hash_password` with the salt read by
/// `Salt::from_b64`, written as a PHC string: the result is named by
/// [`argon2_phc`]. The string records the algorithm, version, parameters and
/// salt that produced its output, and `verify_password` recomputes the output
/// from exactly those, so the password verifies against the string.
///
/// It succeeds for a password of at most `MAX_PWD_LEN` (0xFFFF_FFFF) bytes
/// and the Base64 text of 16 bytes: `Salt::from_b64` takes 4 to 64
/// characters of the Base64 alphabet, the strict unpadded decoding takes a
/// canonical encoding, 16 bytes are at least `MIN_SALT_LEN`, and the default
/// parameters are valid.
#[verifier::external_body]
fn argon2_hash(password: &[u8], salt: &str) -> (r: Result<String, argon2::password_hash::Error>)
    ensures
        password@.len() <= 0xFFFF_FFFF && is_b64_salt_of_16_bytes(salt@) ==> r is Ok,
        match r {
            Ok(h) => argon2_phc(password@, salt@) == Some(h@),
            Err(_) => argon2_phc(password@, salt@) is None,
        },
        r matches Ok(h) ==> argon2_accepts(password@, h@),
{
    let salt = Salt::from_b64(salt)?;
    Argon2::default().hash_password(password, salt).map(|h| h.to_string())
}

/// Checks a password against a PHC hash string: false when the hash string
/// does not parse, otherwise the Argon2 verdict.
pub fn verify_password(password: &str, hash: &str) -> (ok: bool)
    ensures
        ok == argon2_accepts(password.spec_bytes(), hash@),
{
    argon2_verify(password.as_bytes(), hash)
}

/// Why a login was refused.
#[derive(Debug, Clone, Copy, PartialEq, Eq, Structural)]
pub enum LoginError {
    /// The configuration holds no password hash (the server should not run).
    NoPasswordHash,
    InvalidPassword,
}

/// Logs in: with a password hash configured and a password that verifies
/// against it, starts a session and returns its token.
pub fn login(store: &mut SessionStore, password_hash: &Option<String>, password: &str, now: u64) -> (r: Result<
    String,
    LoginError,
>)
    requires
        now + SESSION_DURATION_MS <= u64::MAX,
    ensures
        password_hash is None ==> r == Err::<String, LoginError>(LoginError::NoPasswordHash),
        password_hash matches Some(h) ==> (r is Ok <==> argon2_accepts(password.spec_bytes(), h@)),
        password_hash matches Some(h) && !argon2_accepts(password.spec_bytes(), h@) ==> r == Err::<
            String,
            LoginError,
        >(LoginError::InvalidPassword),
        r is Err ==> final(store)@ == old(store)@,
        r matches Ok(token) ==> final(store)@ == old(store)@.insert(token@, (now + SESSION_DURATION_MS) as u64)
            && token@.len() == 2 * TOKEN_BYTES && exists|b: Seq<u8>| b.len() == TOKEN_BYTES && token@ == hex_lower(b),
{
    let hash = match password_hash {
        Some(h) => h,
        None => {
            return Err(LoginError::NoPasswordHash);
        },
    };
    if !verify_password(password, hash.as_str()) {
        return Err(LoginError::InvalidPassword);
    }
    Ok(store.create_session(now))
}

/// Checks a request's session token: it must be present and name a session
/// that has not expired. An expired session is removed.
pub fn authorize(store: &mut SessionStore, token: Option<&str>, now: u64) -> (ok: bool)
    ensures
        match token {
            None => !ok && final(store)@ == old(store)@,
            Some(t) => ok == (old(store)@.contains_key(t@) && old(store)@[t@] > now) && final(store)@ == if old(
                store,
            )@.contains_key(t@) && old(store)@[t@] <= now {
                old(store)@.remove(t@)
            } else {
                old(store)@
            },
        },
{
    match token {
        None => false,
        Some(t) => store.validate_session(t, now),
    }
}

/// Shortest accepted password, in bytes.
pub const MIN_PASSWORD_LEN: usize = 8;

/// Why a new password was refused.
#[derive(Debug, Clone, Copy, PartialEq, Eq, Structural)]
pub enum PasswordError {
    Empty,
    TooShort,
    Mismatch,
    /// Hashing failed.
    HashFailed,
}

/// A new password must be non-empty and at least eight bytes long.
pub fn check_new_password(password: &str) -> (r: Result<(), PasswordError>)
    ensures
        password.len() == 0 ==> r == Err::<(), PasswordError>(PasswordError::Empty),
        0 < password.len() < MIN_PASSWORD_LEN ==> r == Err::<(), PasswordError>(PasswordError::TooShort),
        password.len() >= MIN_PASSWORD_LEN ==> r is Ok,
{
    if password.len() == 0 {
        Err(PasswordError::Empty)
    } else if password.len() < MIN_PASSWORD_LEN {
        Err(PasswordError::TooShort)
    } else {
        Ok(())
    }
}

/// The confirmation must repeat the password exactly.
pub fn confirm_password(password: &str, confirm: &str) -> (r: Result<(), PasswordError>)
    ensures
        r is Ok <==> password@ == confirm@,
        r is Err ==> r == Err::<(), PasswordError>(PasswordError::Mismatch),
{
    if str_eq(password, confirm) {
        Ok(())
    } else {
        Err(PasswordError::Mismatch)
    }
}

/// Hashes an accepted password with Argon2 and a fresh random salt (the
/// Base64 text of 16 random bytes), as a PHC string. Which salt is drawn is
/// left to chance; the result is the Argon2 hash of the password with that
/// salt. It succeeds for every password of at most 0xFFFF_FFFF bytes.
pub fn hash_password(password: &str) -> (r: Result<String, PasswordError>)
    ensures
        password.spec_bytes().len() <= 0xFFFF_FFFF ==> r is Ok,
        r matches Ok(h) ==> exists|salt: Seq<char>|
            is_b64_salt_of_16_bytes(salt) && argon2_phc(password.spec_bytes(), salt) == Some(h@),
        r matches Ok(h) ==> argon2_accepts(password.spec_bytes(), h@),
        r is Err ==> r == Err::<String, PasswordError>(PasswordError::HashFailed),
{
    let salt = generate_salt();
    match argon2_hash(password.as_bytes(), salt.as_str()) {
        Ok(h) => Ok(h),
        Err(_) => Err(PasswordError::HashFailed),
    }
}

} // verus!
