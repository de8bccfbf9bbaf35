//! Password hashing with Argon2 (default parameters) in the PHC string
//! format, and checking a password against such a hash.
//!
//! The hashing itself is the `argon2` crate's; the items marked
//! `external_body` below are the only places that call it, and their
//! contracts are what the rest of the library relies on.

use argon2::password_hash::rand_core::OsRng;
use argon2::password_hash::{PasswordHash, PasswordHasher, PasswordVerifier, SaltString};
use argon2::Argon2;
use vstd::prelude::*;

verus! {

/// The error type of the `password-hash` crate, carried through unread.
#[verifier::external_type_specification]
#[verifier::external_body]
pub struct ExPasswordHashError(argon2::password_hash::Error);

/// Hashing a password failed.
#[derive(Debug, Clone, Copy, PartialEq, Eq, Structural)]
pub enum PasswordError {
    Hashing,
}

/// The PHC string that `Argon2::default().hash_password(password, salt)`
/// produces for `password` (as UTF-8 bytes) and the B64 salt `salt`, or
/// `None` when the salt is not a valid B64 salt or hashing fails.
pub uninterp spec fn argon2_phc(password: Seq<char>, salt: Seq<char>) -> Option<Seq<char>>;

/// Whether `PasswordHash::new` accepts `hash` as a PHC string.
pub uninterp spec fn phc_parses(hash: Seq<char>) -> bool;

/// Whether `Argon2::default().verify_password(password, parsed)` accepts
/// `password` (as UTF-8 bytes) against the parsed PHC string `hash`.
pub uninterp spec fn argon2_accepts(password: Seq<char>, hash: Seq<char>) -> bool;

/// A character of the standard Base64 alphabet.
pub open spec fn is_b64_char(c: char) -> bool {
    ('a' <= c <= 'z') || ('A' <= c <= 'Z') || ('0' <= c <= '9') || c == '+' || c == '/'
}

/// A salt as `SaltString::generate` draws it: 16 bytes in canonical
/// unpadded Base64, that is 22 characters of the Base64 alphabet whose last
/// one carries two data bits followed by four zero bits (`A`, `Q`, `g` or `w`).
pub open spec fn is_drawn_salt(salt: Seq<char>) -> bool {
    &&& salt.len() == 22
    &&& forall|i: int| 0 <= i < salt.len() ==> is_b64_char(#[trigger] salt[i])
    &&& (salt[21] == 'A' || salt[21] == 'Q' || salt[21] == 'g' || salt[21] == 'w')
}

/// A password whose UTF-8 encoding is surely within Argon2's limit of
/// `u32::MAX` bytes (at most four bytes per character).
pub open spec fn hashable_password(password: Seq<char>) -> bool {
    password.len() <= 1073741823
}

/// The head of every PHC string that `Argon2::default()` writes: the
/// algorithm, the version (0x13) and the default parameters.
pub open spec fn default_phc_head() -> Seq<char> {
    seq![
        '$', 'a', 'r', 'g', 'o', 'n', '2', 'i', 'd', '$', 'v', '=', '1', '9', '$', 'm', '=', '1', '9',
        '4', '5', '6', ',', 't', '=', '2', ',', 'p', '=', '1', '$',
    ]
}

/// `h` is a PHC string as `Argon2::default()` writes it for `salt`: the
/// head, the salt, a `$`, and the 32-byte output in 43 Base64 characters.
pub open spec fn is_default_phc(h: Seq<char>, salt: Seq<char>) -> bool {
    let n = default_phc_head().len() + salt.len();
    &&& h.len() == n + 44
    &&& h.take(default_phc_head().len() as int) == default_phc_head()
    &&& h.subrange(default_phc_head().len() as int, n as int) == salt
    &&& h[n as int] == '$'
    &&& forall|i: int| n + 1 <= i < h.len() ==> is_b64_char(#[trigger] h[i])
}

/// Calls `SaltString::generate(&mut OsRng)`: 16 random bytes from the
/// operating system, encoded as canonical unpadded B64 (`encode_b64`). The
/// contract claims the shape of that encoding (`is_drawn_salt`); its value
/// is left free, as it is random.
#[verifier::external_body]
fn generate_salt() -> (salt: String)
    ensures
        is_drawn_salt(salt@),
{
    SaltString::generate(&mut OsRng).as_str().to_string()
}

/// Calls `SaltString::from_b64(salt)` and then
/// `Argon2::default().hash_password(password.as_bytes(), &salt)`, rendering
/// the hash as a PHC string. The contract claims that the result is the one
/// named by `argon2_phc` for these arguments; that it succeeds for a salt
/// drawn as `SaltString::generate` draws it and a password within Argon2's
/// length limit (`from_b64` accepts such a salt, it decodes to 16 bytes,
/// and `verify_inputs` then checks only the lengths); that the string has
/// the shape `Display` writes for the default parameters; and that it
/// parses and verifies `password` (what `verify_password` of the
/// `password-hash` crate checks by hashing again with the stored salt and
/// parameters).
#[verifier::external_body]
fn hash_with_salt(password: &str, salt: &str) -> (r: Result<String, argon2::password_hash::Error>)
    ensures
        r is Ok <==> argon2_phc(password@, salt@) is Some,
        r matches Ok(h) ==> argon2_phc(password@, salt@) == Some(h@),
        is_drawn_salt(salt@) && hashable_password(password@) ==> r is Ok,
        r matches Ok(h) ==> is_default_phc(h@, salt@),
        r matches Ok(h) ==> phc_parses(h@) && argon2_accepts(password@, h@),
{
    let salt = SaltString::from_b64(salt)?;
    Argon2::default().hash_password(password.as_bytes(), &salt).map(|h| h.to_string())
}

/// Calls `PasswordHash::new(hash)` and reports whether it parsed; the
/// contract claims the answer is the one named by `phc_parses`.
#[verifier::external_body]
fn phc_well_formed(hash: &str) -> (b: bool)
    ensures
        b == phc_parses(hash@),
{
    PasswordHash::new(hash).is_ok()
}

/// Parses `hash` with `PasswordHash::new` and calls
/// `Argon2::default().verify_password(password.as_bytes(), &parsed)`; the
/// contract claims the answer is the one named by `argon2_accepts`.
#[verifier::external_body]
fn argon2_verify(password: &str, hash: &str) -> (b: bool)
    requires
        phc_parses(hash@),
    ensures
        b == argon2_accepts(password@, hash@),
{
    match PasswordHash::new(hash) {
        Ok(parsed) => Argon2::default().verify_password(password.as_bytes(), &parsed).is_ok(),
        Err(_) => false,
    }
}

/// Hashes `password` with Argon2 and the given B64 salt into a PHC string.
pub fn hash_password_with_salt(password: &String, salt: &String) -> (r: Result<String, PasswordError>)
    ensures
        match argon2_phc(password@, salt@) {
            Some(h) => r matches Ok(s) && s@ == h,
            None => r == Err::<String, PasswordError>(PasswordError::Hashing),
        },
        is_drawn_salt(salt@) && hashable_password(password@) ==> r is Ok,
        r matches Ok(h) ==> is_default_phc(h@, salt@),
        r matches Ok(h) ==> phc_parses(h@) && argon2_accepts(password@, h@),
{
    match hash_with_salt(password.as_str(), salt.as_str()) {
        Ok(h) => Ok(h),
        Err(_) => Err(PasswordError::Hashing),
    }
}

/// `r` is what hashing `password` under `salt` gives: the PHC string when
/// Argon2 hashes it, the hashing error otherwise.
pub open spec fn hashed_under(password: Seq<char>, salt: Seq<char>, r: Result<String, PasswordError>) -> bool {
    match argon2_phc(password, salt) {
        Some(h) => r matches Ok(s) && s@ == h,
        None => r == Err::<String, PasswordError>(PasswordError::Hashing),
    }
}

/// Hashes `password` with Argon2 under a fresh random salt into a PHC
/// string: the result is that of hashing the password under some drawn
/// salt. It succeeds for every password within Argon2's length limit, and
/// the hash always verifies the password it was made from.
pub fn hash_password(password: String) -> (r: Result<String, PasswordError>)
    ensures
        exists|salt: Seq<char>| is_drawn_salt(salt) && #[trigger] hashed_under(password@, salt, r),
        hashable_password(password@) ==> r is Ok,
        r matches Ok(h) ==> exists|salt: Seq<char>|
            is_drawn_salt(salt) && #[trigger] argon2_phc(password@, salt) == Some(h@) && is_default_phc(h@, salt),
        r matches Ok(h) ==> phc_parses(h@) && argon2_accepts(password@, h@),
{
    let salt = generate_salt();
    let r = hash_password_with_salt(&password, &salt);
    proof {
        assert(is_drawn_salt(salt@));
        assert(hashed_under(password@, salt@, r));
    }
    r
}

/// Whether `hash` parses as a PHC string (no hashing is done).
pub fn is_well_formed_hash(hash: &String) -> (b: bool)
    ensures
        b == phc_parses(hash@),
{
    phc_well_formed(hash.as_str())
}

/// Whether `password` matches the PHC string `hashed_password`. The hash
/// must parse.
pub fn verify_password(password: &String, hashed_password: String) -> (r: bool)
    requires
        phc_parses(hashed_password@),
    ensures
        r == argon2_accepts(password@, hashed_password@),
{
    argon2_verify(password.as_str(), hashed_password.as_str())
}

/// Whether `password` matches the PHC string `hashed_password`, or `None`
/// when `hashed_password` does not parse.
pub fn try_verify_password(password: &String, hashed_password: String) -> (r: Option<bool>)
    ensures
        r == (if phc_parses(hashed_password@) {
            Some(argon2_accepts(password@, hashed_password@))
        } else {
            None::<bool>
        }),
{
    if phc_well_formed(hashed_password.as_str()) {
        Some(verify_password(password, hashed_password))
    } else {
        None
    }
}

} // verus!
