use vstd::prelude::*;
use argon2::password_hash::Salt;
use argon2::password_hash::SaltString;
use argon2::Argon2;
use argon2::PasswordHash;
use argon2::PasswordHasher;
use argon2::PasswordVerifier;
use rand_core::OsRng;
use uuid::Uuid;
use crate::clock::system_time_now;
use crate::clock::unix_secs;
use crate::rate_limit::check_step;
use crate::rate_limit::RateLimiter;

verus! {

/// How long a session token stays valid: thirty days, in seconds.
pub const SESSION_LIFETIME_SECS: u64 = 30 * 24 * 60 * 60;

/// Login attempts allowed per key within one window.
pub const LOGIN_MAX_ATTEMPTS: usize = 5;

/// The login window, in seconds.
pub const LOGIN_WINDOW_SECS: u64 = 300;

/// The encoded (PHC string) Argon2id hash, with default parameters, of
/// `password` under the B64 salt `salt`.
pub uninterp spec fn argon2_phc(password: Seq<char>, salt: Seq<char>) -> Seq<char>;

/// Whether `encoded` parses as a PHC string.
pub uninterp spec fn phc_parses(encoded: Seq<char>) -> bool;

/// Whether Argon2 accepts `password` against the parsed PHC string `encoded`.
pub uninterp spec fn argon2_accepts(password: Seq<char>, encoded: Seq<char>) -> bool;

/// A character of the B64 alphabet (standard, without padding).
pub open spec fn is_b64_char(c: char) -> bool {
    ('A' <= c && c <= 'Z') || ('a' <= c && c <= 'z') || ('0' <= c && c <= '9') || c == '+'
        || c == '/'
}

/// The B64 text of sixteen bytes: 22 characters, the last of which carries
/// only two bits.
pub open spec fn salt16(s: Seq<char>) -> bool {
    &&& s.len() == 22
    &&& forall|i: int| 0 <= i < 21 ==> is_b64_char(#[trigger] s[i])
    &&& (s[21] == 'A' || s[21] == 'Q' || s[21] == 'g' || s[21] == 'w')
}

/// A lowercase hexadecimal digit.
pub open spec fn is_lower_hex(c: char) -> bool {
    ('0' <= c && c <= '9') || ('a' <= c && c <= 'f')
}

/// A version-4 UUID in hyphenated lowercase form.
pub open spec fn uuid_v4_text(s: Seq<char>) -> bool {
    &&& s.len() == 36
    &&& forall|i: int|
        0 <= i < 36 ==> if i == 8 || i == 13 || i == 18 || i == 23 {
            #[trigger] s[i] == '-'
        } else {
            is_lower_hex(s[i])
        }
    &&& s[14] == '4'
    &&& (s[19] == '8' || s[19] == '9' || s[19] == 'a' || s[19] == 'b')
}

/// Relies on password-hash's `SaltString::generate` with rand_core's `OsRng`:
/// sixteen fresh random bytes, encoded as B64.
#[verifier::external_body]
fn random_salt() -> (r: String)
    ensures
        salt16(r@),
{
    SaltString::generate(&mut OsRng).as_str().to_owned()
}

/// Relies on `Salt::from_b64` and `Argon2::default().hash_password`: where
/// both succeed, the result is the PHC string of the hash, which depends on
/// the password and the salt alone, parses again, and is accepted for the
/// password by `verify_password`, which recomputes it from the parsed
/// parameters and salt. Hashing fails only for a password of more than
/// 0xFFFFFFFF bytes (four per character at most) or a salt of fewer than 8
/// bytes, so a 16-byte salt and a shorter password always succeed.
#[verifier::external_body]
fn argon2_hash(password: &str, salt: &str) -> (r: Result<String, String>)
    ensures
        salt16(salt@) && password@.len() <= 0x3fff_ffff ==> r is Ok,
        r is Ok ==> r->Ok_0@ == argon2_phc(password@, salt@),
        r is Ok ==> phc_parses(r->Ok_0@) && argon2_accepts(password@, r->Ok_0@),
{
    match Salt::from_b64(salt) {
        Ok(s) => Argon2::default()
            .hash_password(password.as_bytes(), s)
            .map(|h| h.to_string())
            .map_err(|e| e.to_string()),
        Err(e) => Err(e.to_string()),
    }
}

/// Relies on `PasswordHash::new`, which refuses an empty string and one that
/// does not start with `$`, and on `Argon2::default().verify_password`,
/// which decides whether the password matches the parsed hash.
#[verifier::external_body]
fn argon2_check(password: &str, encoded: &str) -> (r: Result<bool, String>)
    ensures
        (r is Err) == !phc_parses(encoded@),
        (encoded@.len() == 0 || encoded@[0] != '$') ==> r is Err,
        r is Ok ==> r->Ok_0 == argon2_accepts(password@, encoded@),
{
    match PasswordHash::new(encoded) {
        Ok(parsed) => Ok(Argon2::default().verify_password(password.as_bytes(), &parsed).is_ok()),
        Err(e) => Err(e.to_string()),
    }
}

/// Relies on uuid's `Uuid::new_v4`, which sets the version nibble to 4 and
/// the variant bits to `10`, and its `Display`, the hyphenated lowercase form.
#[verifier::external_body]
fn new_token() -> (r: String)
    ensures
        uuid_v4_text(r@),
{
    Uuid::new_v4().to_string()
}

pub struct HashPasswordResponse {
    pub hash: String,
}

pub struct VerifyPasswordResponse {
    pub matches: bool,
}

pub struct GenerateTokenResponse {
    pub token: String,
    pub expires_at: u64,
}

/// Hashes `password` under the B64 salt `salt`.
pub fn hash_with_salt(password: &str, salt: &str) -> (r: Result<HashPasswordResponse, String>)
    ensures
        salt16(salt@) && password@.len() <= 0x3fff_ffff ==> r is Ok,
        r is Ok ==> r->Ok_0.hash@ == argon2_phc(password@, salt@),
        r is Ok ==> phc_parses(r->Ok_0.hash@) && argon2_accepts(password@, r->Ok_0.hash@),
{
    match argon2_hash(password, salt) {
        Ok(hash) => Ok(HashPasswordResponse { hash }),
        Err(e) => Err(e),
    }
}

/// Hashes `password` under a fresh random salt; the result is the encoded
/// hash, which carries the algorithm, its parameters and the salt. It
/// succeeds for every password of up to 0x3fff_ffff characters, the empty
/// one included, and the password verifies against the hash it gets.
pub fn hash_password(password: String) -> (r: Result<HashPasswordResponse, String>)
    ensures
        password@.len() <= 0x3fff_ffff ==> r is Ok,
        r is Ok ==> exists|salt: Seq<char>|
            salt16(salt) && r->Ok_0.hash@ == argon2_phc(password@, salt),
        r is Ok ==> phc_parses(r->Ok_0.hash@) && argon2_accepts(password@, r->Ok_0.hash@),
{
    let salt = random_salt();
    hash_with_salt(password.as_str(), salt.as_str())
}

/// Checks `password` against the encoded hash `hash`. A string that is not
/// an encoded hash is an error; a well-formed hash that does not match gives
/// `matches == false`.
pub fn verify_password(password: String, hash: String) -> (r: Result<VerifyPasswordResponse, String>)
    ensures
        (r is Err) == !phc_parses(hash@),
        (hash@.len() == 0 || hash@[0] != '$') ==> r is Err,
        r is Ok ==> r->Ok_0.matches == argon2_accepts(password@, hash@),
{
    match argon2_check(password.as_str(), hash.as_str()) {
        Ok(matches) => Ok(VerifyPasswordResponse { matches }),
        Err(e) => Err(e),
    }
}

/// A session token issued at `now_secs` (seconds since the Unix epoch, or
/// `None` where the clock could not be read): it expires exactly
/// `SESSION_LIFETIME_SECS` later. An unreadable clock, or an expiry past the
/// range of `u64`, is an error.
pub fn session_token_at(token: String, now_secs: Option<u64>) -> (r: Result<
    GenerateTokenResponse,
    String,
>)
    ensures
        r is Ok <==> (now_secs is Some && now_secs->0 + SESSION_LIFETIME_SECS <= u64::MAX),
        r is Ok ==> r->Ok_0.token@ == token@ && r->Ok_0.expires_at == now_secs->0
            + SESSION_LIFETIME_SECS,
{
    match now_secs {
        Some(now) => {
            if now <= u64::MAX - SESSION_LIFETIME_SECS {
                Ok(GenerateTokenResponse { token, expires_at: now + SESSION_LIFETIME_SECS })
            } else {
                Err("session expiry is out of range".to_owned())
            }
        },
        None => Err("system clock is before the Unix epoch".to_owned()),
    }
}

/// Issues a fresh random token that expires `SESSION_LIFETIME_SECS` after
/// the time the system clock reads.
pub fn generate_session_token() -> (r: Result<GenerateTokenResponse, String>)
    ensures
        r is Ok ==> uuid_v4_text(r->Ok_0.token@) && r->Ok_0.expires_at >= SESSION_LIFETIME_SECS,
{
    let token = new_token();
    let now = system_time_now();
    session_token_at(token, unix_secs(&now))
}

/// Checks a login attempt from `ip_address`: `LOGIN_MAX_ATTEMPTS` attempts
/// per `LOGIN_WINDOW_SECS` seconds. It never fails.
pub fn check_login_rate_limit(ip_address: String, rate_limiter: &mut RateLimiter) -> (r: Result<
    bool,
    String,
>)
    requires
        old(rate_limiter).wf(),
    ensures
        final(rate_limiter).wf(),
        r is Ok,
        exists|now: u128|
            (final(rate_limiter)@, r->Ok_0) == check_step(
                old(rate_limiter)@,
                ip_address@,
                LOGIN_MAX_ATTEMPTS as nat,
                LOGIN_WINDOW_SECS,
                now,
            ),
{
    Ok(rate_limiter.check_rate_limit(ip_address.as_str(), LOGIN_MAX_ATTEMPTS, LOGIN_WINDOW_SECS))
}

/// The file name under which the avatar of `user_id` is stored.
pub fn avatar_file_name(user_id: &str) -> (r: String)
    ensures
        r@ == user_id@ + seq!['.', 'j', 'p', 'g'],
{
    let mut name = user_id.to_owned();
    proof {
        reveal_strlit(".jpg");
    }
    name.append(".jpg");
    name
}

} // verus!
