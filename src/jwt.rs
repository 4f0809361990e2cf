use vstd::prelude::*;

use std::collections::BTreeMap;

verus! {

/// A login request: a username and a password.
pub struct LoginAttempt {
    pub username: String,
    pub password: String,
}

/// What a token says: whose it is, and until when (seconds since the epoch)
/// it is valid.
#[derive(Clone, Copy, Debug, PartialEq, Eq, Structural)]
pub struct Claims {
    pub user_id: i32,
    pub exp: i32,
}

/// Why a token could not be issued or was not accepted.
#[derive(Clone, Copy, Debug, PartialEq, Eq, Structural)]
pub enum TokenError {
    /// The signature does not match, or the claims are missing or malformed.
    Invalid,
    /// The token expired.
    Expired,
    /// The expiry does not fit the claims' range.
    OutOfRange,
    /// The system clock is unusable or signing failed.
    Internal,
}

/// The key that tokens are signed with, given by the configuration.
pub struct SecretKey {
    key: String,
}

/// Seconds in a day.
pub const DAY_SECONDS: i64 = 86400;

/// How many days a login token stays valid.
pub const TOKEN_DAYS: i32 = 30;

/// How many seconds past its expiry a token is still accepted.
pub const LEEWAY_SECONDS: i64 = 60;

/// The signed token of the claims under a key.
pub uninterp spec fn signed_token_of(user_id: i32, exp: i32, key: Seq<char>) -> Seq<char>;

/// The integer claims `user_id` and `exp` of a token whose signature under
/// the key is valid; `None` for a token that is malformed, wrongly signed or
/// has claims that are not integers.
pub uninterp spec fn token_claims_of(token: Seq<char>, key: Seq<char>) -> Option<
    (Option<i64>, Option<i64>),
>;

/// The error type of `jsonwebtoken`, carried through as it is.
#[verifier::external_type_specification]
#[verifier::external_body]
pub struct ExJwtError(jsonwebtoken::errors::Error);

/// Relies on `jsonwebtoken::encode` with the default header (HS256): the
/// token that carries `user_id` and `exp`, signed with the key. HMAC signing
/// makes it depend on these alone, and it cannot fail: an HMAC secret matches
/// HS256, and the header and an integer map always serialise. Decoding it
/// with the same key gives back both claims.
#[verifier::external_body]
fn sign_claims(user_id: i32, exp: i32, key: &str) -> (r: Result<String, jsonwebtoken::errors::Error>)
    ensures
        r.is_ok(),
        r.unwrap()@ == signed_token_of(user_id, exp, key@),
        token_claims_of(r.unwrap()@, key@) == Some((Some(user_id as i64), Some(exp as i64))),
{
    let claims: BTreeMap<&str, i32> = BTreeMap::from([("user_id", user_id), ("exp", exp)]);
    let secret = jsonwebtoken::EncodingKey::from_secret(key.as_bytes());
    jsonwebtoken::encode(&jsonwebtoken::Header::default(), &claims, &secret)
}

/// Relies on `jsonwebtoken::decode` with HS256 and without its own time
/// checks: the integer claims of a token signed with the key, by name.
#[verifier::external_body]
fn read_claims(token: &str, key: &str) -> (r: Option<(Option<i64>, Option<i64>)>)
    ensures
        r == token_claims_of(token@, key@),
{
    let mut validation = jsonwebtoken::Validation::new(jsonwebtoken::Algorithm::HS256);
    validation.validate_exp = false;
    validation.required_spec_claims.clear();
    let secret = jsonwebtoken::DecodingKey::from_secret(key.as_bytes());
    jsonwebtoken::decode::<BTreeMap<String, i64>>(token, &secret, &validation).ok().map(
        |data| (data.claims.get("user_id").copied(), data.claims.get("exp").copied()),
    )
}

/// Relies on `SystemTime::now` measured from `UNIX_EPOCH`: the whole seconds
/// since the epoch, or `None` when the clock is set before it.
#[verifier::external_body]
fn unix_seconds() -> (r: Option<u64>) {
    std::time::SystemTime::now().duration_since(std::time::UNIX_EPOCH).ok().map(|d| d.as_secs())
}

impl SecretKey {
    pub fn new(key: String) -> (r: SecretKey)
        ensures
            r@ == key@,
    {
        SecretKey { key }
    }

    /// The key's text.
    pub fn get_secret_key(&self) -> (r: &str)
        ensures
            r@ == self@,
    {
        self.key.as_str()
    }
}

impl View for SecretKey {
    type V = Seq<char>;

    closed spec fn view(&self) -> Seq<char> {
        self.key@
    }
}

/// The expiry of a token issued at `now` for `days` days.
pub open spec fn expiry_of(now: int, days: int) -> int {
    now + days * DAY_SECONDS
}

/// What a token is verified to at time `now`.
pub open spec fn verified_claims(token: Seq<char>, key: Seq<char>, now: int) -> Result<
    Claims,
    TokenError,
> {
    match token_claims_of(token, key) {
        Some((Some(user_id), Some(exp))) => if i32::MIN <= user_id <= i32::MAX && i32::MIN <= exp
            <= i32::MAX {
            if exp + LEEWAY_SECONDS < now {
                Err(TokenError::Expired)
            } else {
                Ok(Claims { user_id: user_id as i32, exp: exp as i32 })
            }
        } else {
            Err(TokenError::Invalid)
        },
        _ => Err(TokenError::Invalid),
    }
}

/// The expiry of a token issued at `now` for `days` days fits the claims.
pub open spec fn expiry_fits(now: int, days: int) -> bool {
    i32::MIN <= expiry_of(now, days) <= i32::MAX
}

/// `token` is the token issued for `user_id` with expiry `exp` under `key`:
/// signed with the key, and carrying exactly these claims.
pub open spec fn issued_token(token: Seq<char>, key: Seq<char>, user_id: i32, exp: i32) -> bool {
    &&& token == signed_token_of(user_id, exp, key)
    &&& token_claims_of(token, key) == Some((Some(user_id as i64), Some(exp as i64)))
}

/// Issues a token for `user_id` at time `now`, valid for `days` days.
pub fn token_at(key: &SecretKey, user_id: i32, days: i32, now: u64) -> (r: Result<
    String,
    TokenError,
>)
    ensures
        expiry_fits(now as int, days as int) ==> r.is_ok() && issued_token(
            r.unwrap()@,
            key@,
            user_id,
            expiry_of(now as int, days as int) as i32,
        ),
        !expiry_fits(now as int, days as int) ==> r == Err::<String, TokenError>(
            TokenError::OutOfRange,
        ),
{
    proof {
        let d = days as int;
        assert(-2147483648 * 86400 <= d * 86400 <= 2147483647 * 86400) by (nonlinear_arith)
            requires
                -2147483648 <= d <= 2147483647,
        ;
    }
    let exp: i128 = now as i128 + days as i128 * DAY_SECONDS as i128;
    if exp < i32::MIN as i128 || exp > i32::MAX as i128 {
        return Err(TokenError::OutOfRange);
    }
    match sign_claims(user_id, exp as i32, key.get_secret_key()) {
        Ok(token) => Ok(token),
        Err(_) => Err(TokenError::Internal),
    }
}

/// Issues a token for `user_id`, valid for `exp_day` days from now. Only the
/// clock can make it fail: when it is unreadable (`Internal`), or when the
/// expiry it gives does not fit the claims (`OutOfRange`).
pub fn encode_jwt(key: &SecretKey, user_id: i32, exp_day: i32) -> (r: Result<String, TokenError>)
    ensures
        r.is_ok() ==> exists|now: u64|
            expiry_fits(now as int, exp_day as int) && issued_token(
                #[trigger] r.unwrap()@,
                key@,
                user_id,
                expiry_of(now as int, exp_day as int) as i32,
            ),
        r.is_err() ==> r == Err::<String, TokenError>(TokenError::Internal) || r == Err::<
            String,
            TokenError,
        >(TokenError::OutOfRange),
{
    match unix_seconds() {
        Some(now) => token_at(key, user_id, exp_day, now),
        None => Err(TokenError::Internal),
    }
}

/// Checks a token at time `now`: its signature, its claims, and that it has
/// not expired, with a leeway of a minute.
pub fn verify_at(key: &SecretKey, token: &str, now: u64) -> (r: Result<Claims, TokenError>)
    ensures
        r == verified_claims(token@, key@, now as int),
{
    match read_claims(token, key.get_secret_key()) {
        Some((Some(user_id), Some(exp))) => {
            if user_id < i32::MIN as i64 || user_id > i32::MAX as i64 || exp < i32::MIN as i64
                || exp > i32::MAX as i64 {
                return Err(TokenError::Invalid);
            }
            if (exp as i128 + LEEWAY_SECONDS as i128) < (now as i128) {
                Err(TokenError::Expired)
            } else {
                Ok(Claims { user_id: user_id as i32, exp: exp as i32 })
            }
        },
        _ => Err(TokenError::Invalid),
    }
}

/// Checks a token now.
pub fn verify_jwt(key: &SecretKey, token: String) -> (r: Result<Claims, TokenError>)
    ensures
        r.is_ok() ==> exists|now: u64| r == verified_claims(token@, key@, now as int),
{
    match unix_seconds() {
        Some(now) => verify_at(key, token.as_str(), now),
        None => Err(TokenError::Internal),
    }
}

} // verus!
