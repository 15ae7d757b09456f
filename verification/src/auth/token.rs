//! Session tokens: refresh secrets and the claims of access tokens.
use vstd::prelude::*;
use crate::id::UserId;
use crate::secret::DbSecret;
use vstd::arithmetic::power::pow;
use argon2::password_hash::rand_core::{OsRng, RngCore};

verus! {

/// The secret with which a session is renewed: a version-4 UUID.
pub type RefreshToken = DbSecret<u128>;

/// `u` has the version (4) and variant (RFC 4122) bits of a random UUID.
pub open spec fn is_v4_uuid(u: u128) -> bool {
    u & 0xF000_C000_0000_0000_0000u128 == 0x4000_8000_0000_0000_0000u128
}

/// A version-4 UUID from 16 random bytes of the operating system
/// (`rand_core::OsRng::try_fill_bytes`, then
/// `uuid::Builder::from_random_bytes`), as a number (`Uuid::as_u128`). The
/// value is random; the source shows that its version and variant bits are
/// those of a version-4 UUID, and nothing more is claimed. `None` when the
/// operating system gives no random bytes.
#[verifier::external_body]
fn new_uuid_v4() -> (result: Option<u128>)
    ensures
        result matches Some(u) ==> is_v4_uuid(u),
{
    let mut bytes = [0u8; 16];
    OsRng.try_fill_bytes(&mut bytes).ok()?;
    Some(uuid::Builder::from_random_bytes(bytes).into_uuid().as_u128())
}

/// The lower-case hexadecimal digit of `n` (0 to 15).
pub open spec fn hex_char(n: int) -> char {
    if n < 10 {
        (48 + n) as char
    } else {
        (87 + n) as char
    }
}

/// Hexadecimal digit `k` of `u`, counted from the most significant one.
pub open spec fn uuid_nibble(u: u128, k: int) -> int {
    (u as int / pow(16, (31 - k) as nat)) % 16
}

/// The hyphenated text form of a UUID: 32 lower-case hexadecimal digits,
/// most significant first, in groups of 8, 4, 4, 4 and 12.
pub open spec fn uuid_text(u: u128) -> Seq<char> {
    Seq::new(
        36,
        |i: int|
            if i == 8 || i == 13 || i == 18 || i == 23 {
                '-'
            } else {
                let k = if i < 8 {
                    i
                } else if i < 13 {
                    i - 1
                } else if i < 18 {
                    i - 2
                } else if i < 23 {
                    i - 3
                } else {
                    i - 4
                };
                hex_char(uuid_nibble(u, k))
            },
    )
}

/// `Uuid::from_u128(u).to_string()`: the hyphenated lower-case form, as the
/// `uuid` documentation and source give it.
#[verifier::external_body]
pub(crate) fn uuid_to_string(u: u128) -> (result: String)
    ensures
        result@ == uuid_text(u),
{
    uuid::Uuid::from_u128(u).to_string()
}

/// A fresh random refresh secret; `None` when the operating system gives
/// no random bytes.
pub fn new_refresh_secret() -> (result: Option<RefreshToken>)
    ensures
        result matches Some(t) ==> is_v4_uuid(t.exposed()),
{
    match new_uuid_v4() {
        Some(u) => Some(DbSecret::new(u)),
        None => None,
    }
}

/// Settings of access tokens.
#[derive(Clone)]
pub struct JwtConfig {
    /// Key of the token signatures.
    pub secret: String,
    /// How long an access token stays valid, in seconds.
    pub access_ttl_secs: u64,
}

/// The claims of an access token: issued at, expires at (seconds since the
/// Unix epoch), and the user.
#[derive(Clone, Copy, Debug)]
pub struct AccessClaims {
    pub iat: u64,
    pub exp: u64,
    pub id: UserId,
}

/// The claims of an access token for `id` issued at `now` that lives
/// `ttl_secs` seconds.
pub fn access_claims(id: UserId, now: u64, ttl_secs: u64) -> (result: AccessClaims)
    requires
        now + ttl_secs <= u64::MAX,
    ensures
        result.iat == now,
        result.exp == now + ttl_secs,
        result.id == id,
{
    AccessClaims { iat: now, exp: now + ttl_secs, id }
}

} // verus!
