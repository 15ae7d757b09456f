//! Argon2id through the `argon2` crate.
use vstd::prelude::*;
use argon2::{Algorithm, Argon2, Params, Version};
use argon2::password_hash::{PasswordHash as PhcHash, PasswordHasher, PasswordVerifier, SaltString};
use argon2::password_hash::rand_core::{OsRng, RngCore};

verus! {

/// The largest pepper that Argon2 takes (`argon2::MAX_SECRET_LEN`).
pub const MAX_SECRET_LEN: usize = 0xFFFF_FFFF;

/// The cost settings that `argon2::Params::new` accepts: at least 8 KiB
/// and 8 KiB per lane, at least one pass, 1 to 0xFFFFFF lanes, and an
/// output of 4 to 0xFFFFFFFF bytes when one is given.
pub open spec fn params_valid(m: u32, t: u32, p: u32, out: Option<usize>) -> bool {
    &&& m >= 8
    &&& m >= p * 8
    &&& t >= 1
    &&& 1 <= p <= 0xFF_FFFF
    &&& match out {
        Some(len) => 4 <= len <= 0xFFFF_FFFF,
        None => true,
    }
}

/// The PHC string that Argon2id (default version) with pepper `secret` and
/// costs `m`, `t`, `p` and output length `out` gives for `password` with
/// the B64 salt `salt`, or `None` when hashing fails.
pub uninterp spec fn argon2_phc(
    secret: Seq<u8>,
    m: u32,
    t: u32,
    p: u32,
    out: Option<usize>,
    password: Seq<u8>,
    salt: Seq<char>,
) -> Option<Seq<char>>;

/// Whether `password` matches the PHC string `phc` under pepper `secret`.
pub uninterp spec fn argon2_verifies(secret: Seq<u8>, password: Seq<u8>, phc: Seq<char>) -> bool;

/// `argon2::Params::new` followed by `argon2::Argon2::new_with_secret` with
/// the default algorithm (Argon2id) and version; answers whether a hasher
/// was made. Claims what their source shows: it is made exactly when the
/// costs are accepted and the pepper is at most `MAX_SECRET_LEN` bytes.
#[verifier::external_body]
pub(crate) fn argon2_hasher(secret: &[u8], m: u32, t: u32, p: u32, out: Option<usize>) -> (result: bool)
    requires
        p as int * 8 <= u32::MAX,
    ensures
        result == (params_valid(m, t, p, out) && secret@.len() <= MAX_SECRET_LEN),
{
    match Params::new(m, t, p, out) {
        Ok(params) => Argon2::new_with_secret(secret, Algorithm::default(), Version::default(), params).is_ok(),
        Err(_) => false,
    }
}

/// A character of the B64 alphabet (standard Base64: `A`-`Z`, `a`-`z`,
/// `0`-`9`, `+`, `/`).
pub open spec fn is_b64_char(c: char) -> bool {
    ||| 65 <= c as int <= 90
    ||| 97 <= c as int <= 122
    ||| 48 <= c as int <= 57
    ||| c == '+'
    ||| c == '/'
}

/// The unpadded B64 text of 16 bytes: 22 symbols, the last of which
/// carries two bits followed by four zero bits (`A`, `Q`, `g` or `w`).
pub open spec fn is_b64_salt(s: Seq<char>) -> bool {
    &&& s.len() == 22
    &&& forall|i: int| 0 <= i < 22 ==> is_b64_char(#[trigger] s[i])
    &&& (s[21] == 'A' || s[21] == 'Q' || s[21] == 'g' || s[21] == 'w')
}

/// An output length that a PHC string can carry: absent (32 bytes) or 10
/// to 64 bytes (`password_hash::Output`).
pub open spec fn output_len_ok(out: Option<usize>) -> bool {
    match out {
        Some(len) => 10 <= len <= 64,
        None => true,
    }
}

/// No `p=` in the text is followed by nine decimal digits. A lane count
/// written with nine digits or more is above the 0xFFFFFF lanes that
/// `argon2::Params::new` accepts, and from 536870912 on it overflows the
/// `p * 8` that `Params::new` computes in `u32`.
pub open spec fn phc_lanes_fit(s: Seq<char>) -> bool {
    forall|i: int|
        0 <= i && i + 11 <= s.len() && #[trigger] s[i] == 'p' && s[i + 1] == '=' ==> exists|k: int|
            0 <= k < 9 && !('0' <= #[trigger] s[i + 2 + k] <= '9')
}

/// The B64 salt of 16 random bytes from the operating system
/// (`rand_core::OsRng::try_fill_bytes`, then `SaltString::encode_b64`).
/// The salt is random; the source shows that it is the unpadded B64 text of
/// 16 bytes. `None` when the operating system gives no random bytes.
#[verifier::external_body]
pub(crate) fn generate_salt() -> (result: Option<String>)
    ensures
        result matches Some(s) ==> is_b64_salt(s@),
{
    let mut bytes = [0u8; 16];
    OsRng.try_fill_bytes(&mut bytes).ok()?;
    let salt = SaltString::encode_b64(&bytes).ok()?;
    Some(salt.as_str().to_string())
}

/// `PasswordHasher::hash_password` of the hasher made from `secret` and the
/// costs, with the B64 salt `salt`, written as a PHC string. Claims that
/// the outcome is `argon2_phc` of the arguments, and what the source shows:
/// hashing succeeds for accepted costs, a short enough pepper and password,
/// an output length that a PHC string carries and the B64 text of 16 bytes
/// as salt; the string starts with `$argon2id$v=19$`, and its only `p=` is
/// the lane count, of at most eight digits.
#[verifier::external_body]
pub(crate) fn argon2_hash_password(
    secret: &[u8],
    m: u32,
    t: u32,
    p: u32,
    out: Option<usize>,
    password: &[u8],
    salt: &str,
) -> (result: Option<String>)
    requires
        p as int * 8 <= u32::MAX,
    ensures
        match result {
            Some(h) => argon2_phc(secret@, m, t, p, out, password@, salt@) == Some(h@),
            None => argon2_phc(secret@, m, t, p, out, password@, salt@) is None,
        },
        params_valid(m, t, p, out) && secret@.len() <= MAX_SECRET_LEN && output_len_ok(out)
            && password@.len() <= 0xFFFF_FFFF && is_b64_salt(salt@) ==> result is Some,
        result matches Some(h) ==> h@.len() >= 15 && h@.take(15) == "$argon2id$v=19$"@ && phc_lanes_fit(h@),
{
    let params = Params::new(m, t, p, out).ok()?;
    let hasher = Argon2::new_with_secret(secret, Algorithm::default(), Version::default(), params).ok()?;
    let salt = SaltString::from_b64(salt).ok()?;
    let hash = hasher.hash_password(password, &salt).ok()?;
    Some(hash.to_string())
}

/// `PasswordVerifier::verify_password` of the hasher made from `secret` and
/// the costs, against the PHC string `phc` (parsed by
/// `PasswordHash::new`). Claims that the answer is `argon2_verifies` of
/// pepper, password and string, and that a string that Argon2id produced
/// for this password and pepper verifies, as its source shows: it hashes
/// again with the salt and costs that the string records and compares.
/// The costs are read from `phc` and go through `Params::new`, so its lane
/// count must not overflow there.
#[verifier::external_body]
pub(crate) fn argon2_verify_password(
    secret: &[u8],
    m: u32,
    t: u32,
    p: u32,
    out: Option<usize>,
    password: &[u8],
    phc: &str,
) -> (result: bool)
    requires
        params_valid(m, t, p, out),
        secret@.len() <= MAX_SECRET_LEN,
        phc_lanes_fit(phc@),
    ensures
        result == argon2_verifies(secret@, password@, phc@),
        forall|m2: u32, t2: u32, p2: u32, out2: Option<usize>, salt: Seq<char>|
            #[trigger] argon2_phc(secret@, m2, t2, p2, out2, password@, salt) == Some(phc@)
                ==> result,
{
    let Ok(parsed) = PhcHash::new(phc) else {
        return false;
    };
    let Ok(params) = Params::new(m, t, p, out) else {
        return false;
    };
    let Ok(hasher) = Argon2::new_with_secret(secret, Algorithm::default(), Version::default(), params) else {
        return false;
    };
    hasher.verify_password(password, &parsed).is_ok()
}

} // verus!
