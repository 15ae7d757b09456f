//! Password rules and Argon2id hashing.
use vstd::prelude::*;
use vstd::string::StringSliceAdditionalSpecFns;
use vstd::utf8::encode_utf8;
use crate::auth::hashing::{
    argon2_hash_password, argon2_hasher, argon2_phc, argon2_verifies, argon2_verify_password,
    generate_salt, is_b64_salt, output_len_ok, params_valid, phc_lanes_fit, MAX_SECRET_LEN,
};
use crate::config::HasherConfig;
use crate::error::Error;
use crate::secret::DbSecret;

verus! {

// ---------------------------------------------------------------------------
// Character classes
// ---------------------------------------------------------------------------

/// Whether `c` has the Unicode `Lowercase` property (`char::is_lowercase`).
pub uninterp spec fn is_lowercase(c: char) -> bool;

/// Whether `c` has the Unicode `Uppercase` property (`char::is_uppercase`).
pub uninterp spec fn is_uppercase(c: char) -> bool;

/// Whether `c` is in a Unicode numeric category (`char::is_numeric`).
pub uninterp spec fn is_numeric(c: char) -> bool;

/// `char::is_lowercase` of std; claims only that it answers `is_lowercase`.
#[verifier::external_body]
fn char_is_lowercase(c: char) -> (result: bool)
    ensures
        result == is_lowercase(c),
{
    c.is_lowercase()
}

/// `char::is_uppercase` of std; claims only that it answers `is_uppercase`.
#[verifier::external_body]
fn char_is_uppercase(c: char) -> (result: bool)
    ensures
        result == is_uppercase(c),
{
    c.is_uppercase()
}

/// `char::is_numeric` of std; claims only that it answers `is_numeric`.
#[verifier::external_body]
fn char_is_numeric(c: char) -> (result: bool)
    ensures
        result == is_numeric(c),
{
    c.is_numeric()
}

// ---------------------------------------------------------------------------
// Password rules
// ---------------------------------------------------------------------------

pub const PASSWORD_TOO_SHORT: &'static str = "password must be at least 8 characters long";

pub const PASSWORD_NO_LOWERCASE: &'static str = "password must contain at least one lowercase character";

pub const PASSWORD_NO_UPPERCASE: &'static str = "password must contain at least one uppercase character";

pub const PASSWORD_NO_NUMBER: &'static str = "password must contain at least one number";

pub open spec fn has_lowercase(s: Seq<char>) -> bool {
    exists|i: int| 0 <= i < s.len() && is_lowercase(#[trigger] s[i])
}

pub open spec fn has_uppercase(s: Seq<char>) -> bool {
    exists|i: int| 0 <= i < s.len() && is_uppercase(#[trigger] s[i])
}

pub open spec fn has_numeric(s: Seq<char>) -> bool {
    exists|i: int| 0 <= i < s.len() && is_numeric(#[trigger] s[i])
}

/// The verdict on a password: at least 8 bytes of UTF-8, a lowercase
/// letter, an uppercase letter and a number; the first rule broken is named.
pub open spec fn password_verdict(p: Seq<char>) -> Result<(), &'static str> {
    if encode_utf8(p).len() < 8 {
        Err(PASSWORD_TOO_SHORT)
    } else if !has_lowercase(p) {
        Err(PASSWORD_NO_LOWERCASE)
    } else if !has_uppercase(p) {
        Err(PASSWORD_NO_UPPERCASE)
    } else if !has_numeric(p) {
        Err(PASSWORD_NO_NUMBER)
    } else {
        Ok(())
    }
}

/// The password rules are exactly four: a password is accepted if and only
/// if it has at least 8 bytes of UTF-8 and holds a lowercase letter, an
/// uppercase letter and a number, however long it is; it is refused as too
/// short exactly when it has fewer than 8 bytes; a refusal names the first
/// rule broken, in the order length, lowercase, uppercase, number.
pub proof fn law_password_rules(p: Seq<char>)
    ensures
        password_verdict(p) is Ok <==> encode_utf8(p).len() >= 8 && has_lowercase(p) && has_uppercase(p)
            && has_numeric(p),
        password_verdict(p) == Err::<(), &'static str>(PASSWORD_TOO_SHORT) <==> encode_utf8(p).len() < 8,
        password_verdict(p) == Err::<(), &'static str>(PASSWORD_NO_LOWERCASE) <==> encode_utf8(p).len()
            >= 8 && !has_lowercase(p),
        password_verdict(p) == Err::<(), &'static str>(PASSWORD_NO_UPPERCASE) <==> encode_utf8(p).len()
            >= 8 && has_lowercase(p) && !has_uppercase(p),
        password_verdict(p) == Err::<(), &'static str>(PASSWORD_NO_NUMBER) <==> encode_utf8(p).len() >= 8
            && has_lowercase(p) && has_uppercase(p) && !has_numeric(p),
{
}

/// Which character classes occur in `s`.
fn char_classes(s: &str) -> (result: (bool, bool, bool))
    ensures
        result.0 == has_lowercase(s@),
        result.1 == has_uppercase(s@),
        result.2 == has_numeric(s@),
{
    let mut lower = false;
    let mut upper = false;
    let mut numeric = false;
    for c in it: s.chars()
        invariant
            it.seq() == s@,
            lower == exists|j: int| 0 <= j < it.index() && is_lowercase(#[trigger] s@[j]),
            upper == exists|j: int| 0 <= j < it.index() && is_uppercase(#[trigger] s@[j]),
            numeric == exists|j: int| 0 <= j < it.index() && is_numeric(#[trigger] s@[j]),
    {
        let ghost i = it.index();
        proof {
            assert(s@[i] == c);
        }
        lower = lower || char_is_lowercase(c);
        upper = upper || char_is_uppercase(c);
        numeric = numeric || char_is_numeric(c);
    }
    (lower, upper, numeric)
}

/// Checks a password against the password rules.
pub fn validate_password(password: &str) -> (result: Result<(), &'static str>)
    ensures
        result == password_verdict(password@),
        result is Ok <==> encode_utf8(password@).len() >= 8 && has_lowercase(password@)
            && has_uppercase(password@) && has_numeric(password@),
        result == Err::<(), &'static str>(PASSWORD_TOO_SHORT) <==> encode_utf8(password@).len() < 8,
{
    if password.as_bytes().len() < 8 {
        return Err(PASSWORD_TOO_SHORT);
    }
    let (lower, upper, numeric) = char_classes(password);
    if !lower {
        Err(PASSWORD_NO_LOWERCASE)
    } else if !upper {
        Err(PASSWORD_NO_UPPERCASE)
    } else if !numeric {
        Err(PASSWORD_NO_NUMBER)
    } else {
        Ok(())
    }
}


// ---------------------------------------------------------------------------
// Hashing
// ---------------------------------------------------------------------------

/// The cost settings of `config` are accepted and its pepper is short
/// enough: a hasher can be made from it.
pub open spec fn hasher_valid(config: HasherConfig) -> bool {
    &&& params_valid(
        config.memory_size,
        config.iterations,
        config.parallelism_factor,
        config.output_length,
    )
    &&& encode_utf8(config.secret@).len() <= MAX_SECRET_LEN
}

/// `argon2::Params::new` multiplies the lane count by 8 in `u32`.
pub open spec fn lanes_in_range(config: HasherConfig) -> bool {
    config.parallelism_factor as int * 8 <= u32::MAX
}

/// A password that follows the password rules.
#[derive(Clone)]
pub struct Password {
    value: String,
}

/// A password hash in PHC form, as stored.
pub type PasswordHash = DbSecret<String>;

impl View for Password {
    type V = Seq<char>;

    closed spec fn view(&self) -> Seq<char> {
        self.value@
    }
}

/// Argon2id under `config` gives `phc` for the password with the B64 text
/// of some 16 bytes as salt, and the lane count in `phc` fits.
pub open spec fn is_hash_of(config: HasherConfig, password: Seq<char>, phc: Seq<char>) -> bool {
    &&& phc_lanes_fit(phc)
    &&& exists|salt: Seq<char>|
        is_b64_salt(salt) && #[trigger] argon2_phc(
            encode_utf8(config.secret@),
            config.memory_size,
            config.iterations,
            config.parallelism_factor,
            config.output_length,
            encode_utf8(password),
            salt,
        ) == Some(phc)
}

/// A PHC string of Argon2id, version 19.
pub open spec fn is_argon2id_phc(phc: Seq<char>) -> bool {
    phc.len() >= 15 && phc.take(15) == "$argon2id$v=19$"@
}

/// Hashing the password under `config` cannot fail: the output length is
/// one a PHC string carries and the password has at most 0xFFFFFFFF bytes.
pub open spec fn hashable(config: HasherConfig, password: Seq<char>) -> bool {
    output_len_ok(config.output_length) && encode_utf8(password).len() <= 0xFFFF_FFFF
}

/// Whether the lane count written in `phc` fits: exactly `phc_lanes_fit`.
pub fn lanes_fit(phc: &str) -> (result: bool)
    ensures
        result == phc_lanes_fit(phc@),
{
    let mut v: Vec<char> = Vec::new();
    for c in it: phc.chars()
        invariant
            it.seq() == phc@,
            v@ == phc@.take(it.index()),
    {
        proof {
            assert(phc@.take(it.index() + 1) =~= v@.push(c));
        }
        v.push(c);
    }
    proof {
        assert(v@ =~= phc@);
    }
    let n = v.len();
    if n < 11 {
        return true;
    }
    let mut i: usize = 0;
    while i <= n - 11
        invariant
            v@ == phc@,
            n == v@.len(),
            n >= 11,
            i <= n - 10,
            forall|j: int|
                0 <= j < i && #[trigger] v@[j] == 'p' && v@[j + 1] == '=' ==> exists|k: int|
                    0 <= k < 9 && !('0' <= #[trigger] v@[j + 2 + k] <= '9'),
        decreases n - i,
    {
        if v[i] == 'p' && v[i + 1] == '=' {
            let mut k: usize = 0;
            let mut all_digits = true;
            while k < 9
                invariant
                    v@ == phc@,
                    n == v@.len(),
                    i + 11 <= n,
                    k <= 9,
                    all_digits == forall|kk: int| 0 <= kk < k ==> '0' <= #[trigger] v@[i + 2 + kk] <= '9',
                decreases 9 - k,
            {
                let c = v[i + 2 + k];
                let digit = '0' <= c && c <= '9';
                let ghost before = all_digits;
                all_digits = all_digits && digit;
                proof {
                    assert(v@[i + 2 + k] == c);
                    if all_digits {
                        assert forall|kk: int| 0 <= kk < k + 1 implies '0' <= #[trigger] v@[i + 2 + kk] <= '9' by {
                            if kk == k {
                                assert(digit);
                            } else {
                                assert(before);
                            }
                        }
                    } else if !before {
                        let kk = choose|kk: int| 0 <= kk < k && !('0' <= #[trigger] v@[i + 2 + kk] <= '9');
                        assert(!('0' <= v@[i + 2 + kk] <= '9'));
                    } else {
                        assert(!('0' <= v@[i + 2 + k] <= '9'));
                    }
                }
                k = k + 1;
            }
            if all_digits {
                proof {
                    assert(!phc_lanes_fit(phc@)) by {
                        assert(phc@[i as int] == 'p' && phc@[i + 1] == '=');
                        if exists|kk: int| 0 <= kk < 9 && !('0' <= #[trigger] phc@[i + 2 + kk] <= '9') {
                            let kk = choose|kk: int| 0 <= kk < 9 && !('0' <= #[trigger] phc@[i + 2 + kk] <= '9');
                            assert('0' <= v@[i + 2 + kk] <= '9');
                        }
                    }
                }
                return false;
            }
        }
        i = i + 1;
    }
    true
}

impl Password {
    /// Accepts `value` when it follows the password rules, and names the
    /// first rule it breaks otherwise.
    pub fn new(value: String) -> (result: Result<Password, Error>)
        ensures
            match password_verdict(value@) {
                Ok(_) => result is Ok && result->Ok_0@ == value@,
                Err(m) => result == Err::<Password, Error>(Error::Validation(m)),
            },
            result is Ok <==> encode_utf8(value@).len() >= 8 && has_lowercase(value@) && has_uppercase(
                value@,
            ) && has_numeric(value@),
    {
        match validate_password(value.as_str()) {
            Ok(()) => Ok(Password { value }),
            Err(m) => Err(Error::Validation(m)),
        }
    }

    /// Same as `new`.
    pub fn try_from(value: String) -> (result: Result<Password, Error>)
        ensures
            match password_verdict(value@) {
                Ok(_) => result is Ok && result->Ok_0@ == value@,
                Err(m) => result == Err::<Password, Error>(Error::Validation(m)),
            },
    {
        Self::new(value)
    }

    /// Checks that `config` describes an Argon2id hasher with `secret` as
    /// pepper.
    fn hasher(secret: &[u8], config: &HasherConfig) -> (result: Result<(), Error>)
        requires
            lanes_in_range(*config),
        ensures
            result is Ok <==> params_valid(
                config.memory_size,
                config.iterations,
                config.parallelism_factor,
                config.output_length,
            ) && secret@.len() <= MAX_SECRET_LEN,
            result is Err ==> result == Err::<(), Error>(Error::Internal("instantiate hasher")),
    {
        if argon2_hasher(
            secret,
            config.memory_size,
            config.iterations,
            config.parallelism_factor,
            config.output_length,
        ) {
            Ok(())
        } else {
            Err(Error::Internal("instantiate hasher"))
        }
    }

    /// Hashes the password with a fresh random salt. Fails when `config`
    /// describes no hasher, when the operating system gives no random
    /// bytes, or when the settings or the password cannot be hashed.
    pub fn hash(&self, config: &HasherConfig) -> (result: Result<PasswordHash, Error>)
        requires
            lanes_in_range(*config),
        ensures
            !hasher_valid(*config) ==> result == Err::<PasswordHash, Error>(
                Error::Internal("instantiate hasher"),
            ),
            hasher_valid(*config) ==> match result {
                Ok(h) => is_hash_of(*config, self@, h.exposed()@) && is_argon2id_phc(h.exposed()@),
                Err(e) => e == Error::Internal("generate salt") || (e == Error::Internal("hash password")
                    && !hashable(*config, self@)),
            },
            hasher_valid(*config) && hashable(*config, self@) ==> result is Ok || result == Err::<
                PasswordHash,
                Error,
            >(Error::Internal("generate salt")),
    {
        let salt = generate_salt();
        let result = self.hash_salted(config, salt);
        proof {
            if hasher_valid(*config) && result is Ok {
                let s = salt->Some_0;
                assert(is_hash_of(*config, self@, result->Ok_0.exposed()@));
            }
        }
        result
    }

    /// Hashes the password under `config` with `salt`, the salt drawn for
    /// it (`None` when the operating system gave no random bytes).
    pub fn hash_salted(&self, config: &HasherConfig, salt: Option<String>) -> (result: Result<
        PasswordHash,
        Error,
    >)
        requires
            lanes_in_range(*config),
        ensures
            !hasher_valid(*config) ==> result == Err::<PasswordHash, Error>(
                Error::Internal("instantiate hasher"),
            ),
            hasher_valid(*config) ==> match salt {
                None => result == Err::<PasswordHash, Error>(Error::Internal("generate salt")),
                Some(s) => match argon2_phc(
                    encode_utf8(config.secret@),
                    config.memory_size,
                    config.iterations,
                    config.parallelism_factor,
                    config.output_length,
                    encode_utf8(self@),
                    s@,
                ) {
                    Some(h) => result is Ok && result->Ok_0.exposed()@ == h && is_argon2id_phc(h)
                        && phc_lanes_fit(h),
                    None => result == Err::<PasswordHash, Error>(Error::Internal("hash password")),
                },
            },
            // Whenever a salt was drawn, a password that can be hashed is.
            hasher_valid(*config) && hashable(*config, self@) ==> match salt {
                Some(s) => is_b64_salt(s@) ==> result is Ok && is_hash_of(
                    *config,
                    self@,
                    result->Ok_0.exposed()@,
                ),
                None => true,
            },
    {
        let secret = config.secret.as_str().as_bytes();
        Self::hasher(secret, config)?;
        let password = self.value.as_str().as_bytes();
        let salt = match salt {
            Some(salt) => salt,
            None => {
                return Err(Error::Internal("generate salt"));
            },
        };
        match argon2_hash_password(
            secret,
            config.memory_size,
            config.iterations,
            config.parallelism_factor,
            config.output_length,
            password,
            salt.as_str(),
        ) {
            Some(h) => {
                let hash = DbSecret::new(h);
                proof {
                    if is_b64_salt(salt@) {
                        assert(is_hash_of(*config, self@, hash.exposed()@));
                    }
                }
                Ok(hash)
            },
            None => Err(Error::Internal("hash password")),
        }
    }
}

/// Checks `password` against the stored `hash` of an account, if there is
/// one. With no account, with a hash whose lane count does not fit, or with
/// a hash that the password does not match, the credentials are invalid.
pub fn verify_password(password: &str, hash: Option<&PasswordHash>, config: &HasherConfig) -> (result:
    Result<(), Error>)
    requires
        lanes_in_range(*config),
    ensures
        !hasher_valid(*config) ==> result == Err::<(), Error>(Error::Internal("instantiate hasher")),
        hasher_valid(*config) ==> result == match hash {
            None => Err::<(), Error>(Error::InvalidCredentials),
            Some(h) => if phc_lanes_fit(h.exposed()@) && argon2_verifies(
                encode_utf8(config.secret@),
                encode_utf8(password@),
                h.exposed()@,
            ) {
                Ok::<(), Error>(())
            } else {
                Err::<(), Error>(Error::InvalidCredentials)
            },
        },
        // A password always matches a hash made from it under the same settings.
        hasher_valid(*config) && hash is Some && is_hash_of(*config, password@, hash->Some_0.exposed()@)
            ==> result is Ok,
{
    let secret = config.secret.as_str().as_bytes();
    Password::hasher(secret, config)?;
    match hash {
        None => Err(Error::InvalidCredentials),
        Some(h) => {
            let phc = h.expose_secret();
            if !lanes_fit(phc.as_str()) {
                return Err(Error::InvalidCredentials);
            }
            if argon2_verify_password(
                secret,
                config.memory_size,
                config.iterations,
                config.parallelism_factor,
                config.output_length,
                password.as_bytes(),
                phc.as_str(),
            ) {
                Ok(())
            } else {
                Err(Error::InvalidCredentials)
            }
        },
    }
}

} // verus!
