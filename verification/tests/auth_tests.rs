use library_backend::auth::password::{
    lanes_fit, validate_password, verify_password, Password, PASSWORD_NO_LOWERCASE, PASSWORD_NO_NUMBER,
    PASSWORD_NO_UPPERCASE, PASSWORD_TOO_SHORT,
};
use library_backend::auth::role::{check_permission, is_administrator, require_administrator, Role};
use library_backend::auth::session::{
    sign_in, sign_up, sign_up_saved, Credentials, DbUser, SaveFailure,
};
use library_backend::auth::token::{access_claims, new_refresh_secret};
use library_backend::config::HasherConfig;
use library_backend::error::Error;
use library_backend::id::UserId;
use library_backend::secret::DbSecret;

const KEY: [u8; 16] = [3; 16];

fn cheap_hasher() -> HasherConfig {
    HasherConfig {
        secret: "pepper".to_string(),
        memory_size: 8,
        iterations: 1,
        parallelism_factor: 1,
        output_length: None,
    }
}

#[test]
fn password_rules_in_order() {
    assert_eq!(validate_password("Ab1"), Err(PASSWORD_TOO_SHORT));
    assert_eq!(validate_password("ABCDEFGH1"), Err(PASSWORD_NO_LOWERCASE));
    assert_eq!(validate_password("abcdefgh1"), Err(PASSWORD_NO_UPPERCASE));
    assert_eq!(validate_password("abcdEFGH"), Err(PASSWORD_NO_NUMBER));
    assert_eq!(validate_password("abcdEFG1"), Ok(()));
    assert_eq!(validate_password("password must be long"), Err(PASSWORD_NO_UPPERCASE));
}

#[test]
fn password_length_counts_bytes() {
    // Six characters, two of them of two bytes: eight bytes.
    assert_eq!(validate_password("éÉ1aaa"), Ok(()));
    // Five characters, seven bytes.
    assert_eq!(validate_password("éÉ1aa"), Err(PASSWORD_TOO_SHORT));
}

#[test]
fn password_uses_unicode_classes() {
    assert_eq!(validate_password("ßÄ٣xxxxxx"), Ok(()));
}

#[test]
fn password_new_names_the_rule() {
    match Password::new("short".to_string()) {
        Err(Error::Validation(m)) => assert_eq!(m, PASSWORD_TOO_SHORT),
        _ => panic!("expected a validation error"),
    }
    assert!(Password::new("Secret123".to_string()).is_ok());
    assert!(Password::try_from("Secret123".to_string()).is_ok());
}

#[test]
fn hashed_password_verifies() {
    let config = cheap_hasher();
    let password = Password::new("Secret123".to_string()).unwrap();
    let hash = password.hash(&config).unwrap();
    assert!(hash.expose_secret().starts_with("$argon2id$"));
    assert!(!hash.expose_secret().contains("Secret123"));
    assert!(verify_password("Secret123", Some(&hash), &config).is_ok());
    assert!(matches!(
        verify_password("Secret124", Some(&hash), &config),
        Err(Error::InvalidCredentials)
    ));
    assert!(matches!(verify_password("Secret123", None, &config), Err(Error::InvalidCredentials)));
}

#[test]
fn salts_differ() {
    let config = cheap_hasher();
    let password = Password::new("Secret123".to_string()).unwrap();
    let a = password.hash(&config).unwrap();
    let b = password.hash(&config).unwrap();
    assert_ne!(a.expose_secret(), b.expose_secret());
}

#[test]
fn pepper_matters() {
    let config = cheap_hasher();
    let password = Password::new("Secret123".to_string()).unwrap();
    let hash = password.hash(&config).unwrap();
    let mut other = cheap_hasher();
    other.secret = "another pepper".to_string();
    assert!(matches!(
        verify_password("Secret123", Some(&hash), &other),
        Err(Error::InvalidCredentials)
    ));
}

#[test]
fn invalid_hasher_settings() {
    let mut config = cheap_hasher();
    config.iterations = 0;
    let password = Password::new("Secret123".to_string()).unwrap();
    assert!(matches!(password.hash(&config), Err(Error::Internal("instantiate hasher"))));
    assert!(matches!(
        verify_password("Secret123", None, &config),
        Err(Error::Internal("instantiate hasher"))
    ));
    let mut config = cheap_hasher();
    config.memory_size = 7;
    assert!(matches!(password.hash(&config), Err(Error::Internal("instantiate hasher"))));
    let mut config = cheap_hasher();
    config.output_length = Some(3);
    assert!(matches!(password.hash(&config), Err(Error::Internal("instantiate hasher"))));
}

#[test]
fn roles_and_permissions() {
    assert!(is_administrator(Role::Administrator));
    assert!(!is_administrator(Role::Client));
    assert_eq!(Role::Administrator.name(), "administrator");
    assert_eq!(Role::Client.name(), "client");
    assert_eq!(Role::parse("client"), Some(Role::Client));
    assert_eq!(Role::parse("administrator"), Some(Role::Administrator));
    assert_eq!(Role::parse("Client"), None);
    assert!(matches!(check_permission(None, |_| true), Err(Error::LoggedOff)));
    assert!(check_permission(Some(Role::Client), |_| true).is_ok());
    assert!(matches!(check_permission(Some(Role::Client), |_| false), Err(Error::Unauthorized)));
    assert!(require_administrator(Some(Role::Administrator)).is_ok());
    assert!(matches!(require_administrator(Some(Role::Client)), Err(Error::Unauthorized)));
    assert!(matches!(require_administrator(None), Err(Error::LoggedOff)));
}

#[test]
fn refresh_secrets_are_v4_uuids() {
    let a = new_refresh_secret().unwrap();
    let b = new_refresh_secret().unwrap();
    assert_ne!(a.expose_secret(), b.expose_secret());
    for t in [a, b] {
        let u = *t.expose_secret();
        assert_eq!((u >> 76) & 0xF, 4);
        assert_eq!((u >> 62) & 0x3, 2);
    }
}

#[test]
fn access_claims_expire_after_ttl() {
    let id = UserId::new(1, &KEY);
    let c = access_claims(id, 1000, 900);
    assert_eq!((c.iat, c.exp), (1000, 1900));
    assert_eq!(c.id, id);
    let c = access_claims(id, 0, u64::MAX);
    assert_eq!((c.iat, c.exp), (0, u64::MAX));
}

#[test]
fn sign_up_checks_then_prepares_account() {
    let config = cheap_hasher();
    let bad = Credentials { email: "a@b.c".to_string(), password: "weak".to_string() };
    assert!(matches!(sign_up(bad, &config), Err(Error::Validation(m)) if m == PASSWORD_TOO_SHORT));
    let good = Credentials { email: "a@b.c".to_string(), password: "Secret123".to_string() };
    let user = sign_up(good, &config).unwrap();
    assert_eq!(user.email, "a@b.c");
    assert!(verify_password("Secret123", Some(&user.password_hash), &config).is_ok());
    assert_eq!((user.refresh_token.expose_secret() >> 76) & 0xF, 4);
}

#[test]
fn sign_up_outcome() {
    assert!(sign_up_saved(Ok(())).is_ok());
    assert!(matches!(sign_up_saved(Err(SaveFailure::UniqueViolation)), Err(Error::AccountExists)));
    assert!(matches!(sign_up_saved(Err(SaveFailure::Other)), Err(Error::Internal("execute sql"))));
}

#[test]
fn sign_in_with_the_sign_up_password() {
    let config = cheap_hasher();
    let creds = Credentials { email: "a@b.c".to_string(), password: "Secret123".to_string() };
    let user = sign_up(creds.clone(), &config).unwrap();
    let stored = DbUser { id: 41, password_hash: user.password_hash.clone(), refresh_token: user.refresh_token.clone() };
    let signed = sign_in(&creds, Some(stored), &config, &KEY, 600, 1_700_000_000).unwrap();
    assert_eq!(signed.claims.id, UserId::new(41, &KEY));
    assert_eq!(signed.claims.id.sql_id(&KEY), Ok(41));
    assert_eq!((signed.claims.iat, signed.claims.exp), (1_700_000_000, 1_700_000_600));
    assert_eq!(signed.refresh_token.expose_secret(), user.refresh_token.expose_secret());

    let wrong = Credentials { email: "a@b.c".to_string(), password: "Secret124".to_string() };
    let stored = DbUser { id: 41, password_hash: user.password_hash.clone(), refresh_token: user.refresh_token.clone() };
    assert!(matches!(sign_in(&wrong, Some(stored), &config, &KEY, 600, 5), Err(Error::InvalidCredentials)));
    assert!(matches!(sign_in(&creds, None, &config, &KEY, 600, 5), Err(Error::InvalidCredentials)));
    let stored = DbUser { id: 41, password_hash: user.password_hash.clone(), refresh_token: user.refresh_token.clone() };
    assert!(matches!(
        sign_in(&creds, Some(stored), &config, &KEY, 600, u64::MAX - 10),
        Err(Error::Internal("create access token"))
    ));
}

#[test]
fn db_secret_holds_its_value() {
    let s = DbSecret::new(5u32);
    assert_eq!(*s.expose_secret(), 5);
}

#[test]
fn hash_made_under_other_costs_still_signs_in() {
    let old = cheap_hasher();
    let creds = Credentials { email: "a@b.c".to_string(), password: "Secret123".to_string() };
    let user = sign_up(creds.clone(), &old).unwrap();
    let mut new = cheap_hasher();
    new.memory_size = 16;
    new.iterations = 2;
    let stored = DbUser { id: 3, password_hash: user.password_hash.clone(), refresh_token: user.refresh_token.clone() };
    assert!(sign_in(&creds, Some(stored), &new, &KEY, 60, 100).is_ok());
}

#[test]
fn lane_counts_in_stored_hashes() {
    assert!(lanes_fit("$argon2id$v=19$m=19456,t=2,p=1$c2FsdHNhbHQ$aGFzaA"));
    assert!(lanes_fit("$argon2id$v=19$m=19456,t=2,p=16777215$c2FsdHNhbHQ$aGFzaA"));
    assert!(!lanes_fit("$argon2id$v=19$m=19456,t=2,p=536870912$c2FsdHNhbHQ$aGFzaA"));
    assert!(!lanes_fit("p=123456789"));
    assert!(lanes_fit("p=12345678"));
    assert!(lanes_fit(""));
    let config = cheap_hasher();
    let huge = DbSecret::new("$argon2id$v=19$m=19456,t=2,p=4294967295$c2FsdHNhbHQ$aGFzaGhhc2hoYXNo".to_string());
    assert!(matches!(verify_password("Secret123", Some(&huge), &config), Err(Error::InvalidCredentials)));
    let password = Password::new("Secret123".to_string()).unwrap();
    let hash = password.hash(&config).unwrap();
    assert!(lanes_fit(hash.expose_secret()));
}
