use library_backend::auth::session::{TokenPair, ACCESS_TOKEN, REFRESH_TOKEN};
use library_backend::auth::user::{get_user, update_user, update_user_outcome, user_sql_id, UpdateUser, UserInfo};
use library_backend::client::Command;
use library_backend::error::Error;
use library_backend::id::{BookId, UserId};
use library_backend::secret::DbSecret;

const KEY: [u8; 16] = [42; 16];

fn hyphenated(u: u128) -> String {
    let hex = format!("{u:032x}");
    format!("{}-{}-{}-{}-{}", &hex[0..8], &hex[8..12], &hex[12..16], &hex[16..20], &hex[20..32])
}

#[test]
fn session_cookies() {
    let token = 0x67e5_5044_10b1_426f_9247_bb68_0e5f_e0c8u128;
    let pair = TokenPair { access_token: "jwt.text.here".to_string(), refresh_token: DbSecret::new(token) };
    let (access, refresh) = pair.cookies();
    assert_eq!(access.name, ACCESS_TOKEN);
    assert_eq!(access.name, "access-token");
    assert_eq!(access.value, "jwt.text.here");
    assert_eq!(access.path, "/");
    assert!(access.http_only);
    assert_eq!(refresh.name, REFRESH_TOKEN);
    assert_eq!(refresh.name, "refresh-token");
    assert_eq!(refresh.value, "67e55044-10b1-426f-9247-bb680e5fe0c8");
    assert_eq!(refresh.path, "/auth/refresh");
    assert!(refresh.http_only);
}

#[test]
fn refresh_cookie_is_hyphenated_hex() {
    for token in [0u128, 1, u128::MAX, 0x0123_4567_89ab_cdef_0011_2233_4455_6677] {
        let pair = TokenPair { access_token: String::new(), refresh_token: DbSecret::new(token) };
        assert_eq!(pair.cookies().1.value, hyphenated(token));
    }
}

#[test]
fn user_profiles() {
    let id = UserId::new(12, &KEY);
    assert_eq!(user_sql_id(id, &KEY).unwrap(), 12);
    assert!(matches!(user_sql_id(UserId::from_raw(BookId::new(12, &KEY).raw()), &KEY), Err(Error::NotFound)));
    assert!(matches!(get_user(id, None), Err(Error::NotFound)));
    let user = get_user(id, Some(UserInfo { name: "Ann".to_string(), email: "ann@x.y".to_string() })).unwrap();
    assert_eq!(user.id, id);
    assert_eq!((user.name.as_str(), user.email.as_str()), ("Ann", "ann@x.y"));
    let info = update_user(id, UpdateUser { name: "Bo".to_string() }, &KEY).unwrap();
    assert_eq!((info.id, info.name.as_str()), (12, "Bo"));
    assert!(matches!(update_user(UserId::from_raw(7), UpdateUser { name: "Bo".to_string() }, &KEY), Err(Error::NotFound)));
    assert!(update_user_outcome(1).is_ok());
    assert!(matches!(update_user_outcome(0), Err(Error::NotFound)));
}

#[test]
fn client_commands() {
    assert_eq!(Command::parse("settings"), Command::Settings);
    assert_eq!(Command::parse("lend"), Command::Lend);
    assert_eq!(Command::parse("return"), Command::Return);
    assert_eq!(Command::parse("quit"), Command::Quit);
    assert_eq!(Command::parse("Quit"), Command::Unknown("Quit".to_string()));
    assert_eq!(Command::parse(""), Command::Unknown(String::new()));
    assert_eq!(Command::not_found_message("dance"), "command not found: dance");
}
