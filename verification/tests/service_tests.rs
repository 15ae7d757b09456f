use library_backend::auth::role::Role;
use library_backend::catalog::{
    add_book, add_library, check_owns, delete_library, library_sql_id, list_libraries,
    list_library_books, update_library, view_library, DbBook, DbLibrary, NewBook, NewLibrary,
    UpdateLibrary,
};
use library_backend::config::{DatabaseConfig, Environment, SslMode};
use library_backend::error::Error;
use library_backend::id::{BookId, LibraryId, UserId};

const KEY: [u8; 16] = [9; 16];

#[test]
fn status_codes_and_messages() {
    let cases: Vec<(Error, u16, &str)> = vec![
        (Error::AccountExists, 409, "account already exists"),
        (Error::Validation("name must not be empty"), 422, "name must not be empty"),
        (Error::InvalidCredentials, 401, "invalid credentials"),
        (Error::LoggedOff, 401, "logged off"),
        (Error::NotFound, 404, "not found"),
        (Error::Unauthorized, 403, "unauthorized"),
        (Error::Internal("execute sql"), 500, "an unexpected error occurred"),
    ];
    for (e, code, text) in cases {
        assert_eq!(e.status_code(), code);
        assert_eq!(e.message(), text);
    }
}

#[test]
fn environments() {
    assert_eq!(Environment::parse("development"), Some(Environment::Development));
    assert_eq!(Environment::parse("production"), Some(Environment::Production));
    assert_eq!(Environment::parse("Production"), None);
    assert_eq!(Environment::parse(""), None);
    assert_eq!(Environment::Production.name(), "production");
    assert_eq!(Environment::Development.config_file_name(), "development.yaml");
    assert_eq!(Environment::variants(), vec!["development".to_string(), "production".to_string()]);
}

#[test]
fn ssl_mode_follows_config() {
    let mut c = DatabaseConfig {
        host: "localhost".to_string(),
        port: 5432,
        user: "u".to_string(),
        password: "p".to_string(),
        database: "d".to_string(),
        require_ssl: true,
    };
    assert_eq!(c.ssl_mode(), SslMode::Require);
    c.require_ssl = false;
    assert_eq!(c.ssl_mode(), SslMode::Prefer);
}

fn new_library(owner: UserId) -> NewLibrary {
    NewLibrary { owner_id: owner, name: "Central".to_string(), address: "Main st. 1".to_string() }
}

#[test]
fn adding_a_library() {
    let owner = UserId::new(3, &KEY);
    assert!(matches!(add_library(None, new_library(owner), &KEY), Err(Error::LoggedOff)));
    assert!(matches!(
        add_library(Some(Role::Client), new_library(owner), &KEY),
        Err(Error::Unauthorized)
    ));
    let created = add_library(Some(Role::Administrator), new_library(owner), &KEY).unwrap();
    assert_eq!(created.owner_id, 3);
    assert_eq!(created.name, "Central");
    assert_eq!(created.address, "Main st. 1");
    let not_a_user = UserId::from_raw(BookId::new(3, &KEY).raw());
    assert!(matches!(
        add_library(Some(Role::Administrator), new_library(not_a_user), &KEY),
        Err(Error::NotFound)
    ));
}

#[test]
fn updating_and_deleting_a_library() {
    let owner = UserId::new(3, &KEY);
    let lib = LibraryId::new(8, &KEY);
    let update = UpdateLibrary { owner_id: owner, name: "North".to_string(), address: "Hill 2".to_string() };
    let u = update_library(Some(Role::Administrator), lib, update.clone(), &KEY).unwrap();
    assert_eq!((u.id, u.owner_id, u.name.as_str(), u.address.as_str()), (8, 3, "North", "Hill 2"));
    assert!(matches!(update_library(Some(Role::Client), lib, update.clone(), &KEY), Err(Error::Unauthorized)));
    let bad = LibraryId::from_raw(12345);
    assert!(matches!(update_library(Some(Role::Administrator), bad, update, &KEY), Err(Error::NotFound)));
    assert_eq!(delete_library(Some(Role::Administrator), lib, &KEY).unwrap(), 8);
    assert!(matches!(delete_library(None, lib, &KEY), Err(Error::LoggedOff)));
    assert!(matches!(library_sql_id(bad, &KEY), Err(Error::NotFound)));
}

#[test]
fn viewing_libraries() {
    assert!(matches!(view_library(None, &KEY), Err(Error::NotFound)));
    let row = DbLibrary { id: 5, name: "A".to_string(), address: "B".to_string() };
    let lib = view_library(Some(row), &KEY).unwrap();
    assert_eq!(lib.id, LibraryId::new(5, &KEY));
    assert_eq!(lib.id.sql_id(&KEY), Ok(5));
    let rows = vec![
        DbLibrary { id: 1, name: "x".to_string(), address: "y".to_string() },
        DbLibrary { id: 2, name: "z".to_string(), address: "w".to_string() },
    ];
    let all = list_libraries(&rows, &KEY);
    assert_eq!(all.len(), 2);
    assert_eq!(all[1].id, LibraryId::new(2, &KEY));
    assert_eq!(all[1].name, "z");
    assert!(list_libraries(&vec![], &KEY).is_empty());
}

#[test]
fn books() {
    let owner = UserId::new(1, &KEY);
    let lib = LibraryId::new(2, &KEY);
    let book = NewBook { year: 1999, name: "N".to_string(), genre: "G".to_string(), author: "A".to_string() };
    let insert = add_book(owner, lib, book.clone(), &KEY).unwrap();
    assert_eq!((insert.owner_id, insert.library_id, insert.year), (1, 2, 1999));
    assert!(matches!(add_book(owner, LibraryId::from_raw(owner.raw()), book, &KEY), Err(Error::NotFound)));
    assert!(check_owns(true).is_ok());
    assert!(matches!(check_owns(false), Err(Error::Unauthorized)));
    let rows = vec![DbBook { id: 4, year: 2001, name: "N".to_string(), genre: "G".to_string(), author: "A".to_string() }];
    let books = list_library_books(&rows, &KEY);
    assert_eq!(books.len(), 1);
    assert_eq!(books[0].id, BookId::new(4, &KEY));
    assert_eq!(books[0].year, 2001);
}
