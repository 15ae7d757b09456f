//! Libraries and their books: the checks and conversions of each request,
//! apart from the storage they use.
use vstd::prelude::*;
use crate::auth::role::{require_administrator, Role};
use crate::auth::user::user_sql_id;
use crate::error::Error;
use crate::id::{
    aes128_encrypt, sql_id_spec, tagged, BookId, LendingId, LibraryId, UserId, BOOK_TAG, LIBRARY_TAG, USER_TAG,
};

verus! {

/// A library as a client describes it.
#[derive(Clone, Debug)]
pub struct NewLibrary {
    pub owner_id: UserId,
    pub name: String,
    pub address: String,
}

/// New details of a library.
#[derive(Clone, Debug)]
pub struct UpdateLibrary {
    pub owner_id: UserId,
    pub name: String,
    pub address: String,
}

/// A library as clients see it.
#[derive(Clone, Debug)]
pub struct Library {
    pub id: LibraryId,
    pub name: String,
    pub address: String,
}

/// A library ready to be stored.
#[derive(Clone, Debug)]
pub struct CreateLibrary {
    pub owner_id: i64,
    pub name: String,
    pub address: String,
}

/// New details of a stored library.
#[derive(Clone, Debug)]
pub struct LibraryUpdate {
    pub id: i64,
    pub owner_id: i64,
    pub name: String,
    pub address: String,
}

/// A stored library.
#[derive(Clone, Debug)]
pub struct DbLibrary {
    pub id: i64,
    pub name: String,
    pub address: String,
}

/// A book as a client describes it.
#[derive(Clone, Debug)]
pub struct NewBook {
    pub year: i32,
    pub name: String,
    pub genre: String,
    pub author: String,
}

/// A book as clients see it.
#[derive(Clone, Debug)]
pub struct Book {
    pub id: BookId,
    pub year: i32,
    pub name: String,
    pub genre: String,
    pub author: String,
}

/// A book ready to be stored, with the owner who adds it.
#[derive(Clone, Debug)]
pub struct BookInsert {
    pub owner_id: i64,
    pub library_id: i64,
    pub year: i32,
    pub name: String,
    pub genre: String,
    pub author: String,
}

/// A stored book.
#[derive(Clone, Debug)]
pub struct DbBook {
    pub id: i64,
    pub year: i32,
    pub name: String,
    pub genre: String,
    pub author: String,
}

/// A lending as a client describes it: who borrows which book, from when
/// and for how long; the dates are carried as the text the client sent.
#[derive(Clone, Debug)]
pub struct NewLending {
    pub lendee_id: UserId,
    pub book_id: BookId,
    pub lent_on: String,
    pub lent_for: String,
}

/// A lending as clients see it; the dates are carried as text.
#[derive(Clone, Debug)]
pub struct Lending {
    pub id: LendingId,
    pub book_id: BookId,
    pub lendee_id: UserId,
    pub lent_on: String,
    pub due: String,
}

/// The database id of a library identifier; an identifier that names no
/// library is not found.
pub fn library_sql_id(id: LibraryId, key: &[u8; 16]) -> (result: Result<i64, Error>)
    ensures
        result == match sql_id_spec(LIBRARY_TAG, key@, id@) {
            Some(v) => Ok::<i64, Error>(v as i64),
            None => Err::<i64, Error>(Error::NotFound),
        },
{
    match id.sql_id(key) {
        Ok(v) => Ok(v),
        Err(_) => Err(Error::NotFound),
    }
}

/// Adding a library: administrators only; the owner must be a user.
pub fn add_library(admin_role: Option<Role>, library: NewLibrary, key: &[u8; 16]) -> (result: Result<
    CreateLibrary,
    Error,
>)
    ensures
        admin_role != Some(Role::Administrator) ==> result == Err::<CreateLibrary, Error>(
            if admin_role is None {
                Error::LoggedOff
            } else {
                Error::Unauthorized
            },
        ),
        admin_role == Some(Role::Administrator) ==> match sql_id_spec(USER_TAG, key@, library.owner_id@) {
            None => result == Err::<CreateLibrary, Error>(Error::NotFound),
            Some(owner) => result == Ok::<CreateLibrary, Error>(
                CreateLibrary { owner_id: owner as i64, name: library.name, address: library.address },
            ),
        },
{
    require_administrator(admin_role)?;
    let owner_id = user_sql_id(library.owner_id, key)?;
    Ok(CreateLibrary { owner_id, name: library.name, address: library.address })
}

/// Changing a library: administrators only; the library and the owner must
/// exist.
pub fn update_library(
    admin_role: Option<Role>,
    library_id: LibraryId,
    library: UpdateLibrary,
    key: &[u8; 16],
) -> (result: Result<LibraryUpdate, Error>)
    ensures
        admin_role != Some(Role::Administrator) ==> result == Err::<LibraryUpdate, Error>(
            if admin_role is None {
                Error::LoggedOff
            } else {
                Error::Unauthorized
            },
        ),
        admin_role == Some(Role::Administrator) ==> match (
            sql_id_spec(LIBRARY_TAG, key@, library_id@),
            sql_id_spec(USER_TAG, key@, library.owner_id@),
        ) {
            (Some(id), Some(owner)) => result == Ok::<LibraryUpdate, Error>(
                LibraryUpdate {
                    id: id as i64,
                    owner_id: owner as i64,
                    name: library.name,
                    address: library.address,
                },
            ),
            _ => result == Err::<LibraryUpdate, Error>(Error::NotFound),
        },
{
    require_administrator(admin_role)?;
    let id = library_sql_id(library_id, key)?;
    let owner_id = user_sql_id(library.owner_id, key)?;
    Ok(LibraryUpdate { id, owner_id, name: library.name, address: library.address })
}

/// Deleting a library: administrators only; answers the database id.
pub fn delete_library(admin_role: Option<Role>, library_id: LibraryId, key: &[u8; 16]) -> (result:
    Result<i64, Error>)
    ensures
        admin_role != Some(Role::Administrator) ==> result == Err::<i64, Error>(
            if admin_role is None {
                Error::LoggedOff
            } else {
                Error::Unauthorized
            },
        ),
        admin_role == Some(Role::Administrator) ==> result == match sql_id_spec(
            LIBRARY_TAG,
            key@,
            library_id@,
        ) {
            Some(id) => Ok::<i64, Error>(id as i64),
            None => Err::<i64, Error>(Error::NotFound),
        },
{
    require_administrator(admin_role)?;
    library_sql_id(library_id, key)
}

/// The library as clients see it: its identifier is made from its database id.
pub fn library_view(row: DbLibrary, key: &[u8; 16]) -> (result: Library)
    ensures
        result.id@ == aes128_encrypt(key@, tagged(LIBRARY_TAG, row.id as u64)),
        result.name == row.name,
        result.address == row.address,
{
    Library { id: LibraryId::new(row.id as u64, key), name: row.name, address: row.address }
}

/// Answers a request for one library, from the stored library if any.
pub fn view_library(row: Option<DbLibrary>, key: &[u8; 16]) -> (result: Result<Library, Error>)
    ensures
        match row {
            None => result == Err::<Library, Error>(Error::NotFound),
            Some(r) => match result {
                Ok(l) => l.id@ == aes128_encrypt(key@, tagged(LIBRARY_TAG, r.id as u64)) && l.name
                    == r.name && l.address == r.address,
                Err(_) => false,
            },
        },
{
    match row {
        None => Err(Error::NotFound),
        Some(r) => Ok(library_view(r, key)),
    }
}

/// Answers a request for all libraries, in the order they are stored.
pub fn list_libraries(rows: &Vec<DbLibrary>, key: &[u8; 16]) -> (result: Vec<Library>)
    ensures
        result@.len() == rows@.len(),
        forall|i: int|
            0 <= i < rows@.len() ==> {
                &&& (#[trigger] result@[i]).id@ == aes128_encrypt(
                    key@,
                    tagged(LIBRARY_TAG, rows@[i].id as u64),
                )
                &&& result@[i].name == rows@[i].name
                &&& result@[i].address == rows@[i].address
            },
{
    let mut out: Vec<Library> = Vec::new();
    let mut i: usize = 0;
    while i < rows.len()
        invariant
            0 <= i <= rows@.len(),
            out@.len() == i,
            forall|j: int|
                0 <= j < i ==> {
                    &&& (#[trigger] out@[j]).id@ == aes128_encrypt(
                        key@,
                        tagged(LIBRARY_TAG, rows@[j].id as u64),
                    )
                    &&& out@[j].name == rows@[j].name
                    &&& out@[j].address == rows@[j].address
                },
        decreases rows@.len() - i,
    {
        let row = &rows[i];
        let copy = DbLibrary { id: row.id, name: row.name.clone(), address: row.address.clone() };
        out.push(library_view(copy, key));
        i = i + 1;
    }
    out
}

/// Adding a book: the owner and the library must exist.
pub fn add_book(owner_id: UserId, library_id: LibraryId, book: NewBook, key: &[u8; 16]) -> (result:
    Result<BookInsert, Error>)
    ensures
        match (sql_id_spec(USER_TAG, key@, owner_id@), sql_id_spec(LIBRARY_TAG, key@, library_id@)) {
            (Some(owner), Some(library)) => result == Ok::<BookInsert, Error>(
                BookInsert {
                    owner_id: owner as i64,
                    library_id: library as i64,
                    year: book.year,
                    name: book.name,
                    genre: book.genre,
                    author: book.author,
                },
            ),
            _ => result == Err::<BookInsert, Error>(Error::NotFound),
        },
{
    let owner_id = user_sql_id(owner_id, key)?;
    let library_id = library_sql_id(library_id, key)?;
    Ok(
        BookInsert {
            owner_id,
            library_id,
            year: book.year,
            name: book.name,
            genre: book.genre,
            author: book.author,
        },
    )
}

/// Only the owner of a library adds books to it: `owns` says whether the
/// library belongs to the user.
pub fn check_owns(owns: bool) -> (result: Result<(), Error>)
    ensures
        result == if owns {
            Ok::<(), Error>(())
        } else {
            Err::<(), Error>(Error::Unauthorized)
        },
{
    if owns {
        Ok(())
    } else {
        Err(Error::Unauthorized)
    }
}

/// The book as clients see it: its identifier is made from its database id.
pub fn book_view(row: DbBook, key: &[u8; 16]) -> (result: Book)
    ensures
        result.id@ == aes128_encrypt(key@, tagged(BOOK_TAG, row.id as u64)),
        result.year == row.year,
        result.name == row.name,
        result.genre == row.genre,
        result.author == row.author,
{
    Book {
        id: BookId::new(row.id as u64, key),
        year: row.year,
        name: row.name,
        genre: row.genre,
        author: row.author,
    }
}

/// Answers a request for the books of a library, in the order they are
/// stored.
pub fn list_library_books(rows: &Vec<DbBook>, key: &[u8; 16]) -> (result: Vec<Book>)
    ensures
        result@.len() == rows@.len(),
        forall|i: int|
            0 <= i < rows@.len() ==> {
                &&& (#[trigger] result@[i]).id@ == aes128_encrypt(key@, tagged(BOOK_TAG, rows@[i].id as u64))
                &&& result@[i].year == rows@[i].year
                &&& result@[i].name == rows@[i].name
                &&& result@[i].genre == rows@[i].genre
                &&& result@[i].author == rows@[i].author
            },
{
    let mut out: Vec<Book> = Vec::new();
    let mut i: usize = 0;
    while i < rows.len()
        invariant
            0 <= i <= rows@.len(),
            out@.len() == i,
            forall|j: int|
                0 <= j < i ==> {
                    &&& (#[trigger] out@[j]).id@ == aes128_encrypt(
                        key@,
                        tagged(BOOK_TAG, rows@[j].id as u64),
                    )
                    &&& out@[j].year == rows@[j].year
                    &&& out@[j].name == rows@[j].name
                    &&& out@[j].genre == rows@[j].genre
                    &&& out@[j].author == rows@[j].author
                },
        decreases rows@.len() - i,
    {
        let row = &rows[i];
        let copy = DbBook {
            id: row.id,
            year: row.year,
            name: row.name.clone(),
            genre: row.genre.clone(),
            author: row.author.clone(),
        };
        out.push(book_view(copy, key));
        i = i + 1;
    }
    out
}

} // verus!
