//! Accounts: credentials, passwords, roles and session tokens.
pub mod hashing;
pub mod password;
pub mod role;
pub mod session;
pub mod token;
pub mod user;
