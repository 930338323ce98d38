//! A personal library manager: ISBN validation, password credentials,
//! a user directory and a per-user book catalog, with contracts proved by Verus.
pub mod isbn;
pub mod text;
pub mod credentials;
pub mod user;
pub mod directory;
pub mod book;
pub mod catalog;
pub mod menu;
pub mod session;
pub mod config;
pub mod lookup;
