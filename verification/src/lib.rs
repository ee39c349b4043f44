//! A small catalog of movie records: the records themselves, the rules
//! for adding, listing and deleting them, the menu-driven session, and
//! the delimited-line form in which a catalog can be written down.

pub mod text;
pub mod record;
pub mod catalog;
pub mod session;
pub mod storage;
pub mod lines;
pub mod clock;
