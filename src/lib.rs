//! Lifecycle engine for `Person` records, with an ordered pipeline of hooks
//! (identifier syntax, credential hashing, audit records) around each
//! create, read, update and delete.
pub mod email;
pub mod logger;
pub mod password;
pub mod person;
