//! Authentication and server-side sessions for a small application.
//!
//! Accounts are registered with a salted password hash, a login checks the
//! password and opens the one live session of the account, and a logout ends
//! a session. Every operation is executable Rust with a machine-checked
//! contract over a mathematical view of the two tables it works on.
//!
//! - [`errors`]: the failures an operation can report, and their HTTP status.
//! - [`hasher`]: hashing and checking passwords with `bcrypt`.
//! - [`table`]: rows with a primary key, and the map they stand for.
//! - [`schema`]: the `users` and the `sessions` table.
//! - [`db`]: the rows, the messages, the decisions of each operation, and the
//!   executor that owns the tables.
//! - [`api`]: the operations as a caller sees them, with the policy that a
//!   registration has to meet.
//! - [`lifecycle`]: theorems on the operations taken together.

pub mod api;
pub mod db;
pub mod errors;
pub mod hasher;
pub mod lifecycle;
pub mod schema;
pub mod table;
