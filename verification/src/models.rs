//! The rows of the user table.

use vstd::prelude::*;

verus! {

/// A user as the table holds it.
#[derive(Debug, PartialEq, Eq)]
pub struct User {
    pub id: i32,
    pub username: String,
    /// The password hash, or nothing for a user who cannot log in by
    /// password.
    pub hashed_pass: Option<String>,
}

/// A user to be added to the table.
#[derive(Debug, PartialEq, Eq)]
pub struct NewUser<'a> {
    pub username: &'a str,
    pub hashed_pass: &'a str,
}

} // verus!
