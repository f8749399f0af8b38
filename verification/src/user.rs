//! Logging in and registering by password: what is decided before and after
//! the user table is read or written.
//!
//! Hashing and checking a password is the work of `sodiumoxide`; the
//! functions that call it are believed, not proved, and promise nothing of
//! what comes back. The table itself is read and written by the caller.

use crate::models::{NewUser, User};
use vstd::prelude::*;
use vstd::slice::slice_subrange;
use vstd::string::StringSliceAdditionalSpecFns;
use vstd::utf8::valid_utf8;

verus! {

/// The length of a stored password hash, in bytes, with its padding.
pub const HASHED_PASSWORD_BYTES: usize = 128;

/// The memory that hashing a password may use: 4 MiB.
pub const MEM_LIMIT: usize = 4194304;

/// Why a login or a registration fails.
#[derive(Debug, PartialEq, Eq)]
pub enum AuthError {
    /// No user of that name, or more than one row for it.
    UserNotFound { username: String },
    /// The name is taken.
    UserExists { username: String },
    /// The user has no password hash.
    PasswordDisabled,
    PasswordIncorrect,
    /// The password could not be hashed.
    HashFailed,
    /// The user is not in the table after being added.
    NotInserted,
}

/// Calls `sodiumoxide::crypto::pwhash::argon2id13::pwhash_verify`. Nothing
/// is claimed of the answer.
#[verifier::external_body]
fn sodium_pwhash_verify(hash: &[u8; 128], password: &[u8]) -> (ok: bool) {
    sodiumoxide::crypto::pwhash::argon2id13::pwhash_verify(
        &sodiumoxide::crypto::pwhash::argon2id13::HashedPassword(*hash),
        password,
    )
}

/// Reads `sodiumoxide::crypto::pwhash::argon2id13::OPSLIMIT_INTERACTIVE`,
/// the number of passes that the crate advises for hashing while a user
/// waits.
#[verifier::external_body]
fn interactive_ops_limit() -> (limit: usize) {
    sodiumoxide::crypto::pwhash::argon2id13::OPSLIMIT_INTERACTIVE.0
}

/// Calls `sodiumoxide::crypto::pwhash::argon2id13::pwhash` with the limits
/// given. Nothing is claimed of the hash: it holds a salt drawn at random.
#[verifier::external_body]
fn sodium_pwhash(password: &[u8], ops_limit: usize, mem_limit: usize) -> (hash: Option<[u8; 128]>) {
    match sodiumoxide::crypto::pwhash::argon2id13::pwhash(
        password,
        sodiumoxide::crypto::pwhash::argon2id13::OpsLimit(ops_limit),
        sodiumoxide::crypto::pwhash::argon2id13::MemLimit(mem_limit),
    ) {
        Ok(hashed) => Some(hashed.0),
        Err(_) => None,
    }
}

/// Calls `std::str::from_utf8`. Believed: the text has exactly the bytes
/// given, and there is none exactly where they are not UTF-8.
#[verifier::external_body]
fn str_from_utf8(bytes: &[u8]) -> (text: Option<&str>)
    ensures
        match text {
            Some(s) => s.spec_bytes() == bytes@,
            None => !valid_utf8(bytes@),
        },
{
    std::str::from_utf8(bytes).ok()
}

/// `bytes` followed by as many zero bytes as fill it up to `len`.
pub open spec fn zero_padded(bytes: Seq<u8>, len: nat) -> Seq<u8> {
    Seq::new(
        len,
        |i: int|
            if i < bytes.len() {
                bytes[i]
            } else {
                0u8
            },
    )
}

/// `bytes` without the zero bytes at its end.
pub open spec fn without_padding(bytes: Seq<u8>) -> Seq<u8>
    decreases bytes.len(),
{
    if bytes.len() > 0 && bytes.last() == 0 {
        without_padding(bytes.drop_last())
    } else {
        bytes
    }
}

/// A stored hash as the bytes that are checked: the text, filled up with
/// zero bytes.
pub fn padded_hash(hashed_pass: &str) -> (hash: [u8; 128])
    requires
        hashed_pass.spec_bytes().len() <= HASHED_PASSWORD_BYTES,
    ensures
        hash@ == zero_padded(hashed_pass.spec_bytes(), HASHED_PASSWORD_BYTES as nat),
{
    let bytes = hashed_pass.as_bytes();
    let mut hash = [0u8;128];
    let mut i: usize = 0;
    while i < bytes.len()
        invariant
            i <= bytes.len() <= HASHED_PASSWORD_BYTES,
            bytes@ == hashed_pass.spec_bytes(),
            forall|j: int| 0 <= j < i ==> hash@[j] == bytes@[j],
            forall|j: int| i <= j < 128 ==> hash@[j] == 0,
        decreases bytes.len() - i,
    {
        hash[i] = bytes[i];
        i += 1;
    }
    assert(hash@ =~= zero_padded(hashed_pass.spec_bytes(), HASHED_PASSWORD_BYTES as nat));
    hash
}

/// A fresh hash as the text that is stored: its bytes up to the padding.
/// There is none where those bytes are no text.
pub fn pwhash_as_str(pwhash: &[u8; 128]) -> (text: Option<String>)
    ensures
        match text {
            Some(s) => vstd::utf8::encode_utf8(s@) == without_padding(pwhash@),
            None => !valid_utf8(without_padding(pwhash@)),
        },
{
    let mut end: usize = 128;
    proof {
        assert(pwhash@.take(128) =~= pwhash@);
    }
    while end > 0 && pwhash[end - 1] == 0
        invariant
            end <= 128,
            without_padding(pwhash@) == without_padding(pwhash@.take(end as int)),
        decreases end,
    {
        proof {
            assert(pwhash@.take(end as int).drop_last() =~= pwhash@.take(end - 1));
        }
        end -= 1;
    }
    let kept = slice_subrange(pwhash.as_slice(), 0, end);
    proof {
        assert(kept@ =~= pwhash@.take(end as int));
        assert(without_padding(kept@) == kept@);
    }
    match str_from_utf8(kept) {
        Some(s) => Some(s.to_owned()),
        None => None,
    }
}

/// Hashes a password for storing.
fn pwhash(password: &str) -> (hash: Option<[u8; 128]>) {
    sodium_pwhash(password.as_bytes(), interactive_ops_limit(), MEM_LIMIT)
}

/// Checks a password against a stored hash.
fn pwhash_verify(plain_pass: &str, hashed_pass: &str) -> (r: Result<(), AuthError>)
    requires
        hashed_pass.spec_bytes().len() <= HASHED_PASSWORD_BYTES,
    ensures
        r is Err ==> r == Err::<(), AuthError>(AuthError::PasswordIncorrect),
{
    let hash = padded_hash(hashed_pass);
    if sodium_pwhash_verify(&hash, plain_pass.as_bytes()) {
        Ok(())
    } else {
        Err(AuthError::PasswordIncorrect)
    }
}

/// The row to check a password against: the only one found.
pub open spec fn login_row(records: Seq<User>) -> Option<User> {
    if records.len() == 1 {
        Some(records[0])
    } else {
        None
    }
}

/// What a login gives when the rows found for the name are `records` and the
/// check of the password against the stored hash, where there is one to
/// check, went as `verified` says.
pub open spec fn login_outcome(username: Seq<char>, records: Seq<User>, verified: bool, r: Result<
    i32,
    AuthError,
>) -> bool {
    match login_row(records) {
        None => r matches Err(AuthError::UserNotFound { username: name }) && name@ == username,
        Some(user) => if user.hashed_pass is None {
            r == Err::<i32, AuthError>(AuthError::PasswordDisabled)
        } else if !verified {
            r == Err::<i32, AuthError>(AuthError::PasswordIncorrect)
        } else {
            r == Ok::<i32, AuthError>(user.id)
        },
    }
}

/// Concludes a login from the rows found and the outcome of the password
/// check.
pub fn login_with(input_username: &str, records: &Vec<User>, verified: bool) -> (r: Result<
    i32,
    AuthError,
>)
    ensures
        login_outcome(input_username@, records@, verified, r),
{
    if records.len() != 1 {
        return Err(AuthError::UserNotFound { username: input_username.to_owned() });
    }
    if records[0].hashed_pass.is_none() {
        return Err(AuthError::PasswordDisabled);
    }
    if !verified {
        return Err(AuthError::PasswordIncorrect);
    }
    Ok(records[0].id)
}

/// Whether the stored hash that a login checks, if there is one, is short
/// enough to be checked.
pub open spec fn hash_fits(records: Seq<User>) -> bool {
    login_row(records) matches Some(user) ==> (user.hashed_pass matches Some(hash)
        ==> vstd::utf8::encode_utf8(hash@).len() <= HASHED_PASSWORD_BYTES)
}

/// Logs a user in, given the rows that the table holds for the name: the
/// user's id where there is exactly one row, it has a hash, and the password
/// checks against it.
pub fn login(input_username: &str, input_password: &str, records: &Vec<User>) -> (r: Result<
    i32,
    AuthError,
>)
    requires
        hash_fits(records@),
    ensures
        exists|verified: bool| #[trigger] login_outcome(input_username@, records@, verified, r),
{
    let verified = if records.len() == 1 {
        match &records[0].hashed_pass {
            Some(hash) => pwhash_verify(input_password, hash.as_str()).is_ok(),
            None => false,
        }
    } else {
        false
    };
    login_with(input_username, records, verified)
}

/// Whether a name is free, given the rows that the table holds for it.
pub fn ensure_absent(input_username: &str, records: &Vec<User>) -> (r: Result<(), AuthError>)
    ensures
        records@.len() == 0 ==> r is Ok,
        records@.len() != 0 ==> (r matches Err(AuthError::UserExists { username })
            && username@ == input_username@),
{
    if records.len() == 0 {
        Ok(())
    } else {
        Err(AuthError::UserExists { username: input_username.to_owned() })
    }
}

/// Taking the padding away makes nothing longer.
pub proof fn lemma_without_padding_is_shorter(bytes: Seq<u8>)
    ensures
        without_padding(bytes).len() <= bytes.len(),
    decreases bytes.len(),
{
    if bytes.len() > 0 && bytes.last() == 0 {
        lemma_without_padding_is_shorter(bytes.drop_last());
    }
}

/// Whether `r` is what is stored for the outcome `hash` of hashing: nothing
/// where hashing gave no hash; else the bytes of the hash up to its padding,
/// as text, or nothing where those bytes are no text.
pub open spec fn is_stored_form(hash: Option<Seq<u8>>, r: Result<String, AuthError>) -> bool {
    match hash {
        None => r == Err::<String, AuthError>(AuthError::HashFailed),
        Some(bytes) => if valid_utf8(without_padding(bytes)) {
            r matches Ok(text) && vstd::utf8::encode_utf8(text@) == without_padding(bytes)
        } else {
            r == Err::<String, AuthError>(AuthError::HashFailed)
        },
    }
}

/// The bytes of a hash, if there is one.
pub open spec fn hash_bytes(hash: Option<[u8; 128]>) -> Option<Seq<u8>> {
    match hash {
        Some(bytes) => Some(bytes@),
        None => None,
    }
}

/// What is stored for the outcome of hashing a password.
pub fn stored_form(hash: Option<[u8; 128]>) -> (r: Result<String, AuthError>)
    ensures
        is_stored_form(hash_bytes(hash), r),
{
    match hash {
        None => Err(AuthError::HashFailed),
        Some(bytes) => match pwhash_as_str(&bytes) {
            None => Err(AuthError::HashFailed),
            Some(text) => {
                proof {
                    vstd::utf8::encode_utf8_valid_utf8(text@);
                }
                Ok(text)
            },
        },
    }
}

/// The hash to store for a new password, as text: the stored form of
/// whatever hashing the password gave. It is short enough to be checked
/// again.
pub fn new_password_hash(input_password: &str) -> (r: Result<String, AuthError>)
    ensures
        exists|hash: Option<Seq<u8>>|
            (hash matches Some(bytes) ==> bytes.len() == HASHED_PASSWORD_BYTES)
                && #[trigger] is_stored_form(hash, r),
        match r {
            Ok(text) => vstd::utf8::encode_utf8(text@).len() <= HASHED_PASSWORD_BYTES,
            Err(e) => e == AuthError::HashFailed,
        },
{
    let hash = pwhash(input_password);
    proof {
        if let Some(bytes) = hash {
            lemma_without_padding_is_shorter(bytes@);
        }
    }
    let r = stored_form(hash);
    proof {
        assert(is_stored_form(hash_bytes(hash), r));
    }
    r
}

/// The row to add for a new user.
pub fn new_user<'a>(input_username: &'a str, hashed_pass: &'a str) -> (user: NewUser<'a>)
    ensures
        user.username == input_username,
        user.hashed_pass == hashed_pass,
{
    NewUser { username: input_username, hashed_pass }
}

/// The id of a user that was just added, given the rows that the table now
/// holds for the name.
pub fn inserted_id(records: &Vec<User>) -> (r: Result<i32, AuthError>)
    ensures
        r == (if records@.len() == 1 {
            Ok::<i32, AuthError>(records@[0].id)
        } else {
            Err::<i32, AuthError>(AuthError::NotInserted)
        }),
{
    if records.len() == 1 {
        Ok(records[0].id)
    } else {
        Err(AuthError::NotInserted)
    }
}

} // verus!
