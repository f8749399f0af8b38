//! Link tokens: 128-bit values, drawn at random and written as UUIDs.
//!
//! Reading, writing and drawing a token is the work of the `uuid` and `rand`
//! crates. The functions that call them are believed, not proved; each says
//! what it takes from the crate it calls.

use vstd::prelude::*;

verus! {

/// `uuid::Error`, the error of `uuid::Uuid::parse_str`. It is carried
/// through as it is; nothing is known of what it holds.
#[verifier::external_type_specification]
#[verifier::external_body]
pub struct ExUuidError(uuid::Error);

/// The value that `uuid::Uuid::parse_str` reads from `text`, or `None` where
/// it reports an error. It accepts the hyphenated form and a few others.
pub uninterp spec fn parsed_uuid(text: Seq<char>) -> Option<u128>;

/// The lower-case hexadecimal digit for `n`.
pub open spec fn hex_char(n: int) -> char {
    seq!['0', '1', '2', '3', '4', '5', '6', '7', '8', '9', 'a', 'b', 'c', 'd', 'e', 'f'][n]
}

/// The `k`-th of the 32 hexadecimal digits of `token`, the highest first.
pub open spec fn nibble(token: u128, k: int) -> int {
    (token as int / vstd::arithmetic::power::pow(16, (31 - k) as nat)) % 16
}

/// Which digit stands at place `i` of the hyphenated form, for a place that
/// holds no hyphen.
pub open spec fn digit_index(i: int) -> int {
    if i < 8 {
        i
    } else if i < 13 {
        i - 1
    } else if i < 18 {
        i - 2
    } else if i < 23 {
        i - 3
    } else {
        i - 4
    }
}

/// The hyphenated form of `token`: its 32 lower-case hexadecimal digits in
/// groups of 8, 4, 4, 4 and 12.
pub open spec fn hyphenated(token: u128) -> Seq<char> {
    Seq::new(
        36,
        |i: int|
            if i == 8 || i == 13 || i == 18 || i == 23 {
                '-'
            } else {
                hex_char(nibble(token, digit_index(i)))
            },
    )
}

/// The number that `bytes` spell, the first byte being the highest.
pub open spec fn big_endian(bytes: Seq<u8>) -> int
    decreases bytes.len(),
{
    if bytes.len() == 0 {
        0
    } else {
        big_endian(bytes.drop_last()) * 256 + bytes.last() as int
    }
}

/// Sixteen bytes marked as a random UUID: the high half of byte 6 holds the
/// version, 4, and the two high bits of byte 8 the variant, `10`.
pub open spec fn stamped(bytes: Seq<u8>) -> Seq<u8> {
    bytes.update(6, (bytes[6] & 0x0f) | 0x40).update(8, (bytes[8] & 0x3f) | 0x80)
}

/// Calls `uuid::Uuid::parse_str` and hands out the value read as a number
/// (`Uuid::as_u128`). Believed: the outcome is that of the parser.
#[verifier::external_body]
fn uuid_parse_str(text: &str) -> (r: Result<u128, uuid::Error>)
    ensures
        match r {
            Ok(token) => parsed_uuid(text@) == Some(token),
            Err(_) => parsed_uuid(text@) is None,
        },
{
    match uuid::Uuid::parse_str(text) {
        Ok(id) => Ok(id.as_u128()),
        Err(e) => Err(e),
    }
}

/// Writes `token` with `Display` of `uuid::Uuid`. Believed: the text is the
/// lower-case hyphenated form, and `Uuid::parse_str` reads it back, as its
/// documentation says of every form the crate writes.
#[verifier::external_body]
fn uuid_to_string(token: u128) -> (text: String)
    ensures
        text@ == hyphenated(token),
        parsed_uuid(text@) == Some(token),
{
    uuid::Uuid::from_u128(token).to_string()
}

/// Calls `rand::random` for sixteen bytes. Nothing is known of them.
#[verifier::external_body]
fn random_bytes() -> (bytes: [u8; 16])
{
    rand::random()
}

/// Calls `uuid::Builder::from_random_bytes`. Believed: it sets the version
/// and variant bits and leaves the other bits as they are.
#[verifier::external_body]
fn uuid_from_random_bytes(bytes: [u8; 16]) -> (token: u128)
    ensures
        token == big_endian(stamped(bytes@)),
{
    uuid::Builder::from_random_bytes(bytes).into_uuid().as_u128()
}

/// Reads a token. `Ok` exactly where the text is a UUID.
pub fn parse_token(text: &str) -> (r: Result<u128, uuid::Error>)
    ensures
        match r {
            Ok(token) => parsed_uuid(text@) == Some(token),
            Err(_) => parsed_uuid(text@) is None,
        },
{
    uuid_parse_str(text)
}

/// Writes a token in the hyphenated form, which `parse_token` reads back.
pub fn format_token(token: u128) -> (text: String)
    ensures
        text@ == hyphenated(token),
        parsed_uuid(text@) == Some(token),
{
    uuid_to_string(token)
}

/// The token that sixteen random bytes give.
pub fn token_from_bytes(bytes: [u8; 16]) -> (token: u128)
    ensures
        token == big_endian(stamped(bytes@)),
{
    uuid_from_random_bytes(bytes)
}

/// A token that some sixteen bytes give: one that is marked as a random
/// UUID.
pub open spec fn is_random_token(token: u128) -> bool {
    exists|bytes: Seq<u8>| bytes.len() == 16 && token == big_endian(#[trigger] stamped(bytes))
}

/// Draws a token at random.
pub fn fresh_token() -> (token: u128)
    ensures
        is_random_token(token),
{
    let bytes = random_bytes();
    let token = token_from_bytes(bytes);
    assert(bytes@.len() == 16 && token == big_endian(stamped(bytes@)));
    token
}

/// Draws `count` tokens at random.
pub fn fresh_tokens(count: usize) -> (tokens: Vec<u128>)
    ensures
        tokens.len() == count,
        forall|i: int| 0 <= i < count ==> is_random_token(#[trigger] tokens@[i]),
{
    let mut tokens: Vec<u128> = Vec::new();
    while tokens.len() < count
        invariant
            tokens.len() <= count,
            forall|i: int| 0 <= i < tokens.len() ==> is_random_token(#[trigger] tokens@[i]),
        decreases count - tokens.len(),
    {
        tokens.push(fresh_token());
    }
    tokens
}

} // verus!
