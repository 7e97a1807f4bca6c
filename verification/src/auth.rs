//! Identity and secrets: room ids, admin secrets, session tokens, the admin
//! token, and password hashing.
//!
//! The admin token is never stored. It is the HMAC-SHA256 of the room's id
//! under the room's secret; clients derive it from the admin link, and the
//! server derives it again for every check and compares in constant time.

use vstd::prelude::*;
use vstd::utf8::encode_utf8;

use crate::outside::{
    ascii_alphanumeric, bcrypt_hash, bcrypt_verdict, bcrypt_verify, bytes_ct_eq, hex_encode,
    hex_text, hmac_sha256, hmac_sha256_of, random_alphanumeric, random_bytes,
};

verus! {

/// Whether a text is made of lowercase hexadecimal digits for so many bytes.
pub open spec fn is_hex_of(s: Seq<char>, bytes: nat) -> bool {
    exists|b: Seq<u8>| b.len() == bytes && s == #[trigger] hex_text(b)
}

/// Whether a text has the form of a room id: 3 bytes in hexadecimal.
pub open spec fn is_room_id(s: Seq<char>) -> bool {
    is_hex_of(s, 3)
}

/// Whether a text has the form of an admin secret: 16 letters and digits.
pub open spec fn is_secret(s: Seq<char>) -> bool {
    &&& s.len() == 16
    &&& forall|i: int| 0 <= i < s.len() ==> ascii_alphanumeric(#[trigger] s[i])
}

/// Whether a text has the form of a session token: 16 bytes in hexadecimal.
pub open spec fn is_session_token(s: Seq<char>) -> bool {
    is_hex_of(s, 16)
}

/// The admin token of a room.
pub open spec fn admin_token_of(secret: Seq<char>, room_id: Seq<char>) -> Seq<char> {
    hex_text(hmac_sha256(encode_utf8(secret), encode_utf8(room_id)))
}

/// Whether a password fits a stored hash. A hash that cannot be read fits no
/// password.
pub open spec fn password_fits(password: Seq<char>, hash: Seq<char>) -> bool {
    bcrypt_verdict(password, hash) == Some(true)
}

/// Why a password could not be hashed.
#[derive(Debug)]
pub enum HashError {
    /// The cost is not from 4 to 31.
    Cost,
    /// No salt could be drawn.
    Random,
}

/// The decimal digit of a value below 10.
pub open spec fn decimal_digit(n: u32) -> char {
    ('0' as u32 + n) as char
}

/// Whether a hash says that it was made with a cost. A hash has 60 characters:
/// the scheme, the cost in two digits, and then the salt and the digest.
pub open spec fn made_with(hash: Seq<char>, cost: u32) -> bool {
    &&& hash.len() == 60
    &&& hash.take(4) == "$2b$"@
    &&& hash[4] == decimal_digit(cost / 10)
    &&& hash[5] == decimal_digit(cost % 10)
    &&& hash[6] == '$'
}

/// A random room id: 3 bytes as 6 lowercase hexadecimal digits.
pub fn new_room_id() -> (r: String)
    ensures
        is_room_id(r@),
{
    let b: Vec<u8> = random_bytes(3);
    hex_encode(b.as_slice())
}

/// A random admin secret: 16 letters and digits.
pub fn new_secret() -> (r: String)
    ensures
        is_secret(r@),
{
    random_alphanumeric(16)
}

/// A random session token: 16 bytes as 32 lowercase hexadecimal digits.
pub fn new_session_token() -> (r: String)
    ensures
        is_session_token(r@),
{
    let b: Vec<u8> = random_bytes(16);
    hex_encode(b.as_slice())
}

/// The admin token of a room: the HMAC-SHA256 of its id under its secret, in
/// lowercase hexadecimal.
pub fn admin_token(secret: &str, room_id: &str) -> (r: String)
    ensures
        r@ == admin_token_of(secret@, room_id@),
        r@.len() == 64,
{
    let mac: Vec<u8> = hmac_sha256_of(secret.as_bytes(), room_id.as_bytes());
    hex_encode(mac.as_slice())
}

/// Whether two strings are equal, in constant time.
pub fn ct_eq(a: &str, b: &str) -> (r: bool)
    ensures
        r == (a@ == b@),
{
    proof {
        vstd::utf8::encode_utf8_decode_utf8(a@);
        vstd::utf8::encode_utf8_decode_utf8(b@);
    }
    bytes_ct_eq(a.as_bytes(), b.as_bytes())
}

/// Hashes a password, with so much work. The password fits the hash, and the
/// hash names the cost. It fails for a cost that is not from 4 to 31, or if no
/// salt can be drawn.
pub fn hash_password(password: &str, cost: u32) -> (r: Result<String, HashError>)
    ensures
        match r {
            Ok(h) => 4 <= cost <= 31 && password_fits(password@, h@) && made_with(h@, cost),
            Err(HashError::Cost) => !(4 <= cost <= 31),
            Err(HashError::Random) => true,
        },
{
    bcrypt_hash(password, cost)
}

/// Whether a password fits a stored hash.
pub fn verify_password(password: &str, hash: &str) -> (r: bool)
    ensures
        r == password_fits(password@, hash@),
{
    match bcrypt_verify(password, hash) {
        Ok(fits) => fits,
        Err(_) => false,
    }
}

} // verus!
