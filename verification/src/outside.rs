//! Everything the library takes on trust: the calls into `std` and into other
//! crates, each with the contract the rest of the library relies on.

use vstd::prelude::*;

use crate::auth::{made_with, password_fits, HashError};
use crate::json::{plain, writable, Json, JsonView};
use crate::list::views;
use crate::state::{Room, RoomModel};

use hmac::Mac;
use rand::distributions::Alphanumeric;
use rand::{Rng, RngCore};
use subtle::ConstantTimeEq;

verus! {

// ── std ─────────────────────────────────────────────────────────────────────

/// Whether a character has the Unicode `White_Space` property.
pub open spec fn white_space(c: char) -> bool {
    let n = c as u32;
    ||| 0x9 <= n <= 0xD
    ||| n == 0x20 || n == 0x85 || n == 0xA0 || n == 0x1680
    ||| 0x2000 <= n <= 0x200A
    ||| n == 0x2028 || n == 0x2029 || n == 0x202F || n == 0x205F || n == 0x3000
}

/// `char::is_whitespace`: whether the character has the Unicode `White_Space`
/// property.
pub assume_specification[ char::is_whitespace ](c: char) -> (r: bool)
    ensures
        r == white_space(c),
;

/// A reading of the system clock.
#[verifier::external_type_specification]
#[verifier::external_body]
pub struct ExSystemTime(std::time::SystemTime);

/// What comes back for a clock reading that lies before the one it is
/// compared with.
#[verifier::external_type_specification]
#[verifier::external_body]
pub struct ExSystemTimeError(std::time::SystemTimeError);

/// `SystemTime::now`: some reading of the clock; nothing is said of it.
pub assume_specification[ std::time::SystemTime::now ]() -> std::time::SystemTime
;

/// `SystemTime::duration_since`, from the Unix epoch. Nothing is said of the
/// result: it depends on the clock.
#[verifier::external_body]
pub(crate) fn since_unix_epoch(t: std::time::SystemTime) -> (r: Result<
    std::time::Duration,
    std::time::SystemTimeError,
>) {
    t.duration_since(std::time::UNIX_EPOCH)
}

/// `Duration::as_millis`. Nothing is said of the result: a duration is opaque
/// here.
pub assume_specification[ std::time::Duration::as_millis ](d: &std::time::Duration) -> u128
;

// ── serde_json ──────────────────────────────────────────────────────────────

/// A JSON value of `serde_json`: a collection of members, items and leaves.
#[verifier::external_type_specification]
#[verifier::external_body]
pub struct ExJsonValue(serde_json::Value);

/// An error of `serde_json`.
#[verifier::external_type_specification]
#[verifier::external_body]
pub struct ExJsonError(serde_json::Error);

/// What a `serde_json::Value` holds.
pub uninterp spec fn value_contents(v: serde_json::Value) -> JsonView;

/// The JSON value that a text holds, if it is JSON text.
pub uninterp spec fn json_of_text(text: Seq<char>) -> Option<JsonView>;

/// The text that `serde_json` writes for a JSON value.
pub uninterp spec fn json_text(j: JsonView) -> Seq<char>;

/// `serde_json::from_str::<Value>`. Which texts are JSON, and what they hold,
/// is the name `json_of_text`.
#[verifier::external_body]
pub(crate) fn read_value(text: &str) -> (r: Result<serde_json::Value, serde_json::Error>)
    ensures
        match r {
            Ok(v) => json_of_text(text@) == Some(value_contents(v)),
            Err(_) => json_of_text(text@) is None,
        },
{
    serde_json::from_str::<serde_json::Value>(text)
}

/// Hands out what a `serde_json::Value` holds, variant by variant; of a number
/// it keeps what `Number::as_u64` gives.
#[verifier::external_body]
pub(crate) fn json_from_value(v: serde_json::Value) -> (r: Json)
    ensures
        r@ == value_contents(v),
{
    match v {
        serde_json::Value::Null => Json::Null,
        serde_json::Value::Bool(b) => Json::Bool(b),
        serde_json::Value::Number(n) => Json::Number(n.as_u64()),
        serde_json::Value::String(s) => Json::Str(s),
        serde_json::Value::Array(a) => Json::Array(a.into_iter().map(json_from_value).collect()),
        serde_json::Value::Object(o) => Json::Object(
            o.into_iter().map(|(k, v)| (k, json_from_value(v))).collect(),
        ),
    }
}

/// Builds the `serde_json::Value` that holds the same, variant by variant. A
/// number that is no `u64` has nothing to stand for it, so `writable` leaves
/// it out, and values nested without bound.
#[verifier::external_body]
pub(crate) fn value_from_json(j: &Json) -> (r: serde_json::Value)
    requires
        writable(j@, 64),
    ensures
        value_contents(r) == j@,
{
    match j {
        Json::Null => serde_json::Value::Null,
        Json::Bool(b) => serde_json::Value::Bool(*b),
        Json::Number(n) => serde_json::Value::from(*n),
        Json::Str(s) => serde_json::Value::String(s.clone()),
        Json::Array(a) => serde_json::Value::Array(a.iter().map(value_from_json).collect()),
        Json::Object(o) => serde_json::Value::Object(
            o.iter().map(|(k, v)| (k.clone(), value_from_json(v))).collect(),
        ),
    }
}

/// `serde_json::Value::to_string`: the text depends on what the value holds
/// alone, and reading it back gives the same, for values that are not nested
/// deeper than the reader follows (127 levels) and whose numbers are in the
/// range of `u64`, which `writable` asks for. Of values with a member whose name
/// begins with a dollar sign it is not said that they are read back: the reader
/// takes an object that starts with `$serde_json::private::RawValue` for
/// something else.
#[verifier::external_body]
pub(crate) fn write_value(v: &serde_json::Value) -> (r: String)
    requires
        writable(value_contents(*v), 64),
    ensures
        r@ == json_text(value_contents(*v)),
        plain(value_contents(*v), 64) ==> json_of_text(r@) == Some(value_contents(*v)),
{
    v.to_string()
}

// ── bcrypt ──────────────────────────────────────────────────────────────────

/// An error of the `bcrypt` crate.
#[verifier::external_type_specification]
#[verifier::external_body]
pub struct ExBcryptError(bcrypt::BcryptError);

/// What `bcrypt` answers when asked whether a password fits a hash: `None`
/// where the hash is not one it can read.
pub uninterp spec fn bcrypt_verdict(password: Seq<char>, hash: Seq<char>) -> Option<bool>;

/// `bcrypt::hash`. The salt is random, so the hash is no function of the
/// arguments. A hash comes back only for a cost from 4 to 31; it names the cost,
/// and the password it was made from fits it. Only any other cost is refused as
/// such. That a hash comes back for every cost from 4 to 31 is not said: drawing
/// the salt can fail, which is the one other error.
#[verifier::external_body]
pub(crate) fn bcrypt_hash(password: &str, cost: u32) -> (r: Result<String, HashError>)
    ensures
        match r {
            Ok(h) => 4 <= cost <= 31 && password_fits(password@, h@) && made_with(h@, cost),
            Err(HashError::Cost) => !(4 <= cost <= 31),
            Err(HashError::Random) => true,
        },
{
    match bcrypt::hash(password, cost) {
        Ok(h) => Ok(h),
        Err(bcrypt::BcryptError::CostNotAllowed(_)) => Err(HashError::Cost),
        Err(_) => Err(HashError::Random),
    }
}

/// `bcrypt::verify`: a function of the password and the hash.
#[verifier::external_body]
pub(crate) fn bcrypt_verify(password: &str, hash: &str) -> (r: Result<bool, bcrypt::BcryptError>)
    ensures
        match r {
            Ok(b) => bcrypt_verdict(password@, hash@) == Some(b),
            Err(_) => bcrypt_verdict(password@, hash@) is None,
        },
{
    bcrypt::verify(password, hash)
}

// ── hmac, sha2 ──────────────────────────────────────────────────────────────

/// The HMAC-SHA256 of a message under a key.
pub uninterp spec fn hmac_sha256(key: Seq<u8>, message: Seq<u8>) -> Seq<u8>;

/// `Hmac::<Sha256>`: `new_from_slice`, `update`, `finalize`. Keys of any size
/// are accepted; the code is 32 bytes long.
#[verifier::external_body]
pub(crate) fn hmac_sha256_of(key: &[u8], message: &[u8]) -> (r: Vec<u8>)
    ensures
        r@ == hmac_sha256(key@, message@),
        r@.len() == 32,
{
    let mut mac = hmac::Hmac::<sha2::Sha256>::new_from_slice(key).expect(
        "HMAC accepts keys of any size",
    );
    mac.update(message);
    mac.finalize().into_bytes().to_vec()
}

// ── hex ─────────────────────────────────────────────────────────────────────

/// The lowercase hexadecimal digit of a value below 16.
pub open spec fn hex_digit(n: u8) -> char {
    if n < 10 {
        ('0' as u32 + n) as char
    } else {
        ('a' as u32 + n - 10) as char
    }
}

/// Two lowercase hexadecimal digits for each byte, high one first.
pub open spec fn hex_text(bytes: Seq<u8>) -> Seq<char> {
    Seq::new(
        2 * bytes.len(),
        |i: int| hex_digit(
            if i % 2 == 0 {
                bytes[i / 2] / 16
            } else {
                bytes[i / 2] % 16
            },
        ),
    )
}

/// `hex::encode`: two lowercase digits for each byte.
#[verifier::external_body]
pub(crate) fn hex_encode(bytes: &[u8]) -> (r: String)
    ensures
        r@ == hex_text(bytes@),
{
    hex::encode(bytes)
}

// ── rand ────────────────────────────────────────────────────────────────────

/// `RngCore::fill_bytes` of `rand::thread_rng`: that many bytes, whatever they
/// are.
#[verifier::external_body]
pub(crate) fn random_bytes(n: usize) -> (r: Vec<u8>)
    ensures
        r@.len() == n,
{
    let mut bytes = vec![0u8; n];
    rand::thread_rng().fill_bytes(&mut bytes);
    bytes
}

/// Whether a character is an ASCII letter or digit.
pub open spec fn ascii_alphanumeric(c: char) -> bool {
    'a' <= c <= 'z' || 'A' <= c <= 'Z' || '0' <= c <= '9'
}

/// `Rng::sample_iter` of `rand::thread_rng` over `Alphanumeric`: that many
/// ASCII letters and digits, whatever they are.
#[verifier::external_body]
pub(crate) fn random_alphanumeric(n: usize) -> (r: String)
    ensures
        r@.len() == n,
        forall|i: int| 0 <= i < n ==> ascii_alphanumeric(#[trigger] r@[i]),
{
    rand::thread_rng().sample_iter(&Alphanumeric).take(n).map(char::from).collect()
}

// ── subtle ──────────────────────────────────────────────────────────────────

/// `ConstantTimeEq::ct_eq` on byte slices: whether they are equal.
#[verifier::external_body]
pub(crate) fn bytes_ct_eq(a: &[u8], b: &[u8]) -> (r: bool)
    ensures
        r == (a@ == b@),
{
    a.ct_eq(b).into()
}

// ── mime_guess ──────────────────────────────────────────────────────────────

/// The media type that `mime_guess` finds for a path.
pub uninterp spec fn media_type(path: Seq<char>) -> Seq<char>;

/// Whether a path means the same on every operating system: it has no backslash
/// and no colon, and does not begin with two slashes.
pub open spec fn portable(path: Seq<char>) -> bool {
    &&& !path.contains('\\')
    &&& !path.contains(':')
    &&& !(path.len() >= 2 && path[0] == '/' && path[1] == '/')
}

/// `mime_guess::from_path` and `first_or_octet_stream`: a function of the
/// path. Paths that do not mean the same everywhere are left out: what their
/// extension is depends on the operating system.
#[verifier::external_body]
pub(crate) fn guess_media_type(path: &str) -> (r: String)
    ensures
        portable(path@) ==> r@ == media_type(path@),
{
    mime_guess::from_path(path).first_or_octet_stream().to_string()
}

// ── dashmap ─────────────────────────────────────────────────────────────────

/// The concurrent map of the `dashmap` crate. All calls here take it by `&mut`,
/// so nothing else changes it meanwhile.
#[verifier::external_type_specification]
#[verifier::external_body]
#[verifier::reject_recursive_types(K)]
#[verifier::reject_recursive_types(V)]
#[verifier::reject_recursive_types(S)]
pub struct ExDashMap<K, V, S>(dashmap::DashMap<K, V, S>);

/// The rooms that a map holds, by id.
pub uninterp spec fn rooms_held(m: dashmap::DashMap<String, Room>) -> Map<Seq<char>, RoomModel>;

/// The room creations that a map holds, by address.
pub uninterp spec fn creations_held(m: dashmap::DashMap<String, Vec<u64>>) -> Map<
    Seq<char>,
    Seq<u64>,
>;

/// `DashMap::new`: a map that holds nothing.
#[verifier::external_body]
pub(crate) fn rooms_new() -> (r: dashmap::DashMap<String, Room>)
    ensures
        rooms_held(r).dom() == Set::<Seq<char>>::empty(),
{
    dashmap::DashMap::new()
}

/// `DashMap::contains_key`.
#[verifier::external_body]
pub(crate) fn rooms_contain(m: &mut dashmap::DashMap<String, Room>, id: &str) -> (r: bool)
    ensures
        r == rooms_held(*old(m)).contains_key(id@),
        rooms_held(*final(m)) == rooms_held(*old(m)),
{
    m.contains_key(id)
}

/// `DashMap::insert`: the value stands at the key, in place of any other.
#[verifier::external_body]
pub(crate) fn rooms_insert(m: &mut dashmap::DashMap<String, Room>, id: String, room: Room)
    ensures
        rooms_held(*final(m)) == rooms_held(*old(m)).insert(id@, room@),
{
    m.insert(id, room);
}

/// `DashMap::remove`: takes out what stands at the key.
#[verifier::external_body]
pub(crate) fn rooms_remove(m: &mut dashmap::DashMap<String, Room>, id: &str) -> (r: Option<Room>)
    ensures
        rooms_held(*final(m)) == rooms_held(*old(m)).remove(id@),
        match r {
            Some(room) => rooms_held(*old(m)).contains_key(id@) && room@
                == rooms_held(*old(m))[id@],
            None => !rooms_held(*old(m)).contains_key(id@),
        },
{
    m.remove(id).map(|(_, room)| room)
}

/// `DashMap::iter`, of which only the keys are kept: each key once, in an order
/// of which nothing is said.
#[verifier::external_body]
pub(crate) fn rooms_ids(m: &mut dashmap::DashMap<String, Room>) -> (r: Vec<String>)
    ensures
        rooms_held(*final(m)) == rooms_held(*old(m)),
        views(r@).no_duplicates(),
        views(r@).to_set() == rooms_held(*old(m)).dom(),
{
    m.iter().map(|e| e.key().clone()).collect()
}

/// `DashMap::new`: a map that holds nothing.
#[verifier::external_body]
pub(crate) fn creations_new() -> (r: dashmap::DashMap<String, Vec<u64>>)
    ensures
        creations_held(r).dom() == Set::<Seq<char>>::empty(),
{
    dashmap::DashMap::new()
}

/// `DashMap::insert`: the value stands at the key, in place of any other.
#[verifier::external_body]
pub(crate) fn creations_insert(
    m: &mut dashmap::DashMap<String, Vec<u64>>,
    address: String,
    times: Vec<u64>,
)
    ensures
        creations_held(*final(m)) == creations_held(*old(m)).insert(address@, times@),
{
    m.insert(address, times);
}

/// `DashMap::remove`: takes out what stands at the key.
#[verifier::external_body]
pub(crate) fn creations_remove(
    m: &mut dashmap::DashMap<String, Vec<u64>>,
    address: &str,
) -> (r: Option<Vec<u64>>)
    ensures
        creations_held(*final(m)) == creations_held(*old(m)).remove(address@),
        match r {
            Some(times) => creations_held(*old(m)).contains_key(address@) && times@
                == creations_held(*old(m))[address@],
            None => !creations_held(*old(m)).contains_key(address@),
        },
{
    m.remove(address).map(|(_, times)| times)
}

} // verus!
