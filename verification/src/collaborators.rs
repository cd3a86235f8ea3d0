//! The collaborator boundary: the password hasher, the hex codec for
//! session cookies, the randomness and clock sources, and the email
//! address syntax check. Each item here wraps one outside function and
//! carries the contract the rest of the library is verified against.

use vstd::prelude::*;

use crate::error::Error;

verus! {

/// The lowercase hex digit of a nibble.
pub open spec fn hex_digit(n: u8) -> char
    recommends
        n < 16,
{
    if n < 10 {
        ((n + 48) as char)
    } else {
        ((n + 87) as char)
    }
}

/// The lowercase hex encoding of a byte string: two digits per byte, high
/// nibble first.
pub open spec fn hex_of(bytes: Seq<u8>) -> Seq<char>
    decreases bytes.len(),
{
    if bytes.len() == 0 {
        Seq::empty()
    } else {
        hex_of(bytes.drop_last()) + seq![
            hex_digit(bytes.last() / 16),
            hex_digit(bytes.last() % 16),
        ]
    }
}

/// Relies on hex::encode: lowercase, two digits per byte, high nibble
/// first, in input order.
#[verifier::external_body]
pub fn hex_encode_bytes(bytes: &Vec<u8>) -> (r: String)
    ensures
        r@ == hex_of(bytes@),
{
    hex::encode(bytes)
}

/// What hex::decode returns for a string, when it accepts it; a function
/// of the string alone.
pub uninterp spec fn hex_decoded(s: Seq<char>) -> Option<Seq<u8>>;

/// Relies on hex::decode: a deterministic function of the string that
/// exactly inverts hex::encode on encodings it produced — a string that
/// is the lowercase encoding of some bytes decodes to exactly those
/// bytes, and a string no bytes encode to is either decoded (upper or
/// mixed case) or refused, the same way every time.
#[verifier::external_body]
pub fn hex_decode_str(s: &str) -> (r: Result<Vec<u8>, Error>)
    ensures
        r matches Ok(v) ==> hex_decoded(s@) == Option::Some(v@),
        r is Err ==> hex_decoded(s@) is None,
        r matches Ok(v) ==> (forall|w: Seq<u8>| s@ == hex_of(w) ==> v@ == w),
        r is Err ==> !(exists|w: Seq<u8>| s@ == hex_of(w)),
        r matches Err(e) ==> e == Error::StorageFailure,
{
    hex::decode(s).map_err(|_| Error::StorageFailure)
}

/// Whether the password matches the salted digest; a function of the two
/// arguments alone, computed by the password hasher.
pub uninterp spec fn bcrypt_matches(plain: Seq<char>, digest: Seq<char>) -> bool;

/// Relies on bcrypt::verify: re-derives the digest from the password and
/// the salt and cost carried inside `digest`, a function of the two
/// arguments alone.
#[verifier::external_body]
pub fn bcrypt_verify(plain: &str, digest: &str) -> (r: Result<bool, Error>)
    ensures
        r matches Ok(b) ==> b == bcrypt_matches(plain@, digest@),
        r matches Err(e) ==> e == Error::StorageFailure,
{
    bcrypt::verify(plain, digest).map_err(|_| Error::StorageFailure)
}

/// Relies on bcrypt::hash: a freshly salted digest that bcrypt::verify
/// accepts for the same password, since verify re-derives the digest from
/// the salt and cost the returned string carries.
#[verifier::external_body]
pub fn bcrypt_hash(plain: &str) -> (r: Result<String, Error>)
    ensures
        r matches Ok(d) ==> bcrypt_matches(plain@, d@),
        r matches Err(e) ==> e == Error::StorageFailure,
{
    bcrypt::hash(plain, bcrypt::DEFAULT_COST).map_err(|_| Error::StorageFailure)
}

/// Relies on rand's Alphanumeric distribution over a thread-local
/// generator: 32 characters, each an ASCII letter or digit; nothing more
/// can be promised of a random value.
#[verifier::external_body]
pub fn generate_random_password() -> (r: String)
    ensures
        r@.len() == 32,
        forall|i: int| 0 <= i < 32 ==> crate::text::ascii_alphanumeric(#[trigger] r@[i]),
{
    rand::Rng::sample_iter(rand::thread_rng(), &rand::distributions::Alphanumeric).take(
        32,
    ).map(char::from).collect()
}

/// Relies on rand's OsRng, the operating system's generator, through its
/// fallible fill: 32 bytes, an entropy failure surfacing as an error and
/// never a panic; nothing can be promised of the bytes' values.
#[verifier::external_body]
pub fn generate_session_key() -> (r: Result<Vec<u8>, Error>)
    ensures
        r matches Ok(k) ==> k@.len() == 32,
        r matches Err(e) ==> e == Error::StorageFailure,
{
    let mut session_key = [0u8; 32];
    match rand::RngCore::try_fill_bytes(&mut rand::rngs::OsRng, &mut session_key) {
        Ok(()) => Ok(session_key.to_vec()),
        Err(_) => Err(Error::StorageFailure),
    }
}

/// Relies on chrono::Utc::now: the wall clock as seconds since the Unix
/// epoch; nothing can be promised of its value.
#[verifier::external_body]
pub fn now_timestamp() -> (r: i64) {
    chrono::Utc::now().timestamp()
}

/// Whether the string is a syntactically valid email address; a function
/// of the string alone, decided by the mail crate's parser.
pub uninterp spec fn email_address_ok(s: Seq<char>) -> bool;

/// Relies on lettre::Address::try_from for String: accepts exactly the
/// syntactically valid addresses, a function of the string alone.
#[verifier::external_body]
pub fn email_address_valid(s: &str) -> (r: bool)
    ensures
        r == email_address_ok(s@),
{
    match lettre::Address::try_from(s.to_owned()) {
        Ok(_) => true,
        Err(_) => false,
    }
}

/// Relies on String::push: appends exactly the one character.
#[verifier::external_body]
pub fn push_char(s: &mut String, c: char)
    ensures
        final(s)@ == old(s)@.push(c),
{
    s.push(c);
}

} // verus!
