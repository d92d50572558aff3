//! Quick unlock: the vault key kept in the system's credential store as
//! standard base64 (RFC 4648 alphabet, with padding), read back only when it
//! decodes to exactly 32 bytes.
use base64::engine::general_purpose::STANDARD;
use base64::{DecodeError, Engine};
use vstd::prelude::*;

verus! {

#[verifier::external_type_specification]
#[verifier::external_body]
pub struct ExDecodeError(DecodeError);

/// The base64 digit of a six-bit value.
pub open spec fn b64_digit(v: int) -> char {
    if v < 26 {
        ((65 + v) as u8) as char
    } else if v < 52 {
        ((97 + (v - 26)) as u8) as char
    } else if v < 62 {
        ((48 + (v - 52)) as u8) as char
    } else if v == 62 {
        '+'
    } else {
        '/'
    }
}

/// Standard base64 with padding (RFC 4648, section 4): every three bytes
/// become four digits; a last group of one or two bytes is padded with `=`.
pub open spec fn b64_encode(b: Seq<u8>) -> Seq<char>
    decreases b.len(),
{
    let x: int = if b.len() > 0 { b[0] as int } else { 0 };
    let y: int = if b.len() > 1 { b[1] as int } else { 0 };
    let z: int = if b.len() > 2 { b[2] as int } else { 0 };
    if b.len() == 0 {
        Seq::empty()
    } else if b.len() == 1 {
        seq![b64_digit(x / 4), b64_digit((x % 4) * 16), '=', '=']
    } else if b.len() == 2 {
        seq![b64_digit(x / 4), b64_digit((x % 4) * 16 + y / 16), b64_digit((y % 16) * 4), '=']
    } else {
        seq![b64_digit(x / 4), b64_digit((x % 4) * 16 + y / 16), b64_digit((y % 16) * 4 + z / 64), b64_digit(z % 64)]
            + b64_encode(b.subrange(3, b.len() as int))
    }
}

/// What `STANDARD.decode` makes of a text: the bytes, or none when the text
/// is not canonical standard base64.
pub uninterp spec fn b64_decode(text: Seq<char>) -> Option<Seq<u8>>;

/// `STANDARD.encode` (base64 crate): the RFC 4648 encoding with padding,
/// which `STANDARD.decode` reads back to the same bytes.
#[verifier::external_body]
fn standard_encode(bytes: &[u8]) -> (r: String)
    ensures
        r@ == b64_encode(bytes@),
        b64_decode(r@) == Some(bytes@),
{
    STANDARD.encode(bytes)
}

/// `STANDARD.decode` (base64 crate): the bytes, or `DecodeError`.
#[verifier::external_body]
fn standard_decode(text: &str) -> (r: Result<Vec<u8>, DecodeError>)
    ensures
        match r {
            Ok(b) => b64_decode(text@) == Some(b@),
            Err(_) => b64_decode(text@) is None,
        },
{
    STANDARD.decode(text)
}

/// The key a stored text gives back: its bytes when it decodes to 32 of them.
pub open spec fn quick_key_spec(text: Seq<char>) -> Option<Seq<u8>> {
    match b64_decode(text) {
        Some(b) => if b.len() == 32 { Some(b) } else { None },
        None => None,
    }
}

/// The stored form of a vault key. Reading it back with `decode_quick_key`
/// gives the same key.
pub fn encode_quick_key(key: &[u8; 32]) -> (r: String)
    ensures
        r@ == b64_encode(key@),
        quick_key_spec(r@) == Some(key@),
{
    standard_encode(key.as_slice())
}

/// The vault key of a stored text (see `quick_key_spec`).
pub fn decode_quick_key(text: &str) -> (r: Option<[u8; 32]>)
    ensures
        match r {
            Some(k) => quick_key_spec(text@) == Some(k@),
            None => quick_key_spec(text@) is None,
        },
{
    let bytes = match standard_decode(text) {
        Ok(b) => b,
        Err(_) => return None,
    };
    if bytes.len() != 32 {
        return None;
    }
    let mut key = [0u8; 32];
    let mut i: usize = 0;
    while i < 32
        invariant
            i <= 32,
            bytes@.len() == 32,
            forall|k: int| 0 <= k < i ==> key@[k] == bytes@[k],
        decreases 32 - i,
    {
        key[i] = bytes[i];
        i = i + 1;
    }
    proof {
        assert(key@ =~= bytes@);
    }
    Some(key)
}

} // verus!
