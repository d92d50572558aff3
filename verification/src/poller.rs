//! The clipboard poller's decisions: which texts enter the history. A text
//! is taken when it is not blank, fits the size limit and differs (by hash)
//! from the last one seen; a copy the app made itself is only remembered.
use std::collections::hash_map::DefaultHasher;
use std::hash::{Hash, Hasher};
use vstd::prelude::*;
use vstd::utf8::encode_utf8;
use crate::text::{is_blank, blank};

verus! {

/// Largest text taken, in bytes of UTF-8.
pub const MAX_TEXT_BYTES: usize = 524288;

/// What `DefaultHasher::new()` computes for the tuple `(kind, data)`
/// (SipHash with fixed keys, the same for every hasher made by `new`).
pub uninterp spec fn default_hash(kind: Seq<char>, data: Seq<u8>) -> u64;

/// Hashes `(kind, data)` with a `DefaultHasher::new()` and returns `finish()`.
#[verifier::external_body]
fn sip_hash(kind: &str, data: &[u8]) -> (r: u64)
    ensures
        r == default_hash(kind@, data@),
{
    let mut h = DefaultHasher::new();
    (kind, data).hash(&mut h);
    h.finish()
}

/// The fingerprint of a clipboard payload of the given kind.
pub fn hash_of(kind: &str, data: &[u8]) -> (r: u64)
    ensures
        r == default_hash(kind@, data@),
{
    sip_hash(kind, data)
}

/// The fingerprint of a clipboard text.
pub open spec fn text_hash(t: Seq<char>) -> u64 {
    default_hash("text"@, encode_utf8(t))
}

/// A text the history takes: not blank and at most `MAX_TEXT_BYTES` long.
pub open spec fn acceptable(t: Seq<char>) -> bool {
    !is_blank(t) && encode_utf8(t).len() <= MAX_TEXT_BYTES
}

/// One poll: from the last fingerprint, whether the app asked to skip its own
/// copy, whether the clipboard asked to be left out of histories, and the
/// clipboard text (none when it could not be read), the new last fingerprint
/// and the text to hand to the history, if any.
pub open spec fn poll_spec(last: u64, skip: bool, excluded: bool, text: Option<Seq<char>>) -> (u64, Option<Seq<char>>) {
    if skip {
        match text {
            Some(t) => (text_hash(t), None),
            None => (last, None),
        }
    } else if excluded {
        (last, None)
    } else {
        match text {
            Some(t) => if acceptable(t) && text_hash(t) != last {
                (text_hash(t), Some(t))
            } else {
                (last, None)
            },
            None => (last, None),
        }
    }
}

/// Decides one poll (see `poll_spec`).
pub fn poll_step(last: u64, skip: bool, excluded: bool, text: Option<String>) -> (r: (u64, Option<String>))
    ensures
        r.0 == poll_spec(last, skip, excluded, match text { Some(t) => Some(t@), None => None }).0,
        match r.1 {
            Some(t) => poll_spec(last, skip, excluded, match text { Some(t) => Some(t@), None => None }).1 == Some(t@),
            None => poll_spec(last, skip, excluded, match text { Some(t) => Some(t@), None => None }).1 is None,
        },
{
    match text {
        Some(t) => {
            let s = t.as_str();
            let bytes = s.as_bytes();
            assert(bytes@ == encode_utf8(t@));
            assert(s@ == t@);
            let n = bytes.len();
            assert(n as int == encode_utf8(t@).len());
            if skip {
                (hash_of("text", bytes), None)
            } else if excluded {
                (last, None)
            } else if !blank(s) && n <= MAX_TEXT_BYTES {
                let h = hash_of("text", bytes);
                if h != last {
                    (h, Some(t))
                } else {
                    (last, None)
                }
            } else {
                (last, None)
            }
        },
        None => (last, None),
    }
}

/// What the poller promises of every poll: a copy the app made itself, or
/// one the clipboard asks histories to leave out, is never handed on; a blank
/// or oversized text is never handed on; and a text just handed on is not
/// handed on again by the next poll.
pub proof fn lemma_poll_promises(last: u64, text: Option<Seq<char>>)
    ensures
        poll_spec(last, true, false, text).1 is None,
        poll_spec(last, false, true, text).1 is None,
        text matches Some(t) && !acceptable(t) ==> poll_spec(last, false, false, text).1 is None,
        ({
            let (h, sent) = poll_spec(last, false, false, text);
            sent is Some ==> poll_spec(h, false, false, text).1 is None
        }),
{
}

} // verus!
