//! TOTP (RFC 6238): the six-digit codes that change every thirty seconds,
//! generated with the `totp-rs` crate from a base32 secret.
use totp_rs::SecretParseError;
use vstd::prelude::*;
use crate::clock::{system_now, since_epoch, duration_secs, clock_error_text};
use crate::text::{
    owned, push_char, push_str, str_chars, trim, trim_start, trim_end, is_ascii_text, ascii_upper, ascii_upper_char,
};

verus! {

/// Length of a step, in seconds.
pub const PERIOD: u64 = 30;
/// Digits in a code.
pub const DIGITS: usize = 6;

#[verifier::external_type_specification]
#[verifier::external_body]
pub struct ExSecretParseError(SecretParseError);

/// The current code and how long it stays valid.
pub struct TotpCode {
    /// The code: six decimal digits (a string, so leading zeros stay).
    pub code: String,
    /// The step, in seconds.
    pub period: u64,
    /// Seconds until the code changes.
    pub seconds_remaining: u64,
}

/// What `str::to_uppercase` makes of a text (Unicode case mapping).
pub uninterp spec fn to_upper(s: Seq<char>) -> Seq<char>;

/// What `base32::decode` (RFC 4648 alphabet, no padding), as called by
/// `Secret::to_bytes`, makes of a text: the bytes, or none when the text is
/// not base32.
pub uninterp spec fn base32_decode(s: Seq<char>) -> Option<Seq<u8>>;

/// The uppercase text: on ASCII text, the ASCII mapping; on other text, the
/// Unicode mapping of `str::to_uppercase`.
pub open spec fn upper_text(s: Seq<char>) -> Seq<char> {
    if is_ascii_text(s) {
        ascii_upper(s)
    } else {
        to_upper(s)
    }
}

/// A char of the RFC 4648 base32 alphabet: `'A'..='Z'` and `'2'..='7'`.
pub open spec fn base32_char(c: char) -> bool {
    ('A' <= c && c <= 'Z') || ('2' <= c && c <= '7')
}

/// Every char of the text is in the base32 alphabet.
pub open spec fn all_base32(s: Seq<char>) -> bool {
    forall|i: int| 0 <= i < s.len() ==> base32_char(#[trigger] s[i])
}

/// What decoding a key text gives: nothing when a char is outside the
/// alphabet, else the decoded bytes (or nothing when the text is not base32).
pub open spec fn base32_text(s: Seq<char>) -> Option<Seq<u8>> {
    if all_base32(s) {
        base32_decode(s)
    } else {
        None
    }
}

/// `str::to_uppercase`: the text with every char mapped to its uppercase
/// form. Claimed besides the name: on ASCII text it is the ASCII mapping,
/// `'a'..='z'` to `'A'..='Z'` and every other char unchanged.
#[verifier::external_body]
fn uppercase(s: &str) -> (r: String)
    ensures
        r@ == to_upper(s@),
        is_ascii_text(s@) ==> r@ == ascii_upper(s@),
{
    s.to_uppercase()
}

/// `Secret::Encoded(s).to_bytes()`, which calls `base32::decode` with the
/// RFC 4648 alphabet and no padding: the base32 text decoded, or
/// `SecretParseError` when it is not base32. Claimed besides the name: a text
/// with a char outside `'A'..='Z'` and `'2'..='7'` (non-ASCII, lowercase,
/// `'='`, any other sign) is refused, as `decode` checks every char against
/// that alphabet.
#[verifier::external_body]
fn decode_secret(s: String) -> (r: Result<Vec<u8>, SecretParseError>)
    ensures
        match r {
            Ok(b) => base32_decode(s@) == Some(b@),
            Err(_) => base32_decode(s@) is None,
        },
        r is Ok ==> all_base32(s@),
{
    totp_rs::Secret::Encoded(s).to_bytes()
}

/// The TOTP code (RFC 6238 with HMAC-SHA1) of a secret, written with `digits`
/// decimal digits, for the time-step counter `counter`.
pub uninterp spec fn totp_sha1(secret: Seq<u8>, digits: usize, counter: u64) -> Seq<char>;

/// `TOTP::new_unchecked(Algorithm::SHA1, digits, skew, step, secret)
/// .generate(time)`: the code of the step that holds the Unix time `time`.
/// Claimed: it is the named code of the secret for the counter `time / step`
/// (the crate signs `time / step`; `skew` plays no part in generating), and,
/// being the HMAC-SHA1 truncation modulo 10^digits written zero-padded to
/// `digits`, it is exactly `digits` decimal digits.
#[verifier::external_body]
fn sha1_code_at(digits: usize, skew: u8, step: u64, secret: Vec<u8>, time: u64) -> (r: String)
    requires
        1 <= digits <= 9,
        step > 0,
    ensures
        r@ == totp_sha1(secret@, digits, time / step),
        all_digits(r@, digits as nat),
{
    totp_rs::TOTP::new_unchecked(totp_rs::Algorithm::SHA1, digits, skew, step, secret).generate(time)
}

/// `s` is exactly `n` ASCII decimal digits.
pub open spec fn all_digits(s: Seq<char>, n: nat) -> bool {
    &&& s.len() == n
    &&& forall|i: int| 0 <= i < s.len() ==> '0' <= #[trigger] s[i] <= '9'
}

/// `s` without the separators a user may type inside a key: spaces and dashes.
pub open spec fn strip_separators(s: Seq<char>) -> Seq<char>
    decreases s.len(),
{
    if s.len() == 0 {
        s
    } else if s.last() == ' ' || s.last() == '-' {
        strip_separators(s.drop_last())
    } else {
        strip_separators(s.drop_last()).push(s.last())
    }
}

/// The secret trimmed and without separators.
pub open spec fn stripped_secret(s: Seq<char>) -> Seq<char> {
    strip_separators(trim_end(trim_start(s)))
}

/// The secret as it is decoded: trimmed, without separators, uppercase.
pub open spec fn cleaned_secret(s: Seq<char>) -> Seq<char> {
    upper_text(stripped_secret(s))
}

/// What `build` returns for a secret: a key with nothing left once trimmed
/// and stripped of separators is empty (uppercasing maps each char to at
/// least one, so it leaves an empty text empty and a non-empty one non-empty).
pub open spec fn build_spec(s: Seq<char>) -> Result<Seq<u8>, Seq<char>> {
    if stripped_secret(s).len() == 0 {
        Err("chave TOTP vazia"@)
    } else {
        match base32_text(cleaned_secret(s)) {
            Some(b) => Ok(b),
            None => Err("chave TOTP inválida (não é base32)"@),
        }
    }
}

/// Keys that differ only in ASCII letter case and in their separators (outer
/// white space, spaces and dashes) give the same result at every time: the
/// same key bytes and code, or the same error.
pub proof fn lemma_code_ignores_case(s1: Seq<char>, s2: Seq<char>, unix: u64)
    requires
        is_ascii_text(stripped_secret(s1)),
        is_ascii_text(stripped_secret(s2)),
        ascii_upper(stripped_secret(s1)) == ascii_upper(stripped_secret(s2)),
    ensures
        build_spec(s1) == build_spec(s2),
        code_at_spec(s1, unix) == code_at_spec(s2, unix),
{
    assert(stripped_secret(s1).len() == ascii_upper(stripped_secret(s1)).len());
    assert(stripped_secret(s2).len() == ascii_upper(stripped_secret(s2)).len());
}

/// An ASCII key with a char that is outside the base32 alphabet once
/// uppercased (a sign, `0`, `1`, `8`, `9`, `=`) is refused as not base32.
pub proof fn lemma_non_base32_refused(s: Seq<char>, i: int, unix: u64)
    requires
        is_ascii_text(stripped_secret(s)),
        0 <= i < stripped_secret(s).len(),
        !base32_char(ascii_upper_char(stripped_secret(s)[i])),
    ensures
        build_spec(s) == Err::<Seq<u8>, Seq<char>>("chave TOTP inválida (não é base32)"@),
        code_at_spec(s, unix) == Err::<(Seq<char>, u64, u64), Seq<char>>("chave TOTP inválida (não é base32)"@),
{
    let c = cleaned_secret(s);
    assert(c[i] == ascii_upper_char(stripped_secret(s)[i]));
    assert(!all_base32(c));
}

/// The secret trimmed and without separators (the text `to_uppercase` gets).
fn strip(secret: &str) -> (r: String)
    ensures
        r@ == strip_separators(trim_end(trim_start(secret@))),
{
    let t = trim(secret);
    let v = str_chars(t.as_str());
    let mut out = String::new();
    let mut i: usize = 0;
    while i < v.len()
        invariant
            i <= v.len(),
            v@ == t@,
            out@ == strip_separators(v@.subrange(0, i as int)),
        decreases v.len() - i,
    {
        let c = v[i];
        proof {
            assert(v@.subrange(0, i as int + 1).drop_last() =~= v@.subrange(0, i as int));
        }
        if c != ' ' && c != '-' {
            push_char(&mut out, c);
        }
        i = i + 1;
    }
    proof {
        assert(v@.subrange(0, v.len() as int) =~= v@);
    }
    out
}

/// The secret bytes of a base32 key as a user typed it: outer white space,
/// spaces and dashes removed, letters uppercased. Empty keys and keys that
/// are not base32 are refused.
pub fn build(secret_b32: &str) -> (r: Result<Vec<u8>, String>)
    ensures
        match r {
            Ok(b) => build_spec(secret_b32@) == Ok::<Seq<u8>, Seq<char>>(b@),
            Err(e) => build_spec(secret_b32@) == Err::<Seq<u8>, Seq<char>>(e@),
        },
{
    let stripped = strip(secret_b32);
    if stripped.as_str().is_empty() {
        return Err(owned("chave TOTP vazia"));
    }
    let cleaned = uppercase(stripped.as_str());
    match decode_secret(cleaned) {
        Ok(bytes) => Ok(bytes),
        Err(_) => Err(owned("chave TOTP inválida (não é base32)")),
    }
}

/// Seconds until the step that holds the Unix time `unix` ends.
pub fn seconds_left(unix: u64) -> (r: u64)
    ensures
        r == PERIOD - unix % PERIOD,
        1 <= r <= PERIOD,
{
    PERIOD - unix % PERIOD
}

/// What `code_at` returns for a key and a Unix time: the key's error, or the
/// code of the step that holds that time, the step, and the seconds until the
/// step ends.
pub open spec fn code_at_spec(secret_b32: Seq<char>, unix: u64) -> Result<(Seq<char>, u64, u64), Seq<char>> {
    match build_spec(secret_b32) {
        Err(m) => Err(m),
        Ok(b) => Ok((totp_sha1(b, DIGITS, unix / PERIOD), PERIOD, (PERIOD - unix % PERIOD) as u64)),
    }
}

/// The code of a decoded secret at the Unix time `unix`.
fn code_of(secret: Vec<u8>, unix: u64) -> (c: TotpCode)
    ensures
        c.code@ == totp_sha1(secret@, DIGITS, unix / PERIOD),
        all_digits(c.code@, DIGITS as nat),
        c.period == PERIOD,
        c.seconds_remaining == PERIOD - unix % PERIOD,
{
    let code = sha1_code_at(DIGITS, 1, PERIOD, secret, unix);
    TotpCode { code, period: PERIOD, seconds_remaining: seconds_left(unix) }
}

/// The code of a base32 key at the Unix time `unix` (seconds) and the seconds
/// until it changes; the key's error (empty, not base32) otherwise.
pub fn code_at(secret_b32: &str, unix: u64) -> (r: Result<TotpCode, String>)
    ensures
        match r {
            Ok(c) => {
                &&& code_at_spec(secret_b32@, unix) == Ok::<_, Seq<char>>((c.code@, c.period, c.seconds_remaining))
                &&& all_digits(c.code@, DIGITS as nat)
            },
            Err(e) => code_at_spec(secret_b32@, unix) == Err::<(Seq<char>, u64, u64), _>(e@),
        },
{
    match build(secret_b32) {
        Ok(b) => Ok(code_of(b, unix)),
        Err(e) => Err(e),
    }
}

/// The prefix of the error that a clock reading earlier than the Unix epoch
/// gives.
pub open spec fn clock_error_prefix() -> Seq<char> {
    "relógio do sistema: "@
}

/// The current code of a base32 key and the seconds until it changes, for one
/// reading of the clock; the key's error (empty, not base32) first, then the
/// clock's error when it reads earlier than the Unix epoch.
pub fn now(secret_b32: &str) -> (r: Result<TotpCode, String>)
    ensures
        match r {
            Ok(c) => {
                &&& exists|unix: u64|
                    code_at_spec(secret_b32@, unix) == Ok::<_, Seq<char>>((c.code@, c.period, c.seconds_remaining))
                &&& all_digits(c.code@, DIGITS as nat)
            },
            Err(e) => match build_spec(secret_b32@) {
                Err(m) => e@ == m,
                Ok(_) => clock_error_prefix().is_prefix_of(e@),
            },
        },
{
    let secret = match build(secret_b32) {
        Ok(b) => b,
        Err(e) => return Err(e),
    };
    let t = system_now();
    let unix = match since_epoch(&t) {
        Ok(d) => duration_secs(&d),
        Err(e) => {
            let mut m = owned("relógio do sistema: ");
            let text = clock_error_text(&e);
            push_str(&mut m, text.as_str());
            proof {
                assert(m@.subrange(0, clock_error_prefix().len() as int) =~= clock_error_prefix());
            }
            return Err(m);
        },
    };
    let c = code_of(secret, unix);
    proof {
        assert(code_at_spec(secret_b32@, unix) == Ok::<_, Seq<char>>((c.code@, c.period, c.seconds_remaining)));
    }
    Ok(c)
}

} // verus!
