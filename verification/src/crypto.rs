//! The `.tkeys` vault file: an Argon2id-derived key and an XChaCha20-Poly1305
//! AEAD over the vault JSON, with the whole 60-byte header as associated data.
//!
//! Layout (little-endian):
//! ```text
//!   magic "TKEYS\0" (6) | format_version (1) | kdf_id (1)
//!   m_cost u32 (4) | t_cost u32 (4) | p_cost u32 (4)
//!   salt (16) | nonce (24)                     <- header, 60 bytes, AAD
//!   ciphertext + tag (n + 16)
//! ```
use argon2::{Algorithm, Argon2, Params, Version};
use chacha20poly1305::aead::{Aead, KeyInit, Payload};
use chacha20poly1305::{Key, XChaCha20Poly1305, XNonce};
use rand::RngCore;
use vstd::prelude::*;
use vstd::slice::slice_subrange;
use vstd::string::StringSliceAdditionalSpecFns;
use zeroize::Zeroizing;

verus! {

pub const FORMAT_VERSION: u8 = 1;
pub const KDF_ARGON2ID: u8 = 1;
pub const SALT_LEN: usize = 16;
pub const NONCE_LEN: usize = 24;
pub const KEY_LEN: usize = 32;
pub const HEADER_LEN: usize = 60;

/// Default Argon2id parameters: 64 MiB, 3 passes, 1 lane.
pub const DEFAULT_M_COST: u32 = 65_536;
pub const DEFAULT_T_COST: u32 = 3;
pub const DEFAULT_P_COST: u32 = 1;

// ---------------------------------------------------------------------------
// Outside types and the trusted items that call into the crypto crates
// ---------------------------------------------------------------------------

#[verifier::external_type_specification]
#[verifier::external_body]
pub struct ExArgon2Error(argon2::Error);

#[verifier::external_type_specification]
#[verifier::external_body]
pub struct ExAeadError(chacha20poly1305::aead::Error);

#[verifier::external_type_specification]
#[verifier::external_body]
pub struct ExRandError(rand::Error);

/// A 32-byte key held in a `zeroize::Zeroizing` buffer, wiped when dropped.
/// `Zeroizing` is bounded by a trait of the `zeroize` crate, so the buffer is
/// kept in this opaque struct rather than in a declared outside type.
#[verifier::external_body]
#[derive(Debug)]
pub struct SecretKey {
    inner: Zeroizing<[u8; 32]>,
}

/// Bytes held in a `zeroize::Zeroizing` buffer, wiped when dropped.
#[verifier::external_body]
#[derive(Debug)]
pub struct SecretBytes {
    inner: Zeroizing<Vec<u8>>,
}

/// The key bytes that a `SecretKey` holds.
pub uninterp spec fn secret_key_bytes(k: SecretKey) -> Seq<u8>;

/// The bytes that a `SecretBytes` holds.
pub uninterp spec fn secret_bytes(b: SecretBytes) -> Seq<u8>;

/// `Zeroizing::new` on a 32-byte key: the buffer holds exactly those bytes.
#[verifier::external_body]
fn secret_key_new(key: [u8; 32]) -> (k: SecretKey)
    ensures
        secret_key_bytes(k) == key@,
{
    SecretKey { inner: Zeroizing::new(key) }
}

impl SecretKey {
    /// Reads the key out of the buffer (`Zeroizing`'s `Deref`).
    #[verifier::external_body]
    pub fn get(&self) -> (key: [u8; 32])
        ensures
            key@ == secret_key_bytes(*self),
    {
        *self.inner
    }
}

/// `Zeroizing::new` on a byte vector: the buffer holds exactly those bytes.
#[verifier::external_body]
fn secret_bytes_new(v: Vec<u8>) -> (b: SecretBytes)
    ensures
        secret_bytes(b) == v@,
{
    SecretBytes { inner: Zeroizing::new(v) }
}

impl SecretBytes {
    /// Borrows the bytes (`Zeroizing`'s `Deref`).
    #[verifier::external_body]
    pub fn as_slice(&self) -> (s: &[u8])
        ensures
            s@ == secret_bytes(*self),
    {
        self.inner.as_slice()
    }
}

/// The 32-byte Argon2id (version 0x13) output for a password, a salt and the
/// memory/time/lane costs.
pub uninterp spec fn argon2id_key(password: Seq<u8>, salt: Seq<u8>, m_cost: u32, t_cost: u32, p_cost: u32) -> Seq<u8>;

/// When `argon2::Params::new` accepts the costs (its checks, in the order of
/// its source: `m >= 8`, `m >= 8 p`, `t >= 1`, `1 <= p <= 2^24 - 1`).
pub open spec fn argon2_costs_ok(m_cost: u32, t_cost: u32, p_cost: u32) -> bool {
    &&& m_cost >= 8
    &&& m_cost >= 8 * p_cost
    &&& t_cost >= 1
    &&& p_cost >= 1
    &&& p_cost <= 0xFF_FFFF
}

/// When Argon2id runs to completion: costs accepted by `Params::new`, and the
/// password and salt lengths accepted by `hash_password_into`.
pub open spec fn kdf_ok(params: KdfParams, password_len: nat, salt_len: nat) -> bool {
    &&& argon2_costs_ok(params.m_cost, params.t_cost, params.p_cost)
    &&& password_len <= 0xFFFF_FFFF
    &&& 8 <= salt_len <= 0xFFFF_FFFF
}

/// Argon2id key derivation: `argon2::Params::new(m, t, p, Some(32))`,
/// `Argon2::new(Argon2id, V0x13, params)` and `hash_password_into` into a
/// `Zeroizing` buffer. Claimed: it succeeds exactly when the crate's checks
/// pass, and the key is the named Argon2id output. Not stated: the call
/// allocates `m_cost` KiB, and the process aborts when that memory cannot be had.
#[verifier::external_body]
fn argon2id_derive(password: &[u8], salt: &[u8], m_cost: u32, t_cost: u32, p_cost: u32) -> (r: Result<SecretKey, argon2::Error>)
    requires
        p_cost <= 0xFF_FFFF,
    ensures
        r is Ok <==> kdf_ok(KdfParams { m_cost, t_cost, p_cost }, password@.len(), salt@.len()),
        r matches Ok(k) ==> secret_key_bytes(k) == argon2id_key(password@, salt@, m_cost, t_cost, p_cost),
        r matches Ok(k) ==> secret_key_bytes(k).len() == 32,
{
    let params = Params::new(m_cost, t_cost, p_cost, Some(32))?;
    let argon = Argon2::new(Algorithm::Argon2id, Version::V0x13, params);
    let mut key = Zeroizing::new([0u8; 32]);
    argon.hash_password_into(password, salt, key.as_mut_slice())?;
    Ok(SecretKey { inner: key })
}

/// XChaCha20-Poly1305 ciphertext-with-tag of `msg` under `key`, `nonce` and
/// associated data `aad`.
pub uninterp spec fn xchacha_seal(key: Seq<u8>, nonce: Seq<u8>, aad: Seq<u8>, msg: Seq<u8>) -> Seq<u8>;

/// XChaCha20-Poly1305 decryption of ciphertext-with-tag `ct`: the plaintext,
/// or `None` when authentication fails.
pub uninterp spec fn xchacha_open(key: Seq<u8>, nonce: Seq<u8>, aad: Seq<u8>, ct: Seq<u8>) -> Option<Seq<u8>>;

/// The message lengths that ChaCha20's 32-bit block counter can cover.
pub open spec fn aead_len_ok(len: nat) -> bool {
    len / 64 < 0xFFFF_FFFF
}

/// `XChaCha20Poly1305::encrypt` (key and nonce built with `from_slice`).
/// Claimed: it fails only when the block counter would overflow; the output is
/// the named ciphertext and is 16 bytes longer than the message.
#[verifier::external_body]
fn xchacha_encrypt(key: &[u8], nonce: &[u8], aad: &[u8], msg: &[u8]) -> (r: Result<Vec<u8>, chacha20poly1305::aead::Error>)
    requires
        key@.len() == 32,
        nonce@.len() == 24,
    ensures
        r is Ok <==> aead_len_ok(msg@.len()),
        r matches Ok(c) ==> c@ == xchacha_seal(key@, nonce@, aad@, msg@),
        r matches Ok(c) ==> c@.len() == msg@.len() + 16,
{
    XChaCha20Poly1305::new(Key::from_slice(key)).encrypt(XNonce::from_slice(nonce), Payload { msg, aad })
}

/// `XChaCha20Poly1305::decrypt` (key and nonce built with `from_slice`).
/// Claimed: the result is the named decryption; a successful decryption is the
/// message whose encryption is `ct` (encryption is deterministic), and the
/// encryption of any message that the cipher can cover decrypts back to it.
#[verifier::external_body]
fn xchacha_decrypt(key: &[u8], nonce: &[u8], aad: &[u8], ct: &[u8]) -> (r: Result<Vec<u8>, chacha20poly1305::aead::Error>)
    requires
        key@.len() == 32,
        nonce@.len() == 24,
    ensures
        r matches Ok(m) ==> xchacha_open(key@, nonce@, aad@, ct@) == Some(m@),
        r is Err ==> xchacha_open(key@, nonce@, aad@, ct@) is None,
        r matches Ok(m) ==> ct@ == xchacha_seal(key@, nonce@, aad@, m@),
        forall|m: Seq<u8>|
            aead_len_ok(m.len()) && ct@ == #[trigger] xchacha_seal(key@, nonce@, aad@, m) ==> r is Ok && r->Ok_0@ == m,
{
    XChaCha20Poly1305::new(Key::from_slice(key)).decrypt(XNonce::from_slice(nonce), Payload { msg: ct, aad })
}

/// Fills `buf` from the operating system's random source
/// (`rand::rngs::OsRng::try_fill_bytes`, which reports a failure of the source
/// as an error). Only the length is claimed: the bytes, and whether the source
/// fails, rest on the operating system.
#[verifier::external_body]
pub(crate) fn os_random_fill(buf: &mut Vec<u8>) -> (r: Result<(), rand::Error>)
    ensures
        final(buf)@.len() == old(buf)@.len(),
{
    rand::rngs::OsRng.try_fill_bytes(buf.as_mut_slice())
}

// ---------------------------------------------------------------------------
// The file format
// ---------------------------------------------------------------------------

#[derive(Debug, PartialEq, Eq)]
pub enum CryptoError {
    /// Not a `.tkeys` file (wrong magic or truncated).
    BadFormat,
    /// A format version this build does not know.
    UnsupportedVersion(u8),
    /// Key derivation failed (Argon2 parameters or inputs refused).
    Kdf,
    /// Authentication failed: wrong password and tampering are not told apart.
    Decrypt,
    /// The operating system's random source failed (salt or nonce).
    Random,
}

/// Argon2id parameters of a vault; kept in clear in the header so that an old
/// vault still opens after the defaults change.
#[derive(Debug, Clone, Copy, PartialEq, Eq)]
pub struct KdfParams {
    pub m_cost: u32,
    pub t_cost: u32,
    pub p_cost: u32,
}

pub open spec fn default_params() -> KdfParams {
    KdfParams { m_cost: DEFAULT_M_COST, t_cost: DEFAULT_T_COST, p_cost: DEFAULT_P_COST }
}

impl Default for KdfParams {
    fn default() -> (r: KdfParams)
        ensures
            r == default_params(),
    {
        KdfParams { m_cost: DEFAULT_M_COST, t_cost: DEFAULT_T_COST, p_cost: DEFAULT_P_COST }
    }
}

/// `"TKEYS\0"`.
pub open spec fn magic() -> Seq<u8> {
    seq![84u8, 75u8, 69u8, 89u8, 83u8, 0u8]
}

/// Little-endian bytes of a `u32`.
pub open spec fn le32(x: u32) -> Seq<u8> {
    seq![(x % 256) as u8, ((x / 256) % 256) as u8, ((x / 65536) % 256) as u8, (x / 16777216) as u8]
}

/// The `u32` stored little-endian at `at..at + 4`.
pub open spec fn le32_at(b: Seq<u8>, at: int) -> u32 {
    (b[at] + 256 * b[at + 1] + 65536 * b[at + 2] + 16777216 * b[at + 3]) as u32
}

/// The 60-byte header for the given parameters, salt and nonce.
pub open spec fn header_spec(params: KdfParams, salt: Seq<u8>, nonce: Seq<u8>) -> Seq<u8> {
    magic() + seq![FORMAT_VERSION, KDF_ARGON2ID] + le32(params.m_cost) + le32(params.t_cost)
        + le32(params.p_cost) + salt + nonce
}

/// The parameters stored at bytes 8..20.
pub open spec fn params_at(file: Seq<u8>) -> KdfParams {
    KdfParams { m_cost: le32_at(file, 8), t_cost: le32_at(file, 12), p_cost: le32_at(file, 16) }
}

/// What reading a header gives: its checks in order (length and magic,
/// version, KDF id), then the parameters, salt and nonce.
pub open spec fn parse_header_spec(file: Seq<u8>) -> Result<(KdfParams, Seq<u8>, Seq<u8>), CryptoError> {
    if file.len() < 60 || file.take(6) != magic() {
        Err(CryptoError::BadFormat)
    } else if file[6] != FORMAT_VERSION {
        Err(CryptoError::UnsupportedVersion(file[6]))
    } else if file[7] != KDF_ARGON2ID {
        Err(CryptoError::BadFormat)
    } else {
        Ok((params_at(file), file.subrange(20, 36), file.subrange(36, 60)))
    }
}

/// A whole vault file: header, then the AEAD of `plaintext` with that header as
/// associated data.
pub open spec fn sealed_file(key: Seq<u8>, params: KdfParams, salt: Seq<u8>, nonce: Seq<u8>, plaintext: Seq<u8>) -> Seq<u8> {
    header_spec(params, salt, nonce) + xchacha_seal(key, nonce, header_spec(params, salt, nonce), plaintext)
}

/// Opening a file with a raw key: header checks, then authenticated decryption.
pub open spec fn open_with_key_spec(key: Seq<u8>, file: Seq<u8>) -> Result<Seq<u8>, CryptoError> {
    match parse_header_spec(file) {
        Err(e) => Err(e),
        Ok((params, salt, nonce)) => match xchacha_open(key, nonce, file.take(60), file.skip(60)) {
            Some(m) => Ok(m),
            None => Err(CryptoError::Decrypt),
        },
    }
}

/// Opening a file with a password: header checks, key derivation, decryption.
pub open spec fn open_vault_spec(password: Seq<u8>, file: Seq<u8>) -> Result<Seq<u8>, CryptoError> {
    match parse_header_spec(file) {
        Err(e) => Err(e),
        Ok((params, salt, nonce)) => if !kdf_ok(params, password.len(), salt.len()) {
            Err(CryptoError::Kdf)
        } else {
            match xchacha_open(
                argon2id_key(password, salt, params.m_cost, params.t_cost, params.p_cost),
                nonce,
                file.take(60),
                file.skip(60),
            ) {
                Some(m) => Ok(m),
                None => Err(CryptoError::Decrypt),
            }
        },
    }
}

/// The key that a password and salt give under `params`.
pub open spec fn password_key(password: Seq<u8>, salt: Seq<u8>, params: KdfParams) -> Seq<u8> {
    argon2id_key(password, salt, params.m_cost, params.t_cost, params.p_cost)
}

/// Reading a header back gives the parameters, salt and nonce it was built
/// from, whatever follows it in the file.
pub proof fn lemma_header_roundtrip(params: KdfParams, salt: Seq<u8>, nonce: Seq<u8>, rest: Seq<u8>)
    requires
        salt.len() == 16,
        nonce.len() == 24,
    ensures
        header_spec(params, salt, nonce).len() == 60,
        parse_header_spec(header_spec(params, salt, nonce) + rest) == Ok::<_, CryptoError>((params, salt, nonce)),
        (header_spec(params, salt, nonce) + rest).take(60) == header_spec(params, salt, nonce),
        (header_spec(params, salt, nonce) + rest).skip(60) == rest,
{
    let h = header_spec(params, salt, nonce);
    let f = h + rest;
    lemma_le32_roundtrip(params.m_cost);
    lemma_le32_roundtrip(params.t_cost);
    lemma_le32_roundtrip(params.p_cost);
    assert(f.take(6) =~= magic());
    assert(f.subrange(20, 36) =~= salt);
    assert(f.subrange(36, 60) =~= nonce);
    assert(f.take(60) =~= h);
    assert(f.skip(60) =~= rest);
    assert(le32_at(f, 8) == params.m_cost) by {
        assert(f[8] == le32(params.m_cost)[0] && f[9] == le32(params.m_cost)[1]);
        assert(f[10] == le32(params.m_cost)[2] && f[11] == le32(params.m_cost)[3]);
    }
    assert(le32_at(f, 12) == params.t_cost) by {
        assert(f[12] == le32(params.t_cost)[0] && f[13] == le32(params.t_cost)[1]);
        assert(f[14] == le32(params.t_cost)[2] && f[15] == le32(params.t_cost)[3]);
    }
    assert(le32_at(f, 16) == params.p_cost) by {
        assert(f[16] == le32(params.p_cost)[0] && f[17] == le32(params.p_cost)[1]);
        assert(f[18] == le32(params.p_cost)[2] && f[19] == le32(params.p_cost)[3]);
    }
}

/// Decoding the little-endian bytes of `x` gives `x` back.
pub proof fn lemma_le32_roundtrip(x: u32)
    ensures
        le32_at(le32(x), 0) == x,
        le32(x).len() == 4,
{
    let b = le32(x);
    assert(b[0] + 256 * b[1] + 65536 * b[2] + 16777216 * b[3] == x) by (nonlinear_arith)
        requires
            b[0] == x % 256,
            b[1] == (x / 256) % 256,
            b[2] == (x / 65536) % 256,
            b[3] == x / 16777216,
            x <= 0xFFFF_FFFF,
    ;
}

/// Appends the little-endian bytes of `x`.
fn push_le32(out: &mut Vec<u8>, x: u32)
    ensures
        final(out)@ == old(out)@ + le32(x),
{
    out.push((x % 256) as u8);
    out.push(((x / 256) % 256) as u8);
    out.push(((x / 65536) % 256) as u8);
    out.push((x / 16777216) as u8);
    assert(final(out)@ =~= old(out)@ + le32(x));
}

/// Reads the little-endian `u32` at `at`.
fn read_le32(b: &[u8], at: usize) -> (x: u32)
    requires
        at + 4 <= b@.len(),
    ensures
        x == le32_at(b@, at as int),
{
    let b0 = b[at] as u32;
    let b1 = b[at + 1] as u32;
    let b2 = b[at + 2] as u32;
    let b3 = b[at + 3] as u32;
    assert(b0 + 256 * b1 + 65536 * b2 + 16777216 * b3 <= 0xFFFF_FFFF) by (nonlinear_arith)
        requires
            b0 < 256,
            b1 < 256,
            b2 < 256,
            b3 < 256,
    ;
    b0 + 256 * b1 + 65536 * b2 + 16777216 * b3
}

/// Appends all of `src`.
fn append_bytes(out: &mut Vec<u8>, src: &[u8])
    ensures
        final(out)@ == old(out)@ + src@,
{
    let n = src.len();
    let mut i: usize = 0;
    while i < n
        invariant
            n == src@.len(),
            i <= n,
            out@ == old(out)@ + src@.take(i as int),
        decreases n - i,
    {
        out.push(src[i]);
        i = i + 1;
        assert(out@ =~= old(out)@ + src@.take(i as int));
    }
    assert(src@.take(n as int) =~= src@);
}

/// Copies `src` into a new vector.
fn to_vec(src: &[u8]) -> (v: Vec<u8>)
    ensures
        v@ == src@,
{
    let mut v: Vec<u8> = Vec::new();
    append_bytes(&mut v, src);
    v
}

/// Builds the 60-byte header.
pub fn build_header(params: KdfParams, salt: &[u8], nonce: &[u8]) -> (h: Vec<u8>)
    requires
        salt@.len() == SALT_LEN,
        nonce@.len() == NONCE_LEN,
    ensures
        h@ == header_spec(params, salt@, nonce@),
        h@.len() == HEADER_LEN,
{
    let mut h: Vec<u8> = Vec::with_capacity(HEADER_LEN);
    h.push(84u8);
    h.push(75u8);
    h.push(69u8);
    h.push(89u8);
    h.push(83u8);
    h.push(0u8);
    h.push(FORMAT_VERSION);
    h.push(KDF_ARGON2ID);
    push_le32(&mut h, params.m_cost);
    push_le32(&mut h, params.t_cost);
    push_le32(&mut h, params.p_cost);
    append_bytes(&mut h, salt);
    append_bytes(&mut h, nonce);
    assert(h@ =~= header_spec(params, salt@, nonce@));
    h
}

/// Whether the file is long enough and starts with the magic.
fn has_magic(file: &[u8]) -> (b: bool)
    ensures
        b == (file@.len() >= 60 && file@.take(6) == magic()),
{
    if file.len() < HEADER_LEN {
        return false;
    }
    let ok = file[0] == 84u8 && file[1] == 75u8 && file[2] == 69u8 && file[3] == 89u8
        && file[4] == 83u8 && file[5] == 0u8;
    if ok {
        assert(file@.take(6) =~= magic());
    } else {
        assert(file@.take(6)[0] == file@[0] && file@.take(6)[1] == file@[1] && file@.take(6)[2] == file@[2]);
        assert(file@.take(6)[3] == file@[3] && file@.take(6)[4] == file@[4] && file@.take(6)[5] == file@[5]);
    }
    ok
}

/// Reads the header fields (magic, version, KDF id, parameters, salt, nonce).
pub fn parse_header(file: &[u8]) -> (r: Result<(KdfParams, Vec<u8>, Vec<u8>), CryptoError>)
    ensures
        match r {
            Ok((params, salt, nonce)) => parse_header_spec(file@) == Ok::<_, CryptoError>((params, salt@, nonce@)),
            Err(e) => parse_header_spec(file@) == Err::<(KdfParams, Seq<u8>, Seq<u8>), _>(e),
        },
{
    if !has_magic(file) {
        return Err(CryptoError::BadFormat);
    }
    let version = file[6];
    if version != FORMAT_VERSION {
        return Err(CryptoError::UnsupportedVersion(version));
    }
    if file[7] != KDF_ARGON2ID {
        return Err(CryptoError::BadFormat);
    }
    let params = KdfParams {
        m_cost: read_le32(file, 8),
        t_cost: read_le32(file, 12),
        p_cost: read_le32(file, 16),
    };
    let salt = to_vec(slice_subrange(file, 20, 36));
    let nonce = to_vec(slice_subrange(file, 36, 60));
    Ok((params, salt, nonce))
}

/// Reads the KDF parameters of a vault without decrypting it (only the length
/// and the magic are checked).
pub fn read_kdf_params(file: &[u8]) -> (r: Result<KdfParams, CryptoError>)
    ensures
        r is Err <==> !(file@.len() >= 60 && file@.take(6) == magic()),
        r is Err ==> r == Err::<KdfParams, _>(CryptoError::BadFormat),
        r matches Ok(p) ==> p == params_at(file@),
{
    if !has_magic(file) {
        return Err(CryptoError::BadFormat);
    }
    Ok(KdfParams { m_cost: read_le32(file, 8), t_cost: read_le32(file, 12), p_cost: read_le32(file, 16) })
}

/// The parameters written into a header are the ones `read_kdf_params` reads back.
pub proof fn lemma_read_params_of_header(params: KdfParams, salt: Seq<u8>, nonce: Seq<u8>, rest: Seq<u8>)
    requires
        salt.len() == 16,
        nonce.len() == 24,
    ensures
        (header_spec(params, salt, nonce) + rest).len() >= 60,
        (header_spec(params, salt, nonce) + rest).take(6) == magic(),
        params_at(header_spec(params, salt, nonce) + rest) == params,
{
    lemma_header_roundtrip(params, salt, nonce, rest);
}

/// Derives the 32-byte key from a password with Argon2id. The key is held in a
/// `Zeroizing` buffer, wiped when dropped.
pub fn derive_key(password: &[u8], salt: &[u8], params: KdfParams) -> (r: Result<SecretKey, CryptoError>)
    ensures
        r is Ok <==> kdf_ok(params, password@.len(), salt@.len()),
        r is Err ==> r == Err::<SecretKey, _>(CryptoError::Kdf),
        r matches Ok(k) ==> secret_key_bytes(k) == password_key(password@, salt@, params),
        r matches Ok(k) ==> secret_key_bytes(k).len() == 32,
{
    if params.p_cost > 0xFF_FFFF {
        return Err(CryptoError::Kdf);
    }
    match argon2id_derive(password, salt, params.m_cost, params.t_cost, params.p_cost) {
        Ok(k) => Ok(k),
        Err(_) => Err(CryptoError::Kdf),
    }
}

/// The key of an open vault with its salt and parameters: re-encrypts (saves)
/// without running Argon2 again or keeping the master password. The key is
/// held in a `Zeroizing` buffer, wiped when the session is dropped.
pub struct SessionKey {
    key: SecretKey,
    salt: Vec<u8>,
    params: KdfParams,
}

impl SessionKey {
    #[verifier::type_invariant]
    closed spec fn inv(self) -> bool {
        &&& secret_key_bytes(self.key).len() == 32
        &&& self.salt@.len() == 16
    }

    pub closed spec fn key_view(&self) -> Seq<u8> {
        secret_key_bytes(self.key)
    }

    pub closed spec fn salt_view(&self) -> Seq<u8> {
        self.salt@
    }

    pub closed spec fn params_view(&self) -> KdfParams {
        self.params
    }

    /// Re-encrypts `plaintext` with the session key and a fresh random nonce.
    pub fn seal(&self, plaintext: &[u8]) -> (r: Result<Vec<u8>, CryptoError>)
        ensures
            r is Ok ==> aead_len_ok(plaintext@.len()),
            r matches Err(e) ==> seal_error(e, plaintext@.len()),
            r matches Ok(f) ==> f@.len() == 60 + plaintext@.len() + 16,
            r matches Ok(f) ==> f@ == sealed_file(
                self.key_view(),
                self.params_view(),
                self.salt_view(),
                f@.subrange(36, 60),
                plaintext@,
            ),
    {
        proof {
            use_type_invariant(self);
        }
        let key = self.key.get();
        seal_bytes(&key, self.salt.as_slice(), self.params, plaintext)
    }

    /// A copy of the raw 32-byte key, only for keeping it in the operating
    /// system's credential store (quick unlock). Treat it as a secret.
    pub fn key_bytes(&self) -> (k: [u8; 32])
        ensures
            k@ == self.key_view(),
    {
        self.key.get()
    }
}

/// The errors that sealing can give: the random source failed, or the
/// message is too long for the cipher.
pub open spec fn seal_error(e: CryptoError, plaintext_len: nat) -> bool {
    e == CryptoError::Random || (e == CryptoError::Decrypt && !aead_len_ok(plaintext_len))
}

/// The errors that creating a vault can give: the random source failed, or
/// the first check that fails, key derivation before encryption.
pub open spec fn creation_error(e: CryptoError, params: KdfParams, password_len: nat, plaintext_len: nat) -> bool {
    e == CryptoError::Random || if !kdf_ok(params, password_len, 16) {
        e == CryptoError::Kdf
    } else {
        e == CryptoError::Decrypt && !aead_len_ok(plaintext_len)
    }
}

/// Draws a fresh nonce, builds the header (the associated data) and encrypts:
/// `header || ciphertext+tag`.
fn seal_bytes(key: &[u8; 32], salt: &[u8], params: KdfParams, plaintext: &[u8]) -> (r: Result<Vec<u8>, CryptoError>)
    requires
        salt@.len() == 16,
    ensures
        r is Ok ==> aead_len_ok(plaintext@.len()),
        r matches Err(e) ==> seal_error(e, plaintext@.len()),
        r matches Ok(f) ==> f@.len() == 60 + plaintext@.len() + 16,
        r matches Ok(f) ==> f@ == sealed_file(key@, params, salt@, f@.subrange(36, 60), plaintext@),
{
    let mut nonce: Vec<u8> = vec![0u8; NONCE_LEN];
    if os_random_fill(&mut nonce).is_err() {
        return Err(CryptoError::Random);
    }
    let header = build_header(params, salt, nonce.as_slice());
    match xchacha_encrypt(key, nonce.as_slice(), header.as_slice(), plaintext) {
        Ok(ct) => {
            let mut out = header;
            append_bytes(&mut out, ct.as_slice());
            proof {
                lemma_header_roundtrip(params, salt@, nonce@, ct@);
                assert(out@.subrange(36, 60) =~= nonce@);
            }
            Ok(out)
        },
        Err(_) => Err(CryptoError::Decrypt),
    }
}

/// Decrypts a `.tkeys` file with the raw key (no Argon2), as the quick unlock
/// does.
pub fn open_with_key(raw_key: &[u8; 32], file: &[u8]) -> (r: Result<(SecretBytes, SessionKey), CryptoError>)
    ensures
        match r {
            Ok((pt, session)) => {
                &&& open_with_key_spec(raw_key@, file@) == Ok::<_, CryptoError>(secret_bytes(pt))
                &&& session.key_view() == raw_key@
                &&& session.salt_view() == file@.subrange(20, 36)
                &&& session.params_view() == params_at(file@)
            },
            Err(e) => open_with_key_spec(raw_key@, file@) == Err::<Seq<u8>, _>(e),
        },
        forall|params: KdfParams, salt: Seq<u8>, nonce: Seq<u8>, pt: Seq<u8>|
            salt.len() == 16 && nonce.len() == 24 && aead_len_ok(pt.len())
                && file@ == #[trigger] sealed_file(raw_key@, params, salt, nonce, pt) ==> (
            r matches Ok((p, _)) && secret_bytes(p) == pt),
{
    let (params, salt, nonce) = match parse_header(file) {
        Ok(h) => h,
        Err(e) => {
            proof {
                assert forall|params: KdfParams, salt: Seq<u8>, nonce: Seq<u8>, pt: Seq<u8>|
                    salt.len() == 16 && nonce.len() == 24 && aead_len_ok(pt.len())
                        && file@ == #[trigger] sealed_file(raw_key@, params, salt, nonce, pt) implies false by {
                    lemma_header_roundtrip(params, salt, nonce, xchacha_seal(raw_key@, nonce, header_spec(params, salt, nonce), pt));
                }
            }
            return Err(e);
        },
    };
    let header = slice_subrange(file, 0, HEADER_LEN);
    let ciphertext = slice_subrange(file, HEADER_LEN, file.len());
    proof {
        assert(header@ =~= file@.take(60));
        assert(ciphertext@ =~= file@.skip(60));
        assert forall|params2: KdfParams, salt2: Seq<u8>, nonce2: Seq<u8>, pt: Seq<u8>|
            salt2.len() == 16 && nonce2.len() == 24 && file@ == #[trigger] sealed_file(raw_key@, params2, salt2, nonce2, pt)
            implies nonce2 == nonce@ && header@ == header_spec(params2, salt2, nonce2)
                && ciphertext@ == xchacha_seal(raw_key@, nonce2, header@, pt) by {
            lemma_header_roundtrip(params2, salt2, nonce2, xchacha_seal(raw_key@, nonce2, header_spec(params2, salt2, nonce2), pt));
        }
    }
    match xchacha_decrypt(raw_key, nonce.as_slice(), header, ciphertext) {
        Ok(pt) => {
            let session = SessionKey { key: secret_key_new(*raw_key), salt, params };
            Ok((secret_bytes_new(pt), session))
        },
        Err(_) => Err(CryptoError::Decrypt),
    }
}

/// Creates a vault: draws a salt, derives the key from `password`, encrypts
/// `plaintext`; returns the file and the open session.
pub fn create_vault(password: &str, plaintext: &[u8]) -> (r: Result<(Vec<u8>, SessionKey), CryptoError>)
    ensures
        r is Ok ==> kdf_ok(default_params(), password.spec_bytes().len(), 16) && aead_len_ok(plaintext@.len()),
        r matches Err(e) ==> creation_error(e, default_params(), password.spec_bytes().len(), plaintext@.len()),
        r matches Ok((f, s)) ==> created(password.spec_bytes(), default_params(), plaintext@, f@, s),
{
    create_vault_with(password, plaintext, KdfParams::default())
}

/// What a successful creation gives: a session for `params` with a 16-byte
/// salt and the key that the password and salt give, and the file sealed with
/// that key, salt and a 24-byte nonce.
pub open spec fn created(password: Seq<u8>, params: KdfParams, plaintext: Seq<u8>, file: Seq<u8>, s: SessionKey) -> bool {
    &&& s.params_view() == params
    &&& session_of(password, s)
    &&& file.len() == 60 + plaintext.len() + 16
    &&& file == sealed_file(s.key_view(), params, s.salt_view(), file.subrange(36, 60), plaintext)
}

/// A session of `password`: a 16-byte salt, parameters under which Argon2id
/// runs for that password, and the key that the password and salt give.
pub open spec fn session_of(password: Seq<u8>, s: SessionKey) -> bool {
    &&& s.salt_view().len() == 16
    &&& kdf_ok(s.params_view(), password.len(), 16)
    &&& s.key_view() == password_key(password, s.salt_view(), s.params_view())
}

/// What a session of `password` seals is a vault of that password: the file
/// is sealed under the key that the password and the session's salt give, its
/// header holds the session's parameters and salt, and reading it back gives
/// them. (`open_vault`, `decrypt_vault` and `open_with_key` then give the
/// plaintext back, by their own contracts.)
pub proof fn lemma_session_seal(password: Seq<u8>, s: SessionKey, plaintext: Seq<u8>, file: Seq<u8>)
    requires
        session_of(password, s),
        file.len() == 60 + plaintext.len() + 16,
        file == sealed_file(s.key_view(), s.params_view(), s.salt_view(), file.subrange(36, 60), plaintext),
    ensures
        sealed_with_password(password, s.params_view(), plaintext, file),
        file == sealed_file(
            password_key(password, s.salt_view(), s.params_view()),
            s.params_view(),
            s.salt_view(),
            file.subrange(36, 60),
            plaintext,
        ),
        file.len() >= 60 && file.take(6) == magic(),
        params_at(file) == s.params_view(),
        file.subrange(20, 36) == s.salt_view(),
        parse_header_spec(file) == Ok::<_, CryptoError>((s.params_view(), s.salt_view(), file.subrange(36, 60))),
{
    let k = s.key_view();
    let salt = s.salt_view();
    let params = s.params_view();
    let nonce = file.subrange(36, 60);
    lemma_header_roundtrip(params, salt, nonce, xchacha_seal(k, nonce, header_spec(params, salt, nonce), plaintext));
}

/// A file sealed under `password` and `params` with the salt and nonce that its
/// own header holds.
pub open spec fn sealed_with_password(password: Seq<u8>, params: KdfParams, plaintext: Seq<u8>, file: Seq<u8>) -> bool {
    &&& file.len() == 60 + plaintext.len() + 16
    &&& file == sealed_file(
        password_key(password, file.subrange(20, 36), params),
        params,
        file.subrange(20, 36),
        file.subrange(36, 60),
        plaintext,
    )
}

/// What `created` says of a file, without the session.
pub proof fn lemma_created_file(password: Seq<u8>, params: KdfParams, plaintext: Seq<u8>, file: Seq<u8>, s: SessionKey)
    requires
        created(password, params, plaintext, file, s),
    ensures
        sealed_with_password(password, params, plaintext, file),
{
    let k = s.key_view();
    let salt = s.salt_view();
    let nonce = file.subrange(36, 60);
    lemma_header_roundtrip(params, salt, nonce, xchacha_seal(k, nonce, header_spec(params, salt, nonce), plaintext));
    assert(file.subrange(20, 36) == salt);
}

/// `create_vault` with explicit KDF parameters.
pub fn create_vault_with(password: &str, plaintext: &[u8], params: KdfParams) -> (r: Result<(Vec<u8>, SessionKey), CryptoError>)
    ensures
        r is Ok ==> kdf_ok(params, password.spec_bytes().len(), 16) && aead_len_ok(plaintext@.len()),
        r matches Err(e) ==> creation_error(e, params, password.spec_bytes().len(), plaintext@.len()),
        r matches Ok((f, s)) ==> created(password.spec_bytes(), params, plaintext@, f@, s),
{
    let mut salt: Vec<u8> = vec![0u8; SALT_LEN];
    if os_random_fill(&mut salt).is_err() {
        return Err(CryptoError::Random);
    }
    let key = derive_key(password.as_bytes(), salt.as_slice(), params)?;
    let session = SessionKey { key, salt, params };
    let file = session.seal(plaintext)?;
    Ok((file, session))
}

/// Encrypts without keeping the session (the file only).
pub fn encrypt_vault_with(password: &str, plaintext: &[u8], params: KdfParams) -> (r: Result<Vec<u8>, CryptoError>)
    ensures
        r is Ok ==> kdf_ok(params, password.spec_bytes().len(), 16) && aead_len_ok(plaintext@.len()),
        r matches Err(e) ==> creation_error(e, params, password.spec_bytes().len(), plaintext@.len()),
        r matches Ok(f) ==> sealed_with_password(password.spec_bytes(), params, plaintext@, f@),
{
    match create_vault_with(password, plaintext, params) {
        Ok((f, s)) => {
            proof {
                lemma_created_file(password.spec_bytes(), params, plaintext@, f@, s);
            }
            Ok(f)
        },
        Err(e) => Err(e),
    }
}

/// Opens a `.tkeys` file: checks the header, derives the key, decrypts. Wrong
/// password and tampering give the same `Decrypt` error.
pub fn open_vault(password: &str, file: &[u8]) -> (r: Result<(SecretBytes, SessionKey), CryptoError>)
    ensures
        match r {
            Ok((pt, session)) => {
                &&& open_vault_spec(password.spec_bytes(), file@) == Ok::<_, CryptoError>(secret_bytes(pt))
                &&& session.salt_view() == file@.subrange(20, 36)
                &&& session.params_view() == params_at(file@)
                &&& session_of(password.spec_bytes(), session)
            },
            Err(e) => open_vault_spec(password.spec_bytes(), file@) == Err::<Seq<u8>, _>(e),
        },
        forall|params: KdfParams, salt: Seq<u8>, nonce: Seq<u8>, pt: Seq<u8>|
            salt.len() == 16 && nonce.len() == 24 && aead_len_ok(pt.len())
                && kdf_ok(params, password.spec_bytes().len(), 16)
                && file@ == #[trigger] sealed_file(password_key(password.spec_bytes(), salt, params), params, salt, nonce, pt)
                ==> (r matches Ok((p, _)) && secret_bytes(p) == pt),
{
    let (params, salt, nonce) = match parse_header(file) {
        Ok(h) => h,
        Err(e) => {
            proof {
                assert forall|params: KdfParams, salt: Seq<u8>, nonce: Seq<u8>, pt: Seq<u8>|
                    salt.len() == 16 && nonce.len() == 24 && aead_len_ok(pt.len())
                        && kdf_ok(params, password.spec_bytes().len(), 16)
                        && file@ == #[trigger] sealed_file(password_key(password.spec_bytes(), salt, params), params, salt, nonce, pt)
                    implies false by {
                    let k = password_key(password.spec_bytes(), salt, params);
                    lemma_header_roundtrip(params, salt, nonce, xchacha_seal(k, nonce, header_spec(params, salt, nonce), pt));
                }
            }
            return Err(e);
        },
    };
    let header = slice_subrange(file, 0, HEADER_LEN);
    let ciphertext = slice_subrange(file, HEADER_LEN, file.len());
    let pw = password.as_bytes();
    proof {
        assert(header@ =~= file@.take(60));
        assert(ciphertext@ =~= file@.skip(60));
        assert forall|params2: KdfParams, salt2: Seq<u8>, nonce2: Seq<u8>, pt: Seq<u8>|
            salt2.len() == 16 && nonce2.len() == 24
                && file@ == #[trigger] sealed_file(password_key(pw@, salt2, params2), params2, salt2, nonce2, pt)
            implies params2 == params && salt2 == salt@ && nonce2 == nonce@ && header@ == header_spec(params2, salt2, nonce2)
                && ciphertext@ == xchacha_seal(password_key(pw@, salt2, params2), nonce2, header@, pt) by {
            let k = password_key(pw@, salt2, params2);
            lemma_header_roundtrip(params2, salt2, nonce2, xchacha_seal(k, nonce2, header_spec(params2, salt2, nonce2), pt));
        }
    }
    let key = derive_key(pw, salt.as_slice(), params)?;
    let key_arr = key.get();
    match xchacha_decrypt(&key_arr, nonce.as_slice(), header, ciphertext) {
        Ok(pt) => Ok((secret_bytes_new(pt), SessionKey { key, salt, params })),
        Err(_) => Err(CryptoError::Decrypt),
    }
}

/// Decrypts and returns only the plaintext.
pub fn decrypt_vault(password: &str, file: &[u8]) -> (r: Result<SecretBytes, CryptoError>)
    ensures
        match r {
            Ok(pt) => open_vault_spec(password.spec_bytes(), file@) == Ok::<_, CryptoError>(secret_bytes(pt)),
            Err(e) => open_vault_spec(password.spec_bytes(), file@) == Err::<Seq<u8>, _>(e),
        },
        forall|params: KdfParams, salt: Seq<u8>, nonce: Seq<u8>, pt: Seq<u8>|
            salt.len() == 16 && nonce.len() == 24 && aead_len_ok(pt.len())
                && kdf_ok(params, password.spec_bytes().len(), 16)
                && file@ == #[trigger] sealed_file(password_key(password.spec_bytes(), salt, params), params, salt, nonce, pt)
                ==> (r matches Ok(p) && secret_bytes(p) == pt),
{
    match open_vault(password, file) {
        Ok((pt, _session)) => Ok(pt),
        Err(e) => Err(e),
    }
}

/// Changes the master password: decrypts with the old one and encrypts the
/// same plaintext under the new one (fresh salt and nonce, default parameters).
pub fn change_password(old_password: &str, new_password: &str, file: &[u8]) -> (r: Result<Vec<u8>, CryptoError>)
    ensures
        match open_vault_spec(old_password.spec_bytes(), file@) {
            Err(e) => r == Err::<Vec<u8>, _>(e),
            Ok(pt) => {
                &&& (r is Ok ==> kdf_ok(default_params(), new_password.spec_bytes().len(), 16) && aead_len_ok(pt.len()))
                &&& (r matches Err(e) ==> creation_error(e, default_params(), new_password.spec_bytes().len(), pt.len()))
                &&& (r matches Ok(f) ==> sealed_with_password(new_password.spec_bytes(), default_params(), pt, f@))
            },
        },
{
    let plaintext = decrypt_vault(old_password, file)?;
    let bytes = plaintext.as_slice();
    match create_vault(new_password, bytes) {
        Ok((f, s)) => {
            proof {
                lemma_created_file(new_password.spec_bytes(), default_params(), bytes@, f@, s);
            }
            Ok(f)
        },
        Err(e) => Err(e),
    }
}

} // verus!
