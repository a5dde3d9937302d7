//! Sealing one field into a URL-safe token: `base64url(nonce ∥ ciphertext ∥ tag)`.
use aes_gcm::aead::rand_core::RngCore;
use aes_gcm::aead::{Aead, KeyInit, OsRng};
use aes_gcm::Aes128Gcm;
use base64::Engine;
use vstd::prelude::*;

verus! {

/// Bytes in an AES-128 key.
pub const KEY_LEN: usize = 16;

/// Bytes in an AES-GCM nonce (96 bits).
pub const NONCE_LEN: usize = 12;

/// Bytes in the authentication tag that follows the ciphertext.
pub const TAG_LEN: usize = 16;

/// The longest message, in bytes, that AES-GCM accepts: 2^36.
pub const GCM_MAX_MESSAGE: u64 = 68719476736;

/// What AES-128-GCM makes of `msg` under `key` and `nonce`, with no associated
/// data: the ciphertext followed by the tag.
pub uninterp spec fn aes128gcm_sealed(key: Seq<u8>, nonce: Seq<u8>, msg: Seq<u8>) -> Seq<u8>;

/// The char of a 6-bit value in the URL-safe base64 alphabet: `A`-`Z`,
/// `a`-`z`, `0`-`9`, then `-` and `_`.
pub open spec fn base64_url_digit(v: int) -> char {
    if v < 26 {
        (v + 65) as char
    } else if v < 52 {
        (v - 26 + 97) as char
    } else if v < 62 {
        (v - 52 + 48) as char
    } else if v == 62 {
        '-'
    } else {
        '_'
    }
}

/// The base64 text of `b` in the URL-safe alphabet, without `=` padding: each
/// group of three bytes gives four chars, big-endian six bits at a time; a
/// last group of two bytes gives three chars and a last single byte two, the
/// missing bits taken as zero.
pub open spec fn base64_url_nopad(b: Seq<u8>) -> Seq<char>
    decreases b.len(),
{
    if b.len() == 0 {
        Seq::empty()
    } else if b.len() == 1 {
        seq![base64_url_digit(b[0] as int / 4), base64_url_digit((b[0] as int % 4) * 16)]
    } else if b.len() == 2 {
        seq![
            base64_url_digit(b[0] as int / 4),
            base64_url_digit((b[0] as int % 4) * 16 + b[1] as int / 16),
            base64_url_digit((b[1] as int % 16) * 4),
        ]
    } else {
        seq![
            base64_url_digit(b[0] as int / 4),
            base64_url_digit((b[0] as int % 4) * 16 + b[1] as int / 16),
            base64_url_digit((b[1] as int % 16) * 4 + b[2] as int / 64),
            base64_url_digit(b[2] as int % 64),
        ] + base64_url_nopad(b.subrange(3, b.len() as int))
    }
}

/// A char of the URL-safe base64 alphabet: `[A-Za-z0-9_-]`.
pub open spec fn url_safe_char(c: char) -> bool {
    ('A' <= c && c <= 'Z') || ('a' <= c && c <= 'z') || ('0' <= c && c <= '9') || c == '-' || c
        == '_'
}

/// Base64 text in the URL-safe alphabet holds only URL-safe chars.
pub proof fn lemma_base64_url_safe(b: Seq<u8>)
    ensures
        forall|i: int|
            0 <= i < base64_url_nopad(b).len() ==> url_safe_char(#[trigger] base64_url_nopad(b)[i]),
    decreases b.len(),
{
    assert forall|v: int| 0 <= v < 64 implies url_safe_char(#[trigger] base64_url_digit(v)) by {}
    let d0 = b[0] as int / 4;
    assert(0 <= d0 < 64);
    if b.len() >= 2 {
        let d1 = (b[0] as int % 4) * 16 + b[1] as int / 16;
        assert(0 <= d1 < 64);
    }
    if b.len() >= 3 {
        let rest = b.subrange(3, b.len() as int);
        let d2 = (b[1] as int % 16) * 4 + b[2] as int / 64;
        assert(0 <= d2 < 64);
        lemma_base64_url_safe(rest);
        let head = seq![
            base64_url_digit(d0),
            base64_url_digit((b[0] as int % 4) * 16 + b[1] as int / 16),
            base64_url_digit(d2),
            base64_url_digit(b[2] as int % 64),
        ];
        assert(base64_url_nopad(b) == head + base64_url_nopad(rest));
        assert forall|i: int| 0 <= i < base64_url_nopad(b).len() implies url_safe_char(
            #[trigger] base64_url_nopad(b)[i],
        ) by {
            if i >= 4 {
                assert(base64_url_nopad(b)[i] == base64_url_nopad(rest)[i - 4]);
            }
        }
    }
}

/// The token that a nonce and the sealed bytes make.
pub open spec fn token_spec(nonce: Seq<u8>, sealed: Seq<u8>) -> Seq<char> {
    base64_url_nopad(nonce + sealed)
}

/// `t` is a token of `msg` under `key`: for some 12-byte nonce, `t` encodes that
/// nonce followed by what AES-128-GCM makes of `msg` under `key` and that nonce,
/// which is the ciphertext (as long as `msg`) and a 16-byte tag.
pub open spec fn is_token_for(key: Seq<u8>, msg: Seq<u8>, t: Seq<char>) -> bool {
    exists|n: Seq<u8>|
        {
            &&& n.len() == NONCE_LEN
            &&& aes128gcm_sealed(key, n, msg).len() == msg.len() + TAG_LEN
            &&& #[trigger] token_spec(n, aes128gcm_sealed(key, n, msg)) == t
        }
}

/// The number of chars in the unpadded base64 text of `n` bytes.
pub open spec fn base64_len(n: int) -> int {
    (4 * n + 2) / 3
}

/// Unpadded base64 text has four chars for each three bytes, and two or three
/// for a last group of one or two.
pub proof fn lemma_base64_len(b: Seq<u8>)
    ensures
        base64_url_nopad(b).len() == base64_len(b.len() as int),
    decreases b.len(),
{
    if b.len() >= 3 {
        lemma_base64_len(b.subrange(3, b.len() as int));
    }
}

/// Why a field could not be sealed.
#[derive(Debug, Clone, Copy, PartialEq, Eq, Structural)]
pub enum EncryptError {
    /// The key is not 16 bytes long.
    KeyLength,
    /// The cipher refused the message (it is longer than AES-GCM allows).
    Cipher,
    /// The system's secure random source gave no nonce.
    Nonce,
}

/// Relies on `OsRng::try_fill_bytes` (rand_core, as aes_gcm re-exports it):
/// it fills the twelve bytes from the operating system's secure random source,
/// or reports an error where the system offers none.
#[verifier::external_body]
fn fresh_nonce() -> (r: Option<Vec<u8>>)
    ensures
        r matches Some(n) ==> n@.len() == NONCE_LEN,
{
    let mut nonce = vec![0u8; NONCE_LEN];
    OsRng.try_fill_bytes(&mut nonce).ok().map(|_| nonce)
}

/// Relies on aes_gcm's `Aes128Gcm::new` and `Aead::encrypt`, no associated
/// data: it fails only for a message over `GCM_MAX_MESSAGE` bytes, and
/// otherwise returns the ciphertext (as long as the message) and a 16-byte tag.
/// `Key::from_slice` and `Nonce::from_slice` panic on other lengths.
#[verifier::external_body]
fn aes128gcm_encrypt(key: &[u8], nonce: &[u8], msg: &[u8]) -> (r: Option<Vec<u8>>)
    requires
        key@.len() == KEY_LEN,
        nonce@.len() == NONCE_LEN,
    ensures
        r is Some <==> msg@.len() <= GCM_MAX_MESSAGE,
        r matches Some(c) ==> c@ == aes128gcm_sealed(key@, nonce@, msg@),
        r matches Some(c) ==> c@.len() == msg@.len() + TAG_LEN,
{
    let cipher = Aes128Gcm::new(aes_gcm::Key::<Aes128Gcm>::from_slice(key));
    cipher.encrypt(aes_gcm::Nonce::from_slice(nonce), msg).ok()
}

/// Relies on base64's `URL_SAFE_NO_PAD` engine: `encode` writes standard
/// base64 with `-` and `_` in place of `+` and `/`, and adds no `=`.
#[verifier::external_body]
fn encode_base64_url(b: &[u8]) -> (r: String)
    ensures
        r@ == base64_url_nopad(b@),
{
    base64::engine::general_purpose::URL_SAFE_NO_PAD.encode(b)
}

/// Seals `plaintext` under `key` with the given nonce and returns the token.
/// Fails with `KeyLength` for a key that is not 16 bytes long (checked before
/// the cipher is touched), and with `Cipher` when the cipher refuses.
pub fn seal_token(key: &[u8], nonce: &[u8], plaintext: &[u8]) -> (r: Result<String, EncryptError>)
    requires
        nonce@.len() == NONCE_LEN,
    ensures
        r == Err::<String, EncryptError>(EncryptError::KeyLength) <==> key@.len() != KEY_LEN,
        r == Err::<String, EncryptError>(EncryptError::Cipher) <==> key@.len() == KEY_LEN
            && plaintext@.len() > GCM_MAX_MESSAGE,
        key@.len() == KEY_LEN && plaintext@.len() <= GCM_MAX_MESSAGE ==> r is Ok,
        r matches Ok(t) ==> t@ == token_spec(nonce@, aes128gcm_sealed(key@, nonce@, plaintext@)),
        r matches Ok(t) ==> aes128gcm_sealed(key@, nonce@, plaintext@).len() == plaintext@.len()
            + TAG_LEN,
        r matches Ok(t) ==> t@.len() == base64_len(NONCE_LEN + plaintext@.len() + TAG_LEN),
        r matches Ok(t) ==> forall|i: int| 0 <= i < t@.len() ==> url_safe_char(#[trigger] t@[i]),
{
    if key.len() != KEY_LEN {
        return Err(EncryptError::KeyLength);
    }
    match aes128gcm_encrypt(key, nonce, plaintext) {
        None => Err(EncryptError::Cipher),
        Some(sealed) => {
            let mut payload: Vec<u8> = Vec::new();
            let mut i: usize = 0;
            while i < nonce.len()
                invariant
                    i <= nonce@.len(),
                    payload@ =~= nonce@.subrange(0, i as int),
                decreases nonce@.len() - i,
            {
                payload.push(nonce[i]);
                i = i + 1;
            }
            let mut j: usize = 0;
            while j < sealed.len()
                invariant
                    j <= sealed@.len(),
                    payload@ =~= nonce@ + sealed@.subrange(0, j as int),
                decreases sealed@.len() - j,
            {
                payload.push(sealed[j]);
                j = j + 1;
            }
            assert(sealed@.subrange(0, sealed@.len() as int) =~= sealed@);
            proof {
                lemma_base64_url_safe(payload@);
                lemma_base64_len(payload@);
            }
            Ok(encode_base64_url(payload.as_slice()))
        },
    }
}

/// Seals `plaintext` under `key` with a fresh random nonce and returns the
/// URL-safe token. A key that is not 16 bytes long fails with `KeyLength`
/// before anything else; `Nonce` when the random source gives nothing;
/// `Cipher` for a message longer than AES-GCM allows. Two calls draw two
/// nonces, so their tokens differ but for a collision of random nonces.
pub fn encrypt(key: &[u8], plaintext: &[u8]) -> (r: Result<String, EncryptError>)
    ensures
        r == Err::<String, EncryptError>(EncryptError::KeyLength) <==> key@.len() != KEY_LEN,
        r == Err::<String, EncryptError>(EncryptError::Cipher) ==> plaintext@.len()
            > GCM_MAX_MESSAGE,
        key@.len() == KEY_LEN && plaintext@.len() > GCM_MAX_MESSAGE ==> r is Err,
        key@.len() == KEY_LEN && plaintext@.len() <= GCM_MAX_MESSAGE && r is Err ==> r
            == Err::<String, EncryptError>(EncryptError::Nonce),
        r matches Ok(t) ==> is_token_for(key@, plaintext@, t@),
        r matches Ok(t) ==> t@.len() == base64_len(NONCE_LEN + plaintext@.len() + TAG_LEN),
        r matches Ok(t) ==> forall|i: int| 0 <= i < t@.len() ==> url_safe_char(#[trigger] t@[i]),
{
    if key.len() != KEY_LEN {
        return Err(EncryptError::KeyLength);
    }
    let nonce = match fresh_nonce() {
        Some(n) => n,
        None => {
            return Err(EncryptError::Nonce);
        },
    };
    let r = seal_token(key, nonce.as_slice(), plaintext);
    if let Ok(t) = &r {
        assert(token_spec(nonce@, aes128gcm_sealed(key@, nonce@, plaintext@)) == t@);
    }
    r
}

} // verus!
