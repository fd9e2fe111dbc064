use vstd::prelude::*;
use vstd::string::StringSliceAdditionalSpecFns;

use aes_gcm::aead::{Aead, KeyInit};
use aes_gcm::{Aes256Gcm, Key, Nonce};
use hex::FromHexError;
use sha2::{Digest, Sha256};
use std::string::FromUtf8Error;

verus! {

#[verifier::external_type_specification]
#[verifier::external_body]
pub struct ExAeadError(aes_gcm::Error);

#[verifier::external_type_specification]
#[verifier::external_body]
pub struct ExFromHexError(FromHexError);

#[verifier::external_type_specification]
#[verifier::external_body]
pub struct ExFromUtf8Error(FromUtf8Error);

/// The SHA-256 digest of a byte string.
pub uninterp spec fn sha256_of(b: Seq<u8>) -> Seq<u8>;

/// Relies on `sha2::Sha256::digest`: the digest depends on the bytes alone
/// and is 32 bytes long.
#[verifier::external_body]
fn sha256(data: &[u8]) -> (r: Vec<u8>)
    ensures
        r@ == sha256_of(data@),
        r@.len() == 32,
{
    Sha256::digest(data).to_vec()
}

pub open spec fn hex_digits() -> Seq<char> {
    seq!['0', '1', '2', '3', '4', '5', '6', '7', '8', '9', 'a', 'b', 'c', 'd', 'e', 'f']
}

/// Each byte as two lower-case hexadecimal digits, high digit first.
pub open spec fn hex_lower(b: Seq<u8>) -> Seq<char>
    decreases b.len(),
{
    if b.len() == 0 {
        Seq::<char>::empty()
    } else {
        hex_lower(b.drop_last()) + seq![
            hex_digits()[(b.last() / 16) as int],
            hex_digits()[(b.last() % 16) as int],
        ]
    }
}

/// Relies on `hex::encode`: two lower-case hexadecimal digits per byte.
#[verifier::external_body]
fn hex_encode(data: &[u8]) -> (r: String)
    ensures
        r@ == hex_lower(data@),
{
    hex::encode(data)
}

/// A one-way key for a user code, for counting distinct users without
/// keeping their codes: the SHA-256 digest of its UTF-8 bytes, in hexadecimal.
pub fn hash_ucode(ucode: &str) -> (r: String)
    ensures
        r@ == hex_lower(sha256_of(ucode.spec_bytes())),
{
    let digest = sha256(ucode.as_bytes());
    hex_encode(digest.as_slice())
}

/// Why a student id could not be sealed or opened.
#[derive(Clone, Copy, Debug, PartialEq, Eq, Structural)]
pub enum CryptoError {
    EncryptionFailed,
    InvalidHex,
    DecryptionFailed,
    InvalidUtf8,
}

/// The AES-256-GCM sealing (ciphertext followed by tag) of a plaintext
/// under a key and a nonce, without associated data.
pub uninterp spec fn aes_gcm_sealed(key: Seq<u8>, nonce: Seq<u8>, plaintext: Seq<u8>) -> Seq<u8>;

/// The longest plaintext that AES-GCM seals, in bytes (`aes_gcm::P_MAX`).
pub const AES_GCM_MAX_PLAINTEXT: u64 = 0x10_0000_0000;

/// Relies on `aes_gcm::Aes256Gcm::encrypt`: on success the result is the
/// sealing of the plaintext, and it fails only on a plaintext longer than
/// `P_MAX`. The key is 32 bytes and the nonce 12, as `from_slice` needs.
#[verifier::external_body]
fn aes_gcm_seal(key: &[u8], nonce: &[u8], plaintext: &[u8]) -> (r: Result<Vec<u8>, aes_gcm::Error>)
    requires
        key@.len() == 32,
        nonce@.len() == 12,
    ensures
        r is Ok ==> r->Ok_0@ == aes_gcm_sealed(key@, nonce@, plaintext@),
        plaintext@.len() <= AES_GCM_MAX_PLAINTEXT ==> r is Ok,
{
    let cipher = Aes256Gcm::new(Key::<Aes256Gcm>::from_slice(key));
    cipher.encrypt(Nonce::from_slice(nonce), plaintext)
}

/// Relies on `aes_gcm::Aes256Gcm::decrypt`: it succeeds only where the tag
/// checks, and then the plaintext seals back to the ciphertext; the sealing
/// of a plaintext no longer than `P_MAX` opens to that plaintext.
#[verifier::external_body]
fn aes_gcm_open(key: &[u8], nonce: &[u8], ciphertext: &[u8]) -> (r: Result<Vec<u8>, aes_gcm::Error>)
    requires
        key@.len() == 32,
        nonce@.len() == 12,
    ensures
        r is Ok ==> aes_gcm_sealed(key@, nonce@, r->Ok_0@) == ciphertext@,
        forall|p: Seq<u8>|
            p.len() <= AES_GCM_MAX_PLAINTEXT && #[trigger] aes_gcm_sealed(key@, nonce@, p)
                == ciphertext@ ==> r is Ok && r->Ok_0@ == p,
{
    let cipher = Aes256Gcm::new(Key::<Aes256Gcm>::from_slice(key));
    cipher.decrypt(Nonce::from_slice(nonce), ciphertext)
}

/// The value of a hexadecimal digit in either case.
pub open spec fn hex_value(c: char) -> Option<int> {
    if '0' <= c && c <= '9' {
        Some(c as int - '0' as int)
    } else if 'a' <= c && c <= 'f' {
        Some(c as int - 'a' as int + 10)
    } else if 'A' <= c && c <= 'F' {
        Some(c as int - 'A' as int + 10)
    } else {
        None
    }
}

/// An even number of hexadecimal digits.
pub open spec fn is_hex_text(s: Seq<char>) -> bool {
    &&& s.len() % 2 == 0
    &&& forall|i: int| 0 <= i < s.len() ==> (#[trigger] hex_value(s[i])) is Some
}

/// The bytes that pairs of hexadecimal digits denote, high digit first.
pub open spec fn hex_bytes(s: Seq<char>) -> Seq<u8> {
    Seq::new(
        (s.len() / 2) as nat,
        |i: int| (hex_value(s[2 * i])->0 * 16 + hex_value(s[2 * i + 1])->0) as u8,
    )
}

/// Relies on `hex::decode`: it succeeds exactly on an even number of
/// hexadecimal digits, and gives the bytes they denote.
#[verifier::external_body]
fn hex_decode(s: &str) -> (r: Result<Vec<u8>, FromHexError>)
    ensures
        match r {
            Ok(b) => is_hex_text(s@) && b@ == hex_bytes(s@),
            Err(_) => !is_hex_text(s@),
        },
{
    hex::decode(s)
}

/// The text that a byte string encodes in UTF-8, or `None` where it is no UTF-8.
pub uninterp spec fn utf8_decoded(b: Seq<u8>) -> Option<Seq<char>>;

/// Relies on `String::from_utf8`: the result depends on the bytes alone,
/// and the UTF-8 bytes of a text give that text back.
#[verifier::external_body]
fn utf8_string(bytes: Vec<u8>) -> (r: Result<String, FromUtf8Error>)
    ensures
        match r {
            Ok(s) => utf8_decoded(bytes@) == Some(s@),
            Err(_) => utf8_decoded(bytes@) is None,
        },
        forall|t: &str| #[trigger] t.spec_bytes() == bytes@ ==> r is Ok && r->Ok_0@ == t@,
{
    String::from_utf8(bytes)
}

/// The label hashed with the timestamp into the key.
pub const KEY_LABEL: &'static str = "fjcpc-course-parser-secret-key";

/// The label hashed with the timestamp into the nonce.
pub const NONCE_LABEL: &'static str = "fjcpc-nonce";

/// The eight bytes of a 64-bit value, least significant first.
pub open spec fn le_bytes(x: u64) -> Seq<u8> {
    seq![
        (x & 0xff) as u8,
        ((x >> 8u64) & 0xff) as u8,
        ((x >> 16u64) & 0xff) as u8,
        ((x >> 24u64) & 0xff) as u8,
        ((x >> 32u64) & 0xff) as u8,
        ((x >> 40u64) & 0xff) as u8,
        ((x >> 48u64) & 0xff) as u8,
        ((x >> 56u64) & 0xff) as u8,
    ]
}

/// The key of a timestamp: the digest of its bytes and the key label.
pub open spec fn key_of(timestamp: i64) -> Seq<u8> {
    sha256_of(le_bytes(timestamp as u64) + KEY_LABEL.spec_bytes())
}

/// The nonce of a timestamp: the first twelve bytes of the digest of its
/// bytes and the nonce label.
pub open spec fn nonce_of(timestamp: i64) -> Seq<u8> {
    sha256_of(le_bytes(timestamp as u64) + NONCE_LABEL.spec_bytes()).subrange(0, 12)
}

fn timestamp_bytes(timestamp: i64) -> (r: Vec<u8>)
    ensures
        r@ == le_bytes(timestamp as u64),
{
    let x = timestamp as u64;
    let mut r: Vec<u8> = Vec::new();
    r.push((x & 0xff) as u8);
    r.push(((x >> 8u64) & 0xff) as u8);
    r.push(((x >> 16u64) & 0xff) as u8);
    r.push(((x >> 24u64) & 0xff) as u8);
    r.push(((x >> 32u64) & 0xff) as u8);
    r.push(((x >> 40u64) & 0xff) as u8);
    r.push(((x >> 48u64) & 0xff) as u8);
    r.push(((x >> 56u64) & 0xff) as u8);
    assert(r@ =~= le_bytes(x));
    r
}

fn append_bytes(dst: &mut Vec<u8>, src: &[u8])
    ensures
        final(dst)@ == old(dst)@ + src@,
{
    let mut i: usize = 0;
    while i < src.len()
        invariant
            i <= src@.len(),
            dst@ == old(dst)@ + src@.subrange(0, i as int),
        decreases src@.len() - i,
    {
        dst.push(src[i]);
        i = i + 1;
        assert(dst@ =~= old(dst)@ + src@.subrange(0, i as int));
    }
    assert(src@.subrange(0, i as int) =~= src@);
}

fn derive_key_from_timestamp(timestamp: i64) -> (r: Vec<u8>)
    ensures
        r@ == key_of(timestamp),
        r@.len() == 32,
{
    let mut data = timestamp_bytes(timestamp);
    append_bytes(&mut data, KEY_LABEL.as_bytes());
    sha256(data.as_slice())
}

fn derive_nonce_from_timestamp(timestamp: i64) -> (r: Vec<u8>)
    ensures
        r@ == nonce_of(timestamp),
        r@.len() == 12,
{
    let mut data = timestamp_bytes(timestamp);
    append_bytes(&mut data, NONCE_LABEL.as_bytes());
    let digest = sha256(data.as_slice());
    let mut nonce: Vec<u8> = Vec::new();
    let mut i: usize = 0;
    while i < 12
        invariant
            digest@.len() == 32,
            i <= 12,
            nonce@ == digest@.subrange(0, i as int),
        decreases 12 - i,
    {
        nonce.push(digest[i]);
        i = i + 1;
        assert(nonce@ =~= digest@.subrange(0, i as int));
    }
    nonce
}

/// Seals a student id with AES-256-GCM under the key and nonce derived from
/// a timestamp, and writes the result in hexadecimal.
pub fn encrypt_student_id(student_id: &str, timestamp: i64) -> (r: Result<String, CryptoError>)
    ensures
        match r {
            Ok(h) => h@ == hex_lower(
                aes_gcm_sealed(key_of(timestamp), nonce_of(timestamp), student_id.spec_bytes()),
            ),
            Err(e) => e == CryptoError::EncryptionFailed,
        },
        student_id.spec_bytes().len() <= AES_GCM_MAX_PLAINTEXT ==> r is Ok,
{
    let key = derive_key_from_timestamp(timestamp);
    let nonce = derive_nonce_from_timestamp(timestamp);
    match aes_gcm_seal(key.as_slice(), nonce.as_slice(), student_id.as_bytes()) {
        Ok(sealed) => Ok(hex_encode(sealed.as_slice())),
        Err(_) => Err(CryptoError::EncryptionFailed),
    }
}

/// Opens a student id sealed by `encrypt_student_id` with the same timestamp.
pub fn decrypt_student_id(encrypted_hex: &str, timestamp: i64) -> (r: Result<String, CryptoError>)
    ensures
        !is_hex_text(encrypted_hex@) <==> r == Err::<String, CryptoError>(CryptoError::InvalidHex),
        r is Ok ==> exists|plain: Seq<u8>|
            {
                &&& aes_gcm_sealed(key_of(timestamp), nonce_of(timestamp), plain) == hex_bytes(
                    encrypted_hex@,
                )
                &&& utf8_decoded(plain) == Some(r->Ok_0@)
            },
        forall|id: &str|
            {
                &&& is_hex_text(encrypted_hex@)
                &&& id.spec_bytes().len() <= AES_GCM_MAX_PLAINTEXT
                &&& #[trigger] aes_gcm_sealed(key_of(timestamp), nonce_of(timestamp), id.spec_bytes())
                    == hex_bytes(encrypted_hex@)
            } ==> r is Ok && r->Ok_0@ == id@,
{
    let sealed = match hex_decode(encrypted_hex) {
        Ok(b) => b,
        Err(_) => {
            return Err(CryptoError::InvalidHex);
        },
    };
    let key = derive_key_from_timestamp(timestamp);
    let nonce = derive_nonce_from_timestamp(timestamp);
    let plain = match aes_gcm_open(key.as_slice(), nonce.as_slice(), sealed.as_slice()) {
        Ok(p) => p,
        Err(_) => {
            return Err(CryptoError::DecryptionFailed);
        },
    };
    match utf8_string(plain) {
        Ok(s) => Ok(s),
        Err(_) => Err(CryptoError::InvalidUtf8),
    }
}

proof fn lemma_hex_digit(k: int)
    requires
        0 <= k < 16,
    ensures
        hex_value(hex_digits()[k]) == Some(k),
{
    assert(hex_digits()[k] == seq![
        '0', '1', '2', '3', '4', '5', '6', '7', '8', '9', 'a', 'b', 'c', 'd', 'e', 'f'
    ][k]);
}

/// Hexadecimal encoding is undone by decoding: the text that `hex_lower`
/// gives is an even run of hexadecimal digits, and it reads back as the
/// same bytes.
pub proof fn lemma_hex_round_trip(b: Seq<u8>)
    ensures
        hex_lower(b).len() == 2 * b.len(),
        is_hex_text(hex_lower(b)),
        hex_bytes(hex_lower(b)) == b,
    decreases b.len(),
{
    if b.len() > 0 {
        let init = b.drop_last();
        lemma_hex_round_trip(init);
        let x = b.last();
        let hi = (x / 16) as int;
        let lo = (x % 16) as int;
        lemma_hex_digit(hi);
        lemma_hex_digit(lo);
        let h = hex_lower(b);
        let g = hex_lower(init);
        assert(h =~= g + seq![hex_digits()[hi], hex_digits()[lo]]);
        assert forall|i: int| 0 <= i < h.len() implies (#[trigger] hex_value(h[i])) is Some by {
            if i < g.len() {
                assert(h[i] == g[i]);
            }
        }
        assert(hi * 16 + lo == x as int);
        assert forall|i: int| 0 <= i < b.len() implies hex_bytes(h)[i] == b[i] by {
            if i < init.len() {
                assert(h[2 * i] == g[2 * i] && h[2 * i + 1] == g[2 * i + 1]);
                assert(hex_bytes(g)[i] == init[i]);
            }
        }
        assert(hex_bytes(h) =~= b);
    } else {
        assert(hex_bytes(hex_lower(b)) =~= b);
    }
}

/// An encrypted student id decrypts back to the id: the hexadecimal text of
/// the sealing under a timestamp's key and nonce reads back as that very
/// sealing, which is what `decrypt_student_id` opens.
pub proof fn lemma_encrypted_id_decrypts(id: Seq<u8>, timestamp: i64)
    ensures
        is_hex_text(hex_lower(aes_gcm_sealed(key_of(timestamp), nonce_of(timestamp), id))),
        hex_bytes(hex_lower(aes_gcm_sealed(key_of(timestamp), nonce_of(timestamp), id)))
            == aes_gcm_sealed(key_of(timestamp), nonce_of(timestamp), id),
{
    lemma_hex_round_trip(aes_gcm_sealed(key_of(timestamp), nonce_of(timestamp), id));
}

} // verus!
