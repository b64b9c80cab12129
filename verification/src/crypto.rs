//! Encryption at rest of API keys and bot tokens: ChaCha20-Poly1305 under a 256-bit key,
//! a fresh 96-bit nonce per message, stored as lowercase hex of nonce followed by ciphertext.
use vstd::prelude::*;
use vstd::utf8::*;
use vstd::string::*;
use crate::error::AppError;
use crate::text::{decimal, u64_to_decimal};
use chacha20poly1305::aead::Aead;
use chacha20poly1305::KeyInit;
use rand::Rng;

verus! {

#[verifier::external_type_specification]
#[verifier::external_body]
pub struct ExAeadError(chacha20poly1305::Error);

/// Why hex text could not be decoded (the variants of `hex::FromHexError`).
#[derive(Clone, Copy, PartialEq, Eq, Debug)]
pub enum HexError {
    /// A character other than `0-9`, `a-f`, `A-F`, at the given byte position.
    InvalidHexCharacter { c: char, index: usize },
    /// The text has an odd number of digits.
    OddLength,
    /// The text does not fit the fixed-size output.
    InvalidStringLength,
}

/// The errors of the cipher.
#[derive(Clone, Copy, PartialEq, Eq, Debug)]
pub enum CryptoError {
    /// No key was configured.
    KeyNotSet,
    /// The configured key is not hex.
    KeyDecode(HexError),
    /// The configured key is not 32 bytes long.
    KeyLength,
    /// The plaintext is too long to encrypt.
    Encryption,
    /// The stored text is not hex.
    Decode(HexError),
    /// The stored text is shorter than a nonce.
    TooShort,
    /// The ciphertext does not authenticate under the key.
    Decryption,
    /// The decrypted bytes are not UTF-8: they are valid up to `valid_up_to`, and then come
    /// `error_len` bytes that no character begins with, or (`None`) the bytes end in the middle
    /// of a character.
    Utf8 { valid_up_to: usize, error_len: Option<usize> },
}

/// The value of a hex digit byte.
pub open spec fn hex_digit_value(b: u8) -> Option<u8> {
    if 48 <= b <= 57 {
        Some((b - 48) as u8)
    } else if 97 <= b <= 102 {
        Some((b - 87) as u8)
    } else if 65 <= b <= 70 {
        Some((b - 55) as u8)
    } else {
        None
    }
}

/// The lowercase hex digit for `n` in `0..16`.
pub open spec fn hex_char(n: int) -> char {
    if n < 10 {
        (n + 48) as char
    } else {
        (n + 87) as char
    }
}

/// Lowercase hex of `b`: two digits per byte, high nibble first (`hex::encode`).
pub open spec fn hex_encode_spec(b: Seq<u8>) -> Seq<char> {
    Seq::new(
        2 * b.len(),
        |i: int|
            if i % 2 == 0 {
                hex_char((b[i / 2] / 16) as int)
            } else {
                hex_char((b[i / 2] % 16) as int)
            },
    )
}

/// Whether every byte of `d` is a hex digit.
pub open spec fn all_hex(d: Seq<u8>) -> bool {
    forall|i: int| 0 <= i < d.len() ==> (#[trigger] hex_digit_value(d[i])) is Some
}

/// The bytes that the hex digits `d` denote, two digits per byte.
pub open spec fn hex_bytes(d: Seq<u8>) -> Seq<u8> {
    Seq::new(
        d.len() / 2,
        |i: int| (hex_digit_value(d[2 * i])->0 * 16 + hex_digit_value(d[2 * i + 1])->0) as u8,
    )
}

/// The position of the first byte of `d` that is not a hex digit.
pub open spec fn first_non_hex(d: Seq<u8>) -> int {
    choose|i: int|
        0 <= i < d.len() && hex_digit_value(d[i]) is None && forall|j: int|
            0 <= j < i ==> (#[trigger] hex_digit_value(d[j])) is Some
}

/// What `hex::decode` gives for the bytes `d`: an odd count is refused first, then the
/// first non-digit, by its position.
pub open spec fn hex_decode_spec(d: Seq<u8>) -> Result<Seq<u8>, HexError> {
    if d.len() % 2 != 0 {
        Err(HexError::OddLength)
    } else if !all_hex(d) {
        Err(
            HexError::InvalidHexCharacter {
                c: d[first_non_hex(d)] as char,
                index: first_non_hex(d) as usize,
            },
        )
    } else {
        Ok(hex_bytes(d))
    }
}

/// Encodes bytes as lowercase hex with `hex::encode`.
#[verifier::external_body]
fn hex_encode(bytes: &[u8]) -> (s: String)
    ensures
        s@ == hex_encode_spec(bytes@),
{
    hex::encode(bytes)
}

/// Decodes the hex text `s` with `hex::decode`, which reads the UTF-8 bytes of `s`.
#[verifier::external_body]
fn hex_decode(s: &str) -> (r: Result<Vec<u8>, HexError>)
    ensures
        match r {
            Ok(v) => hex_decode_spec(encode_utf8(s@)) == Ok::<Seq<u8>, HexError>(v@),
            Err(e) => hex_decode_spec(encode_utf8(s@)) == Err::<Seq<u8>, HexError>(e),
        },
{
    match hex::decode(s) {
        Ok(v) => Ok(v),
        Err(hex::FromHexError::InvalidHexCharacter { c, index }) => Err(
            HexError::InvalidHexCharacter { c, index },
        ),
        Err(hex::FromHexError::OddLength) => Err(HexError::OddLength),
        Err(hex::FromHexError::InvalidStringLength) => Err(HexError::InvalidStringLength),
    }
}

/// The ChaCha20-Poly1305 ciphertext (with its 16-byte tag appended) of `plaintext` under
/// `key` and `nonce`, with no associated data.
pub uninterp spec fn aead_seal(key: Seq<u8>, nonce: Seq<u8>, plaintext: Seq<u8>) -> Seq<u8>;

/// The plaintext that ChaCha20-Poly1305 recovers from `ciphertext` under `key` and `nonce`,
/// or `None` where the tag does not verify.
pub uninterp spec fn aead_open(key: Seq<u8>, nonce: Seq<u8>, ciphertext: Seq<u8>) -> Option<Seq<u8>>;

/// Encrypts with `ChaCha20Poly1305::encrypt`. The crate refuses a plaintext of
/// `u32::MAX` or more 64-byte blocks and succeeds otherwise; what it returns, the ciphertext
/// with its 16-byte tag appended (as long as the plaintext plus 16), is named `aead_seal`,
/// and decrypting it under the same key and nonce gives the plaintext back.
#[verifier::external_body]
fn chacha_seal(key: &[u8], nonce: &[u8; 12], plaintext: &[u8]) -> (r: Result<
    Vec<u8>,
    chacha20poly1305::Error,
>)
    requires
        key@.len() == 32,
    ensures
        r is Ok <==> plaintext@.len() / 64 < 0xffff_ffff,
        r matches Ok(c) ==> c@.len() == plaintext@.len() + 16,
        r matches Ok(c) ==> c@ == aead_seal(key@, nonce@, plaintext@) && aead_open(
            key@,
            nonce@,
            c@,
        ) == Some(plaintext@),
{
    let cipher = chacha20poly1305::ChaCha20Poly1305::new(chacha20poly1305::Key::from_slice(key));
    cipher.encrypt(chacha20poly1305::Nonce::from_slice(nonce), plaintext)
}

/// Decrypts with `ChaCha20Poly1305::decrypt`; the outcome is named `aead_open`.
#[verifier::external_body]
fn chacha_open(key: &[u8], nonce: &[u8], ciphertext: &[u8]) -> (r: Result<
    Vec<u8>,
    chacha20poly1305::Error,
>)
    requires
        key@.len() == 32,
        nonce@.len() == 12,
    ensures
        match r {
            Ok(p) => aead_open(key@, nonce@, ciphertext@) == Some(p@),
            Err(_) => aead_open(key@, nonce@, ciphertext@) is None,
        },
{
    let cipher = chacha20poly1305::ChaCha20Poly1305::new(chacha20poly1305::Key::from_slice(key));
    cipher.decrypt(chacha20poly1305::Nonce::from_slice(nonce), ciphertext)
}

/// Twelve bytes from `rand::thread_rng`; nothing is claimed of their value.
#[verifier::external_body]
fn random_nonce() -> (n: [u8; 12]) {
    rand::thread_rng().gen()
}

/// Where `String::from_utf8` finds bytes that are not UTF-8: the `valid_up_to` and
/// `error_len` of its `Utf8Error`.
pub uninterp spec fn utf8_failure(bytes: Seq<u8>) -> (usize, Option<usize>);

/// `String::from_utf8`: the text that the bytes encode, when they are valid UTF-8; otherwise
/// the two fields of the error, as `Utf8Error::valid_up_to` and `Utf8Error::error_len` give
/// them. The contract claims that they are a function of the bytes, named `utf8_failure`, and
/// what the documentation of `valid_up_to` says: the bytes before it are valid UTF-8.
#[verifier::external_body]
fn string_from_utf8(bytes: Vec<u8>) -> (r: Result<String, (usize, Option<usize>)>)
    ensures
        r is Ok <==> valid_utf8(bytes@),
        r matches Ok(s) ==> s@ == decode_utf8(bytes@),
        r matches Err(f) ==> f == utf8_failure(bytes@) && f.0 <= bytes@.len() && valid_utf8(
            bytes@.subrange(0, f.0 as int),
        ),
{
    match String::from_utf8(bytes) {
        Ok(s) => Ok(s),
        Err(e) => Err((e.utf8_error().valid_up_to(), e.utf8_error().error_len())),
    }
}

/// What decrypting the stored text `s` under `key` gives.
pub open spec fn decrypt_spec(key: Seq<u8>, s: Seq<char>) -> Result<Seq<char>, CryptoError> {
    match hex_decode_spec(encode_utf8(s)) {
        Err(e) => Err(CryptoError::Decode(e)),
        Ok(b) => if b.len() < 12 {
            Err(CryptoError::TooShort)
        } else {
            match aead_open(key, b.subrange(0, 12), b.subrange(12, b.len() as int)) {
                None => Err(CryptoError::Decryption),
                Some(p) => if valid_utf8(p) {
                    Ok(decode_utf8(p))
                } else {
                    Err(
                        CryptoError::Utf8 {
                            valid_up_to: utf8_failure(p).0,
                            error_len: utf8_failure(p).1,
                        },
                    )
                },
            }
        },
    }
}

/// The stored form of `plaintext` encrypted under `key` with `nonce`.
pub open spec fn sealed_text(key: Seq<u8>, nonce: Seq<u8>, plaintext: Seq<char>) -> Seq<char> {
    hex_encode_spec(nonce + aead_seal(key, nonce, encode_utf8(plaintext)))
}

/// What building a cipher from the configured key text gives.
pub open spec fn new_cipher_spec(key_hex: Option<Seq<char>>) -> Result<Seq<u8>, CryptoError> {
    match key_hex {
        None => Err(CryptoError::KeyNotSet),
        Some(h) => match hex_decode_spec(encode_utf8(h)) {
            Err(e) => Err(CryptoError::KeyDecode(e)),
            Ok(b) => if b.len() != 32 {
                Err(CryptoError::KeyLength)
            } else {
                Ok(b)
            },
        },
    }
}

proof fn lemma_hex_char(n: int)
    requires
        0 <= n < 16,
    ensures
        (hex_char(n) as u32) < 128,
        hex_digit_value(hex_char(n) as u8) == Some(n as u8),
{
}

/// Hex text decodes back to the bytes it encodes.
pub proof fn lemma_hex_roundtrip(b: Seq<u8>)
    ensures
        hex_decode_spec(encode_utf8(hex_encode_spec(b))) == Ok::<Seq<u8>, HexError>(b),
{
    let s = hex_encode_spec(b);
    assert forall|i: int| 0 <= i < s.len() implies '\0' <= #[trigger] s[i] <= '\u{7f}' by {
        if i % 2 == 0 {
            lemma_hex_char((b[i / 2] / 16) as int);
        } else {
            lemma_hex_char((b[i / 2] % 16) as int);
        }
    }
    assert(is_ascii_chars(s));
    is_ascii_chars_encode_utf8(s);
    let d = encode_utf8(s);
    assert(d.len() == 2 * b.len());
    assert forall|i: int| 0 <= i < d.len() implies (#[trigger] hex_digit_value(d[i])) is Some
        && hex_digit_value(d[i])->0 == (if i % 2 == 0 {
        b[i / 2] / 16
    } else {
        b[i / 2] % 16
    }) by {
        assert(d[i] == s[i] as u8);
        if i % 2 == 0 {
            lemma_hex_char((b[i / 2] / 16) as int);
        } else {
            lemma_hex_char((b[i / 2] % 16) as int);
        }
    }
    assert(hex_bytes(d) =~= b) by {
        assert forall|k: int| 0 <= k < b.len() implies hex_bytes(d)[k] == b[k] by {
            assert((2 * k) % 2 == 0 && (2 * k) / 2 == k);
            assert((2 * k + 1) % 2 == 1 && (2 * k + 1) / 2 == k);
            assert(hex_digit_value(d[2 * k]) is Some);
            assert(hex_digit_value(d[2 * k + 1]) is Some);
        }
    }
}

/// The `Debug` form of a character, as `format!("{:?}", c)` writes it: quoted, with the
/// escapes that `char::escape_debug` makes.
pub uninterp spec fn char_debug(c: char) -> Seq<char>;

/// Writes a character in its `Debug` form with `format!`.
#[verifier::external_body]
fn debug_char(c: char) -> (s: String)
    ensures
        s@ == char_debug(c),
{
    format!("{:?}", c)
}

/// The text of a hex error, as `hex::FromHexError` displays it.
pub open spec fn hex_error_text(e: HexError) -> Seq<char> {
    match e {
        HexError::InvalidHexCharacter { c, index } => "Invalid character "@ + char_debug(c)
            + " at position "@ + decimal(index as nat),
        HexError::OddLength => "Odd number of digits"@,
        HexError::InvalidStringLength => "Invalid string length"@,
    }
}

impl HexError {
    /// The error's text.
    pub fn to_string(&self) -> (s: String)
        ensures
            s@ == hex_error_text(*self),
    {
        match self {
            HexError::InvalidHexCharacter { c, index } => {
                let mut s = String::from_str("Invalid character ");
                let d = debug_char(*c);
                s.append(d.as_str());
                s.append(" at position ");
                let n = u64_to_decimal(*index as u64);
                s.append(n.as_str());
                s
            },
            HexError::OddLength => String::from_str("Odd number of digits"),
            HexError::InvalidStringLength => String::from_str("Invalid string length"),
        }
    }
}

/// How `Utf8Error` shows: the length of the bad sequence and where it starts, or where the
/// bytes end in the middle of a character.
pub open spec fn utf8_error_text(valid_up_to: usize, error_len: Option<usize>) -> Seq<char> {
    match error_len {
        Some(n) => "invalid utf-8 sequence of "@ + decimal(n as nat) + " bytes from index "@ + decimal(
            valid_up_to as nat,
        ),
        None => "incomplete utf-8 byte sequence from index "@ + decimal(valid_up_to as nat),
    }
}

/// The text of a cipher error. The cipher's own error shows as `aead::Error`.
pub open spec fn crypto_error_text(e: CryptoError) -> Seq<char> {
    match e {
        CryptoError::KeyNotSet => "ENCRYPTION_KEY not set in environment"@,
        CryptoError::KeyDecode(h) => "Failed to decode ENCRYPTION_KEY: "@ + hex_error_text(h),
        CryptoError::KeyLength => "ENCRYPTION_KEY must be 32 bytes (64 hex chars)"@,
        CryptoError::Encryption => "Encryption failed: aead::Error"@,
        CryptoError::Decode(h) => "Failed to decode encrypted data: "@ + hex_error_text(h),
        CryptoError::TooShort => "Invalid encrypted data: too short"@,
        CryptoError::Decryption => "Decryption failed: aead::Error"@,
        CryptoError::Utf8 { valid_up_to, error_len } => "Failed to convert decrypted data to UTF-8: "@
            + utf8_error_text(valid_up_to, error_len),
    }
}

impl CryptoError {
    /// The error's text.
    pub fn to_string(&self) -> (s: String)
        ensures
            s@ == crypto_error_text(*self),
    {
        match self {
            CryptoError::KeyNotSet => String::from_str("ENCRYPTION_KEY not set in environment"),
            CryptoError::KeyDecode(h) => String::from_str("Failed to decode ENCRYPTION_KEY: ").concat(
                h.to_string().as_str(),
            ),
            CryptoError::KeyLength => String::from_str("ENCRYPTION_KEY must be 32 bytes (64 hex chars)"),
            CryptoError::Encryption => String::from_str("Encryption failed: aead::Error"),
            CryptoError::Decode(h) => String::from_str("Failed to decode encrypted data: ").concat(
                h.to_string().as_str(),
            ),
            CryptoError::TooShort => String::from_str("Invalid encrypted data: too short"),
            CryptoError::Decryption => String::from_str("Decryption failed: aead::Error"),
            CryptoError::Utf8 { valid_up_to, error_len } => {
                let mut s = String::from_str("Failed to convert decrypted data to UTF-8: ");
                match error_len {
                    Some(n) => {
                        s.append("invalid utf-8 sequence of ");
                        s.append(u64_to_decimal(*n as u64).as_str());
                        s.append(" bytes from index ");
                    },
                    None => {
                        s.append("incomplete utf-8 byte sequence from index ");
                    },
                }
                s.append(u64_to_decimal(*valid_up_to as u64).as_str());
                s
            },
        }
    }
}

/// Each character takes at least one byte in UTF-8.
pub proof fn lemma_encode_utf8_len(s: Seq<char>)
    ensures
        encode_utf8(s).len() >= s.len(),
    decreases s.len(),
{
    if s.len() > 0 {
        lemma_encode_utf8_len(s.drop_first());
    }
}

/// A ChaCha20-Poly1305 cipher under a 256-bit key.
#[derive(Debug)]
pub struct Cipher {
    key: Vec<u8>,
}

impl Cipher {
    /// The key.
    pub closed spec fn key(&self) -> Seq<u8> {
        self.key@
    }

    #[verifier::type_invariant]
    spec fn inv(&self) -> bool {
        self.key@.len() == 32
    }

    /// Builds the cipher from the configured key text (`ENCRYPTION_KEY`, absent when unset):
    /// 64 hex digits.
    pub fn new(key_hex: Option<&str>) -> (r: Result<Cipher, CryptoError>)
        ensures
            match r {
                Ok(c) => new_cipher_spec(
                    match key_hex {
                        Some(h) => Some(h@),
                        None => None,
                    },
                ) == Ok::<Seq<u8>, CryptoError>(c.key()),
                Err(e) => new_cipher_spec(
                    match key_hex {
                        Some(h) => Some(h@),
                        None => None,
                    },
                ) == Err::<Seq<u8>, CryptoError>(e),
            },
    {
        match key_hex {
            None => Err(CryptoError::KeyNotSet),
            Some(h) => match hex_decode(h) {
                Err(e) => Err(CryptoError::KeyDecode(e)),
                Ok(b) => {
                    if b.len() != 32 {
                        Err(CryptoError::KeyLength)
                    } else {
                        Ok(Cipher { key: b })
                    }
                },
            },
        }
    }

    /// Encrypts `plaintext` under a fresh random nonce; the stored text is the lowercase hex
    /// of the nonce followed by the ciphertext. Decrypting it gives `plaintext` back.
    pub fn encrypt(&self, plaintext: &str) -> (r: Result<String, CryptoError>)
        ensures
            r is Ok <==> encode_utf8(plaintext@).len() / 64 < 0xffff_ffff,
            r matches Err(e) ==> e == CryptoError::Encryption,
            r matches Ok(s) ==> exists|nonce: Seq<u8>|
                nonce.len() == 12 && s@ == sealed_text(self.key(), nonce, plaintext@),
            r matches Ok(s) ==> decrypt_spec(self.key(), s@) == Ok::<Seq<char>, CryptoError>(
                plaintext@,
            ),
            r matches Ok(s) ==> s@.len() == 2 * (12 + encode_utf8(plaintext@).len() + 16),
            r matches Ok(s) ==> s@ != plaintext@,
    {
        proof {
            use_type_invariant(self);
        }
        let nonce = random_nonce();
        let bytes = plaintext.as_bytes();
        match chacha_seal(self.key.as_slice(), &nonce, bytes) {
            Err(_) => Err(CryptoError::Encryption),
            Ok(ct) => {
                let mut stored: Vec<u8> = Vec::new();
                stored.extend_from_slice(nonce.as_slice());
                stored.extend_from_slice(ct.as_slice());
                let s = hex_encode(stored.as_slice());
                proof {
                    let n = nonce@;
                    let b = stored@;
                    assert(b =~= n + ct@);
                    lemma_hex_roundtrip(b);
                    lemma_encode_utf8_len(plaintext@);
                    encode_utf8_valid_utf8(plaintext@);
                    encode_utf8_decode_utf8(plaintext@);
                    assert(b.subrange(0, 12) =~= n);
                    assert(b.subrange(12, b.len() as int) =~= ct@);
                }
                Ok(s)
            },
        }
    }

    /// Decrypts stored text made by [`Cipher::encrypt`].
    pub fn decrypt(&self, encrypted_hex: &str) -> (r: Result<String, CryptoError>)
        ensures
            match r {
                Ok(s) => decrypt_spec(self.key(), encrypted_hex@) == Ok::<Seq<char>, CryptoError>(
                    s@,
                ),
                Err(e) => decrypt_spec(self.key(), encrypted_hex@) == Err::<Seq<char>, CryptoError>(
                    e,
                ),
            },
    {
        proof {
            use_type_invariant(self);
        }
        let encrypted = match hex_decode(encrypted_hex) {
            Err(e) => {
                return Err(CryptoError::Decode(e));
            },
            Ok(b) => b,
        };
        if encrypted.len() < 12 {
            return Err(CryptoError::TooShort);
        }
        let (nonce_part, ct_part) = encrypted.as_slice().split_at(12);
        match chacha_open(self.key.as_slice(), nonce_part, ct_part) {
            Err(_) => Err(CryptoError::Decryption),
            Ok(p) => match string_from_utf8(p) {
                Err((valid_up_to, error_len)) => Err(CryptoError::Utf8 { valid_up_to, error_len }),
                Ok(s) => Ok(s),
            },
        }
    }
}

/// Whether `s` is a stored form of `secret` under `key`: the sealed text under some nonce,
/// which decrypts back to the secret and is not the secret itself.
pub open spec fn seals(key: Seq<u8>, s: Seq<char>, secret: Seq<char>) -> bool {
    &&& exists|nonce: Seq<u8>| nonce.len() == 12 && s == sealed_text(key, nonce, secret)
    &&& decrypt_spec(key, s) == Ok::<Seq<char>, CryptoError>(secret)
    &&& s != secret
}

/// The stored form of a secret (an API key, a bot token): encrypted under the service's
/// key. A secret too long to encrypt is an internal error.
pub fn seal_secret(cipher: &Cipher, secret: &str) -> (r: Result<String, AppError>)
    ensures
        r is Ok <==> encode_utf8(secret@).len() / 64 < 0xffff_ffff,
        r matches Ok(s) ==> seals(cipher.key(), s@, secret@),
        r matches Err(e) ==> (e matches AppError::Internal(m) && m@ == "Encryption failed: "@
            + crypto_error_text(CryptoError::Encryption)),
{
    match cipher.encrypt(secret) {
        Ok(s) => Ok(s),
        Err(e) => Err(encryption_failed(e)),
    }
}

/// The internal error for a secret that could not be encrypted.
pub fn encryption_failed(e: CryptoError) -> (r: AppError)
    ensures
        r matches AppError::Internal(m) && m@ == "Encryption failed: "@ + crypto_error_text(e),
{
    AppError::Internal(String::from_str("Encryption failed: ").concat(e.to_string().as_str()))
}

/// The internal error for a stored secret that could not be decrypted.
pub fn decryption_failed(e: CryptoError) -> (r: AppError)
    ensures
        r matches AppError::Internal(m) && m@ == "Decryption failed: "@ + crypto_error_text(e),
{
    AppError::Internal(String::from_str("Decryption failed: ").concat(e.to_string().as_str()))
}

} // verus!
