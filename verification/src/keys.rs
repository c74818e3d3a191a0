//! Ed25519 node keys and Ethereum address checks.

use vstd::prelude::*;

verus! {

/// Whether `c` is one of `0-9`, `a-f`, `A-F`.
pub open spec fn is_hex_digit(c: char) -> bool {
    ('0' <= c && c <= '9') || ('a' <= c && c <= 'f') || ('A' <= c && c <= 'F')
}

/// The ASCII hexadecimal digits.
pub open spec fn ascii_hex_digits() -> Seq<char> {
    seq!['0', '1', '2', '3', '4', '5', '6', '7', '8', '9', 'a', 'b', 'c', 'd', 'e', 'f', 'A', 'B', 'C', 'D', 'E', 'F']
}

/// The digits an address accepts are exactly the 22 ASCII hexadecimal digits.
pub proof fn lemma_hex_digit_exact(c: char)
    ensures
        is_hex_digit(c) <==> ascii_hex_digits().contains(c),
{
    let s = ascii_hex_digits();
    if is_hex_digit(c) {
        if c == '0' {
            assert(s[0] == c);
        } else if c == '1' {
            assert(s[1] == c);
        } else if c == '2' {
            assert(s[2] == c);
        } else if c == '3' {
            assert(s[3] == c);
        } else if c == '4' {
            assert(s[4] == c);
        } else if c == '5' {
            assert(s[5] == c);
        } else if c == '6' {
            assert(s[6] == c);
        } else if c == '7' {
            assert(s[7] == c);
        } else if c == '8' {
            assert(s[8] == c);
        } else if c == '9' {
            assert(s[9] == c);
        } else if c == 'a' {
            assert(s[10] == c);
        } else if c == 'b' {
            assert(s[11] == c);
        } else if c == 'c' {
            assert(s[12] == c);
        } else if c == 'd' {
            assert(s[13] == c);
        } else if c == 'e' {
            assert(s[14] == c);
        } else if c == 'f' {
            assert(s[15] == c);
        } else if c == 'A' {
            assert(s[16] == c);
        } else if c == 'B' {
            assert(s[17] == c);
        } else if c == 'C' {
            assert(s[18] == c);
        } else if c == 'D' {
            assert(s[19] == c);
        } else if c == 'E' {
            assert(s[20] == c);
        } else if c == 'F' {
            assert(s[21] == c);
        }
    }
    if s.contains(c) {
        let k = choose|k: int| 0 <= k < s.len() && s[k] == c;
        assert(0 <= k < 22);
        if k == 0 {
            assert(s[0] == '0');
        } else if k == 1 {
            assert(s[1] == '1');
        } else if k == 2 {
            assert(s[2] == '2');
        } else if k == 3 {
            assert(s[3] == '3');
        } else if k == 4 {
            assert(s[4] == '4');
        } else if k == 5 {
            assert(s[5] == '5');
        } else if k == 6 {
            assert(s[6] == '6');
        } else if k == 7 {
            assert(s[7] == '7');
        } else if k == 8 {
            assert(s[8] == '8');
        } else if k == 9 {
            assert(s[9] == '9');
        } else if k == 10 {
            assert(s[10] == 'a');
        } else if k == 11 {
            assert(s[11] == 'b');
        } else if k == 12 {
            assert(s[12] == 'c');
        } else if k == 13 {
            assert(s[13] == 'd');
        } else if k == 14 {
            assert(s[14] == 'e');
        } else if k == 15 {
            assert(s[15] == 'f');
        } else if k == 16 {
            assert(s[16] == 'A');
        } else if k == 17 {
            assert(s[17] == 'B');
        } else if k == 18 {
            assert(s[18] == 'C');
        } else if k == 19 {
            assert(s[19] == 'D');
        } else if k == 20 {
            assert(s[20] == 'E');
        } else if k == 21 {
            assert(s[21] == 'F');
        }
    }
}

/// An Ethereum address: `0x` followed by exactly forty hexadecimal digits.
pub open spec fn eth_address_shape(s: Seq<char>) -> bool {
    &&& s.len() == 42
    &&& s[0] == '0'
    &&& s[1] == 'x'
    &&& forall|i: int| 2 <= i < s.len() ==> is_hex_digit(#[trigger] s[i])
}

fn hex_digit(c: char) -> (b: bool)
    ensures
        b == is_hex_digit(c),
{
    ('0' <= c && c <= '9') || ('a' <= c && c <= 'f') || ('A' <= c && c <= 'F')
}

/// Validate Ethereum address format.
pub fn is_valid_eth_address(address: &str) -> (valid: bool)
    ensures
        valid == eth_address_shape(address@),
{
    let n = address.unicode_len();
    if n != 42 {
        return false;
    }
    if address.get_char(0) != '0' || address.get_char(1) != 'x' {
        return false;
    }
    let mut i: usize = 2;
    while i < n
        invariant
            n == address@.len(),
            n == 42,
            2 <= i <= n,
            forall|j: int| 2 <= j < i ==> is_hex_digit(#[trigger] address@[j]),
        decreases n - i,
    {
        if !hex_digit(address.get_char(i)) {
            return false;
        }
        i = i + 1;
    }
    true
}

/// The public key that Ed25519 derives from a 32-byte secret key, as computed
/// by `ed25519_dalek`.
pub uninterp spec fn ed25519_public_key(secret: Seq<u8>) -> Seq<u8>;

/// Calls `ed25519_dalek::SigningKey::verifying_key` on the signing key made
/// from `secret` by `SigningKey::from_bytes`, and returns its bytes. Trusted:
/// the result is the public key of exactly this secret.
#[verifier::external_body]
fn derive_public_key(secret: &[u8; 32]) -> (public: [u8; 32])
    ensures
        public@ == ed25519_public_key(secret@),
{
    ed25519_dalek::SigningKey::from_bytes(secret).verifying_key().to_bytes()
}

/// Calls `ed25519_dalek::SigningKey::generate` with `rand::thread_rng()` and
/// returns the new key's secret bytes. Nothing is stated of them: they are
/// random.
#[verifier::external_body]
fn random_secret_key() -> [u8; 32] {
    ed25519_dalek::SigningKey::generate(&mut rand::thread_rng()).to_bytes()
}

/// The length of an Ed25519 secret key, and of its key file.
pub const SECRET_KEY_LENGTH: usize = 32;

/// An Ed25519 signing key, held as its 32 secret bytes. It has no `Debug`, so
/// that the secret is never printed.
#[derive(Clone, Copy, PartialEq, Eq)]
pub struct SigningKey {
    secret: [u8; 32],
}

impl View for SigningKey {
    type V = Seq<u8>;

    closed spec fn view(&self) -> Seq<u8> {
        self.secret@
    }
}

/// An Ed25519 public key, held as its 32 bytes.
#[derive(Debug, Clone, Copy, PartialEq, Eq)]
pub struct VerifyingKey {
    public: [u8; 32],
}

impl View for VerifyingKey {
    type V = Seq<u8>;

    closed spec fn view(&self) -> Seq<u8> {
        self.public@
    }
}

impl VerifyingKey {
    /// The key's 32 bytes.
    pub fn to_bytes(&self) -> (b: [u8; 32])
        ensures
            b@ == self@,
    {
        self.public
    }
}

impl SigningKey {
    /// The signing key with these secret bytes.
    pub fn from_bytes(secret: [u8; 32]) -> (key: SigningKey)
        ensures
            key@ == secret@,
    {
        SigningKey { secret }
    }

    /// The key's secret bytes.
    pub fn to_bytes(&self) -> (b: [u8; 32])
        ensures
            b@ == self@,
    {
        self.secret
    }

    /// A new random signing key.
    pub fn generate() -> (key: SigningKey)
        ensures
            key@.len() == SECRET_KEY_LENGTH,
    {
        SigningKey { secret: random_secret_key() }
    }
}

/// Get public key from signing key.
pub fn get_verifying_key(signing_key: &SigningKey) -> (vk: VerifyingKey)
    ensures
        vk@ == ed25519_public_key(signing_key@),
{
    VerifyingKey { public: derive_public_key(&signing_key.secret) }
}

/// Why key file contents were refused.
#[derive(Debug, Clone, Copy, PartialEq, Eq)]
pub enum KeyError {
    /// The file does not hold exactly 32 bytes.
    InvalidLength,
}

impl KeyError {
    /// The human-readable description of the error.
    pub fn message(&self) -> (text: String)
        ensures
            text@ == "Invalid key file length"@,
    {
        String::from_str("Invalid key file length")
    }
}

/// The signing key stored as `bytes`: exactly its 32 secret bytes.
pub fn decode_signing_key(bytes: &[u8]) -> (res: Result<SigningKey, KeyError>)
    ensures
        res is Ok <==> bytes@.len() == SECRET_KEY_LENGTH,
        res matches Ok(key) ==> key@ == bytes@,
        res matches Err(e) ==> e == KeyError::InvalidLength,
{
    if bytes.len() != SECRET_KEY_LENGTH {
        return Err(KeyError::InvalidLength);
    }
    let mut secret = [0u8; 32];
    let mut i: usize = 0;
    while i < SECRET_KEY_LENGTH
        invariant
            bytes@.len() == SECRET_KEY_LENGTH,
            i <= SECRET_KEY_LENGTH,
            secret@.len() == SECRET_KEY_LENGTH,
            forall|j: int| 0 <= j < i ==> secret@[j] == bytes@[j],
        decreases SECRET_KEY_LENGTH - i,
    {
        secret[i] = bytes[i];
        i = i + 1;
    }
    assert(secret@ =~= bytes@);
    Ok(SigningKey { secret })
}

/// The bytes a key file holds for `key`: its secret bytes.
pub fn encode_signing_key(key: &SigningKey) -> (bytes: Vec<u8>)
    ensures
        bytes@ == key@,
{
    let mut bytes: Vec<u8> = Vec::new();
    let mut i: usize = 0;
    while i < SECRET_KEY_LENGTH
        invariant
            key.secret@.len() == SECRET_KEY_LENGTH,
            i <= SECRET_KEY_LENGTH,
            bytes@ == key.secret@.subrange(0, i as int),
        decreases SECRET_KEY_LENGTH - i,
    {
        bytes.push(key.secret[i]);
        i = i + 1;
    }
    assert(bytes@ =~= key@);
    bytes
}

/// What a key file holds reads back as the same key: the encoded bytes have
/// the length that decoding accepts, and a key with the same bytes is the same
/// key.
pub proof fn lemma_key_file_round_trip(key: SigningKey, decoded: SigningKey)
    requires
        decoded@ == key@,
    ensures
        key@.len() == SECRET_KEY_LENGTH,
        decoded == key,
{
    assert(decoded.secret =~= key.secret);
}

/// What was found where the signing key is kept.
pub enum StoredKey {
    /// No key file.
    Absent,
    /// A key file that could not be read.
    Unreadable,
    /// A key file with these contents.
    Contents(Vec<u8>),
}

/// The signing key to use, and where it came from.
pub enum KeyChoice {
    /// The stored key.
    Loaded(SigningKey),
    /// A new key, to be saved; `discard_stored` tells whether a stored file
    /// that could not be used must be removed first.
    Generated { key: SigningKey, discard_stored: bool },
}

/// Resolves the signing key from what was stored and a freshly drawn key:
/// the stored one when its file holds a valid key, otherwise `fresh`,
/// replacing a stored file that could not be used.
pub fn resolve_signing_key(stored: StoredKey, fresh: SigningKey) -> (choice: KeyChoice)
    ensures
        stored matches StoredKey::Contents(b) ==> (b@.len() == SECRET_KEY_LENGTH ==> (
        choice matches KeyChoice::Loaded(k) && k@ == b@)),
        stored is Absent ==> choice == (KeyChoice::Generated { key: fresh, discard_stored: false }),
        stored is Unreadable ==> choice == (KeyChoice::Generated { key: fresh, discard_stored: true }),
        stored matches StoredKey::Contents(b) ==> (b@.len() != SECRET_KEY_LENGTH ==> choice == (
        KeyChoice::Generated { key: fresh, discard_stored: true })),
{
    match stored {
        StoredKey::Absent => KeyChoice::Generated { key: fresh, discard_stored: false },
        StoredKey::Unreadable => KeyChoice::Generated { key: fresh, discard_stored: true },
        StoredKey::Contents(bytes) => match decode_signing_key(bytes.as_slice()) {
            Ok(key) => KeyChoice::Loaded(key),
            Err(_) => KeyChoice::Generated { key: fresh, discard_stored: true },
        },
    }
}

/// Chooses the signing key: the stored one when its file holds a valid key,
/// otherwise a new random key, replacing a stored file that could not be used.
pub fn choose_signing_key(stored: StoredKey) -> (choice: KeyChoice)
    ensures
        stored matches StoredKey::Contents(b) ==> (b@.len() == SECRET_KEY_LENGTH ==> (
        choice matches KeyChoice::Loaded(k) && k@ == b@)),
        stored is Absent ==> (choice matches KeyChoice::Generated { discard_stored, .. }
            && !discard_stored),
        stored is Unreadable ==> (choice matches KeyChoice::Generated { discard_stored, .. }
            && discard_stored),
        stored matches StoredKey::Contents(b) ==> (b@.len() != SECRET_KEY_LENGTH ==> (
        choice matches KeyChoice::Generated { discard_stored, .. } && discard_stored)),
{
    resolve_signing_key(stored, SigningKey::generate())
}

} // verus!
