//! The vault as it lies on disk: base64 texts that hold a salt, a nonce
//! and the profiles encrypted with AES-256-GCM under a key derived from the
//! passphrase, and from the third format on the same once more under the
//! recovery key. Reading and writing the file and the JSON inside it are
//! the caller's part; what is decoded, derived, opened and sealed, in which
//! order, and which error comes of it is decided here.

use crate::text::{concat2, decimal, decimal_digits, text_of};
use crate::vault::{random_bytes, VaultRuntime};
use vstd::prelude::*;

verus! {

/// The format that the vault is written in.
pub const CURRENT_VAULT_VERSION: u8 = 3;

/// How often the key derivation runs its hash.
pub const PBKDF2_ITERATIONS: u32 = 600_000;

/// The length of a key.
pub const KEY_BYTES: usize = 32;

/// The length of a fresh salt.
pub const SALT_BYTES: usize = 32;

/// The length of a nonce.
pub const IV_BYTES: usize = 12;

/// The length of the tag that AES-GCM puts behind what it encrypted.
pub const TAG_BYTES: usize = 16;

/// The longest plaintext that AES-GCM encrypts: 2^36 bytes.
pub const PLAINTEXT_MAX: u64 = 0x10_0000_0000;

/// What the standard base64 engine makes of `bytes`.
pub uninterp spec fn base64_encoded(bytes: Seq<u8>) -> Seq<char>;

/// What the standard base64 engine reads out of `text`: the bytes, or the
/// words of its error.
pub uninterp spec fn base64_decoded(text: Seq<char>) -> Result<Seq<u8>, Seq<char>>;

/// The 32 bytes that PBKDF2 with HMAC-SHA-512 derives from a passphrase
/// and a salt in `rounds` rounds.
pub uninterp spec fn pbkdf2_sha512_key(passphrase: Seq<char>, salt: Seq<u8>, rounds: u32) -> Seq<
    u8,
>;

/// What AES-256-GCM makes of `plaintext` under `key` and the nonce `iv`,
/// without associated data: the encrypted bytes with the tag behind them.
pub uninterp spec fn aes256_gcm_sealed(key: Seq<u8>, iv: Seq<u8>, plaintext: Seq<u8>) -> Option<
    Seq<u8>,
>;

/// What AES-256-GCM reads out of `ciphertext` under `key` and the nonce
/// `iv`, without associated data; nothing where the tag does not fit.
pub uninterp spec fn aes256_gcm_opened(key: Seq<u8>, iv: Seq<u8>, ciphertext: Seq<u8>) -> Option<
    Seq<u8>,
>;

/// How long the base64 text of `n` bytes is.
pub open spec fn base64_len(n: int) -> int {
    4 * ((n + 2) / 3)
}

/// Whether `n` bytes have a base64 text that a string can hold.
pub open spec fn encodable(n: int) -> bool {
    base64_len(n) <= isize::MAX
}

/// Whether `len` bytes have a base64 text that a string can hold.
pub fn is_encodable(len: usize) -> (out: bool)
    ensures
        out == encodable(len as int),
{
    let groups: usize = if len % 3 == 0 {
        len / 3
    } else {
        len / 3 + 1
    };
    assert(groups == (len + 2) / 3);
    groups <= (isize::MAX as usize) / 4
}

/// `base64::Engine::encode` of the engine `STANDARD`: the result is named,
/// nothing more is claimed of it. The call panics where the length of the
/// text cannot be had or allocated, which `requires` leaves out.
#[verifier::external_body]
fn base64_encode(bytes: &[u8]) -> (out: String)
    requires
        encodable(bytes@.len() as int),
    ensures
        out@ == base64_encoded(bytes@),
{
    base64::Engine::encode(&base64::engine::general_purpose::STANDARD, bytes)
}

/// `base64::Engine::decode` of the engine `STANDARD`: the bytes, or the
/// error as the text that its `Display` gives. The result is named,
/// nothing more is claimed of it.
#[verifier::external_body]
fn base64_decode(input: &str) -> (out: Result<Vec<u8>, String>)
    ensures
        base64_decoded(input@) == match out {
            Ok(bytes) => Ok::<Seq<u8>, Seq<char>>(bytes@),
            Err(words) => Err::<Seq<u8>, Seq<char>>(words@),
        },
{
    match base64::Engine::decode(&base64::engine::general_purpose::STANDARD, input) {
        Ok(bytes) => Ok(bytes),
        Err(err) => Err(err.to_string()),
    }
}

/// `pbkdf2::pbkdf2_hmac` with `sha2::Sha512`, filling 32 bytes: the
/// result is named, nothing more is claimed of it.
#[verifier::external_body]
fn pbkdf2_hmac_sha512(passphrase: &str, salt: &[u8], rounds: u32) -> (out: [u8; 32])
    ensures
        out@ == pbkdf2_sha512_key(passphrase@, salt@, rounds),
{
    let mut key = [0u8; 32];
    pbkdf2::pbkdf2_hmac::<sha2::Sha512>(passphrase.as_bytes(), salt, rounds, &mut key);
    key
}

/// `aes_gcm::aead::Aead::encrypt` of `aes_gcm::Aes256Gcm` made from `key`:
/// the result is named. It is there for a plaintext of at most 2^36 bytes
/// and for no longer one, and is then 16 bytes longer than the plaintext,
/// by the tag behind it. A nonce of
/// another length than 12 makes the call panic, which `requires` leaves
/// out.
#[verifier::external_body]
fn aes256_gcm_encrypt(key: &[u8; 32], iv: &[u8], plaintext: &[u8]) -> (out: Option<Vec<u8>>)
    requires
        iv@.len() == IV_BYTES,
    ensures
        aes256_gcm_sealed(key@, iv@, plaintext@) == match out {
            Some(bytes) => Some(bytes@),
            None => None::<Seq<u8>>,
        },
        (out is Some) == (plaintext@.len() <= PLAINTEXT_MAX),
        out matches Some(bytes) ==> bytes@.len() == plaintext@.len() + TAG_BYTES,
{
    let cipher = <aes_gcm::Aes256Gcm as aes_gcm::KeyInit>::new(key.into());
    aes_gcm::aead::Aead::encrypt(&cipher, aes_gcm::Nonce::from_slice(iv), plaintext).ok()
}

/// `aes_gcm::aead::Aead::decrypt` of `aes_gcm::Aes256Gcm` made from `key`:
/// the result is named, nothing more is claimed of it. A nonce of another
/// length than 12 makes the call panic, which `requires` leaves out.
#[verifier::external_body]
fn aes256_gcm_decrypt(key: &[u8; 32], iv: &[u8], ciphertext: &[u8]) -> (out: Option<Vec<u8>>)
    requires
        iv@.len() == IV_BYTES,
    ensures
        aes256_gcm_opened(key@, iv@, ciphertext@) == match out {
            Some(bytes) => Some(bytes@),
            None => None::<Seq<u8>>,
        },
{
    let cipher = <aes_gcm::Aes256Gcm as aes_gcm::KeyInit>::new(key.into());
    aes_gcm::aead::Aead::decrypt(&cipher, aes_gcm::Nonce::from_slice(iv), ciphertext).ok()
}

/// Why a vault file could not be opened or written.
#[derive(Debug, PartialEq, Eq)]
pub enum VaultFileError {
    /// A text of the file is no base64; with the words of the decoder.
    InvalidBase64(String),
    /// The nonce does not have 12 bytes.
    InvalidIvLength,
    /// The passphrase does not open the vault.
    InvalidPassphrase,
    /// The recovery key does not open the vault.
    InvalidRecoveryKey,
    /// The file holds nothing that a recovery key could open.
    NoRecoveryKey,
    /// The file is written in a format that is not known.
    UnsupportedVersion(u64),
    /// The profiles could not be encrypted.
    EncryptionFailed,
    /// The vault is locked, so there is nothing to write.
    Locked,
    /// The vault holds no passphrase key to write with.
    NoPassphraseKey,
    /// The vault holds no salt to write.
    NoSalt,
}

/// An error of the vault file, with texts as sequences.
pub ghost enum Failure {
    InvalidBase64(Seq<char>),
    InvalidIvLength,
    InvalidPassphrase,
    InvalidRecoveryKey,
    NoRecoveryKey,
    UnsupportedVersion(u64),
    EncryptionFailed,
    Locked,
    NoPassphraseKey,
    NoSalt,
}

impl View for VaultFileError {
    type V = Failure;

    open spec fn view(&self) -> Failure {
        match self {
            VaultFileError::InvalidBase64(words) => Failure::InvalidBase64(words@),
            VaultFileError::InvalidIvLength => Failure::InvalidIvLength,
            VaultFileError::InvalidPassphrase => Failure::InvalidPassphrase,
            VaultFileError::InvalidRecoveryKey => Failure::InvalidRecoveryKey,
            VaultFileError::NoRecoveryKey => Failure::NoRecoveryKey,
            VaultFileError::UnsupportedVersion(v) => Failure::UnsupportedVersion(*v),
            VaultFileError::EncryptionFailed => Failure::EncryptionFailed,
            VaultFileError::Locked => Failure::Locked,
            VaultFileError::NoPassphraseKey => Failure::NoPassphraseKey,
            VaultFileError::NoSalt => Failure::NoSalt,
        }
    }
}

impl Failure {
    /// The error as the message shown to the user.
    pub open spec fn text(self) -> Seq<char> {
        match self {
            Failure::InvalidBase64(words) => "Invalid base64 payload: "@ + words,
            Failure::InvalidIvLength => "Invalid vault IV length"@,
            Failure::InvalidPassphrase => "Invalid passphrase"@,
            Failure::InvalidRecoveryKey => "Invalid recovery key"@,
            Failure::NoRecoveryKey => "Vault has no recovery key configured"@,
            Failure::UnsupportedVersion(v) => "Unsupported vault version: "@ + decimal_digits(
                v as nat,
            ),
            Failure::EncryptionFailed => "Vault encryption failed"@,
            Failure::Locked => "Cannot save: vault is locked"@,
            Failure::NoPassphraseKey => "Cannot save: vault has no passphrase key"@,
            Failure::NoSalt => "Cannot save: vault has no salt"@,
        }
    }
}

impl VaultFileError {
    /// The error as the message shown to the user.
    pub fn message(&self) -> (out: String)
        ensures
            out@ == self@.text(),
    {
        match self {
            VaultFileError::InvalidBase64(words) => concat2(
                "Invalid base64 payload: ",
                words.as_str(),
            ),
            VaultFileError::InvalidIvLength => "Invalid vault IV length".to_owned(),
            VaultFileError::InvalidPassphrase => "Invalid passphrase".to_owned(),
            VaultFileError::InvalidRecoveryKey => "Invalid recovery key".to_owned(),
            VaultFileError::NoRecoveryKey => "Vault has no recovery key configured".to_owned(),
            VaultFileError::UnsupportedVersion(v) => {
                let number = decimal(*v);
                concat2("Unsupported vault version: ", number.as_str())
            },
            VaultFileError::EncryptionFailed => "Vault encryption failed".to_owned(),
            VaultFileError::Locked => "Cannot save: vault is locked".to_owned(),
            VaultFileError::NoPassphraseKey => "Cannot save: vault has no passphrase key".to_owned(),
            VaultFileError::NoSalt => "Cannot save: vault has no salt".to_owned(),
        }
    }
}

/// What decoding `text` gives: the bytes, or the error with the decoder's
/// words.
pub open spec fn decoded(text: Seq<char>) -> Result<Seq<u8>, Failure> {
    match base64_decoded(text) {
        Ok(bytes) => Ok(bytes),
        Err(words) => Err(Failure::InvalidBase64(words)),
    }
}

/// Whether `out` is the bytes or the error that `expected` stands for.
pub open spec fn bytes_result_is(
    out: Result<Vec<u8>, VaultFileError>,
    expected: Result<Seq<u8>, Failure>,
) -> bool {
    match expected {
        Ok(bytes) => out matches Ok(b) && b@ == bytes,
        Err(failure) => out matches Err(e) && e@ == failure,
    }
}

/// The bytes as a base64 text.
pub fn encode_base64(bytes: &Vec<u8>) -> (out: String)
    requires
        encodable(bytes@.len() as int),
    ensures
        out@ == base64_encoded(bytes@),
{
    base64_encode(bytes.as_slice())
}

/// The bytes that a base64 text stands for.
pub fn decode_base64(input: &str) -> (out: Result<Vec<u8>, VaultFileError>)
    ensures
        bytes_result_is(out, decoded(input@)),
{
    match base64_decode(input) {
        Ok(bytes) => Ok(bytes),
        Err(words) => Err(VaultFileError::InvalidBase64(words)),
    }
}

/// The key that a passphrase and a salt give.
pub open spec fn derived_key(passphrase: Seq<char>, salt: Seq<u8>) -> Seq<u8> {
    pbkdf2_sha512_key(passphrase, salt, PBKDF2_ITERATIONS)
}

/// The key of a passphrase: PBKDF2 with HMAC-SHA-512 over the passphrase
/// and the salt, in 600 000 rounds.
pub fn derive_key(passphrase: &str, salt: &Vec<u8>) -> (out: [u8; 32])
    ensures
        out@ == derived_key(passphrase@, salt@),
{
    pbkdf2_hmac_sha512(passphrase, salt.as_slice(), PBKDF2_ITERATIONS)
}

/// A fresh random salt of 32 bytes.
pub fn new_salt() -> (out: Vec<u8>)
    ensures
        out@.len() == SALT_BYTES,
{
    random_bytes(SALT_BYTES)
}

/// What opening `ciphertext` gives: a nonce of the wrong length and a key
/// that does not fit are errors.
pub open spec fn opened(key: Seq<u8>, iv: Seq<u8>, ciphertext: Seq<u8>) -> Result<
    Seq<u8>,
    Failure,
> {
    if iv.len() != IV_BYTES {
        Err(Failure::InvalidIvLength)
    } else {
        match aes256_gcm_opened(key, iv, ciphertext) {
            Some(plaintext) => Ok(plaintext),
            None => Err(Failure::InvalidPassphrase),
        }
    }
}

/// Opens what was encrypted under `key` with the nonce `iv`.
pub fn decrypt_payload(key: &[u8; 32], iv: &Vec<u8>, ciphertext: &Vec<u8>) -> (out: Result<
    Vec<u8>,
    VaultFileError,
>)
    ensures
        bytes_result_is(out, opened(key@, iv@, ciphertext@)),
{
    if iv.len() != IV_BYTES {
        return Err(VaultFileError::InvalidIvLength);
    }
    match aes256_gcm_decrypt(key, iv.as_slice(), ciphertext.as_slice()) {
        Some(plaintext) => Ok(plaintext),
        None => Err(VaultFileError::InvalidPassphrase),
    }
}

/// What encrypting `plaintext` under `key` with the nonce `iv` gives.
pub open spec fn sealed(key: Seq<u8>, iv: Seq<u8>, plaintext: Seq<u8>) -> Result<
    Seq<u8>,
    Failure,
> {
    match aes256_gcm_sealed(key, iv, plaintext) {
        Some(ciphertext) => Ok(ciphertext),
        None => Err(Failure::EncryptionFailed),
    }
}

/// Encrypts `plaintext` under `key` with the nonce `iv`. A plaintext of at
/// most 2^36 bytes is encrypted and grows by the 16 bytes of the tag; a
/// longer one is an error.
pub fn encrypt_with_iv(key: &[u8; 32], iv: &Vec<u8>, plaintext: &Vec<u8>) -> (out: Result<
    Vec<u8>,
    VaultFileError,
>)
    requires
        iv@.len() == IV_BYTES,
    ensures
        bytes_result_is(out, sealed(key@, iv@, plaintext@)),
        (out is Ok) == (plaintext@.len() <= PLAINTEXT_MAX),
        out matches Ok(bytes) ==> bytes@.len() == plaintext@.len() + TAG_BYTES,
{
    match aes256_gcm_encrypt(key, iv.as_slice(), plaintext.as_slice()) {
        Some(ciphertext) => Ok(ciphertext),
        None => Err(VaultFileError::EncryptionFailed),
    }
}

/// Encrypts `plaintext` under `key` with a fresh random nonce of 12 bytes,
/// and gives the nonce and what was encrypted.
pub fn encrypt_payload(key: &[u8; 32], plaintext: &Vec<u8>) -> (out: Result<
    (Vec<u8>, Vec<u8>),
    VaultFileError,
>)
    ensures
        match out {
            Ok((iv, ciphertext)) => iv@.len() == IV_BYTES && sealed(key@, iv@, plaintext@) == Ok::<
                Seq<u8>,
                Failure,
            >(ciphertext@) && ciphertext@.len() == plaintext@.len() + TAG_BYTES,
            Err(e) => e@ == Failure::EncryptionFailed,
        },
        (out is Ok) == (plaintext@.len() <= PLAINTEXT_MAX),
{
    let iv = random_bytes(IV_BYTES);
    match encrypt_with_iv(key, &iv, plaintext) {
        Ok(ciphertext) => Ok((iv, ciphertext)),
        Err(e) => Err(e),
    }
}

/// What a recovery key opens: the profiles encrypted under its key.
#[derive(Debug, PartialEq, Eq)]
pub struct VaultRecoveryBlob {
    pub salt: String,
    pub iv: String,
    pub data: String,
}

impl Clone for VaultRecoveryBlob {
    fn clone(&self) -> (out: Self)
        ensures
            out == *self,
    {
        VaultRecoveryBlob {
            salt: self.salt.clone(),
            iv: self.iv.clone(),
            data: self.data.clone(),
        }
    }
}

/// The vault file in each of its formats. The first keeps the tag apart
/// from what was encrypted; the third may hold a recovery blob.
#[derive(Debug, PartialEq, Eq)]
pub enum VaultFile {
    V1 { salt: String, iv: String, auth_tag: String, data: String },
    V2 { salt: String, iv: String, data: String },
    V3 { salt: String, iv: String, data: String, recovery: Option<VaultRecoveryBlob> },
}

/// The format that a version number stands for.
#[derive(Clone, Copy, Debug, PartialEq, Eq, Structural)]
pub enum VaultFormat {
    V1,
    V2,
    V3,
}

/// The format of a file that names `version`; other versions than 1, 2
/// and 3 are not read.
pub fn vault_format(version: u64) -> (out: Result<VaultFormat, VaultFileError>)
    ensures
        out == if version == 1 {
            Ok::<VaultFormat, VaultFileError>(VaultFormat::V1)
        } else if version == 2 {
            Ok::<VaultFormat, VaultFileError>(VaultFormat::V2)
        } else if version == 3 {
            Ok::<VaultFormat, VaultFileError>(VaultFormat::V3)
        } else {
            Err::<VaultFormat, VaultFileError>(VaultFileError::UnsupportedVersion(version))
        },
{
    if version == 1 {
        Ok(VaultFormat::V1)
    } else if version == 2 {
        Ok(VaultFormat::V2)
    } else if version == 3 {
        Ok(VaultFormat::V3)
    } else {
        Err(VaultFileError::UnsupportedVersion(version))
    }
}

impl VaultFile {
    /// The salt of the passphrase key, as the file holds it.
    pub open spec fn salt_text(self) -> Seq<char> {
        match self {
            VaultFile::V1 { salt, .. } => salt@,
            VaultFile::V2 { salt, .. } => salt@,
            VaultFile::V3 { salt, .. } => salt@,
        }
    }

    /// The nonce, as the file holds it.
    pub open spec fn iv_text(self) -> Seq<char> {
        match self {
            VaultFile::V1 { iv, .. } => iv@,
            VaultFile::V2 { iv, .. } => iv@,
            VaultFile::V3 { iv, .. } => iv@,
        }
    }

    /// What was encrypted, as the file holds it.
    pub open spec fn data_text(self) -> Seq<char> {
        match self {
            VaultFile::V1 { data, .. } => data@,
            VaultFile::V2 { data, .. } => data@,
            VaultFile::V3 { data, .. } => data@,
        }
    }

    /// The tag that the first format keeps apart.
    pub open spec fn tag_text(self) -> Option<Seq<char>> {
        match self {
            VaultFile::V1 { auth_tag, .. } => Some(auth_tag@),
            _ => None,
        }
    }

    /// The recovery blob of the file, if it holds one.
    pub open spec fn recovery_blob(self) -> Option<VaultRecoveryBlob> {
        match self {
            VaultFile::V3 { recovery, .. } => recovery,
            _ => None,
        }
    }

    /// Whether the file is written in an earlier format than the current
    /// one.
    pub open spec fn is_outdated(self) -> bool {
        !(self is V3)
    }
}

/// Whether the file holds what a recovery key opens.
pub fn has_recovery_key(file: &VaultFile) -> (out: bool)
    ensures
        out == (file.recovery_blob() is Some),
{
    match file {
        VaultFile::V3 { recovery, .. } => recovery.is_some(),
        _ => false,
    }
}

/// What was opened, with the key that opened it and its salt.
pub ghost struct Unsealed {
    pub plaintext: Seq<u8>,
    pub key: Seq<u8>,
    pub salt: Seq<u8>,
}

/// The tag as bytes; no bytes where there is no tag.
pub open spec fn decoded_tag(tag: Option<Seq<char>>) -> Result<Seq<u8>, Failure> {
    match tag {
        Some(text) => decoded(text),
        None => Ok(Seq::empty()),
    }
}

/// What the secret opens: salt, nonce, data and tag are decoded in this
/// order, the key is derived from the secret and the salt, and the data
/// with the tag behind it is opened under that key. The first step that
/// fails gives the error.
pub open spec fn unsealed(
    salt: Seq<char>,
    iv: Seq<char>,
    data: Seq<char>,
    tag: Option<Seq<char>>,
    secret: Seq<char>,
) -> Result<Unsealed, Failure> {
    match decoded(salt) {
        Err(f) => Err(f),
        Ok(salt_bytes) => match decoded(iv) {
            Err(f) => Err(f),
            Ok(iv_bytes) => match decoded(data) {
                Err(f) => Err(f),
                Ok(data_bytes) => match decoded_tag(tag) {
                    Err(f) => Err(f),
                    Ok(tag_bytes) => {
                        let key = derived_key(secret, salt_bytes);
                        match opened(key, iv_bytes, data_bytes + tag_bytes) {
                            Err(f) => Err(f),
                            Ok(plaintext) => Ok(Unsealed { plaintext, key, salt: salt_bytes }),
                        }
                    },
                },
            },
        },
    }
}

/// What was opened, with the key that opened it and its salt.
#[derive(Debug, PartialEq, Eq)]
pub struct UnsealedVault {
    pub plaintext: Vec<u8>,
    pub key: [u8; 32],
    pub salt: Vec<u8>,
}

impl View for UnsealedVault {
    type V = Unsealed;

    open spec fn view(&self) -> Unsealed {
        Unsealed { plaintext: self.plaintext@, key: self.key@, salt: self.salt@ }
    }
}

fn unseal(salt: &str, iv: &str, data: &str, tag: Option<&str>, secret: &str) -> (out: Result<
    UnsealedVault,
    VaultFileError,
>)
    ensures
        match unsealed(salt@, iv@, data@, text_of(tag), secret@) {
            Ok(u) => out matches Ok(o) && o@ == u,
            Err(f) => out matches Err(e) && e@ == f,
        },
{
    let salt_bytes = match decode_base64(salt) {
        Ok(bytes) => bytes,
        Err(e) => {
            return Err(e);
        },
    };
    let iv_bytes = match decode_base64(iv) {
        Ok(bytes) => bytes,
        Err(e) => {
            return Err(e);
        },
    };
    let mut ciphertext = match decode_base64(data) {
        Ok(bytes) => bytes,
        Err(e) => {
            return Err(e);
        },
    };
    let ghost data_bytes = ciphertext@;
    match tag {
        Some(text) => {
            let mut tag_bytes = match decode_base64(text) {
                Ok(bytes) => bytes,
                Err(e) => {
                    return Err(e);
                },
            };
            ciphertext.append(&mut tag_bytes);
        },
        None => {
            assert(data_bytes + Seq::<u8>::empty() =~= data_bytes);
        },
    }
    let key = derive_key(secret, &salt_bytes);
    match decrypt_payload(&key, &iv_bytes, &ciphertext) {
        Ok(plaintext) => Ok(UnsealedVault { plaintext, key, salt: salt_bytes }),
        Err(e) => Err(e),
    }
}

/// What the passphrase opened, and what the file says of itself.
pub ghost struct PassphraseUnlockView {
    pub plaintext: Seq<u8>,
    pub key: Seq<u8>,
    pub salt: Seq<u8>,
    pub has_recovery_key: bool,
    pub needs_rewrite: bool,
}

/// What the passphrase opened: the profiles as they were encrypted, the
/// key and its salt, whether the file holds a recovery blob, and whether
/// it is to be written again in the current format.
#[derive(Debug, PartialEq, Eq)]
pub struct PassphraseUnlock {
    pub plaintext: Vec<u8>,
    pub key: [u8; 32],
    pub salt: Vec<u8>,
    pub has_recovery_key: bool,
    pub needs_rewrite: bool,
}

impl View for PassphraseUnlock {
    type V = PassphraseUnlockView;

    open spec fn view(&self) -> PassphraseUnlockView {
        PassphraseUnlockView {
            plaintext: self.plaintext@,
            key: self.key@,
            salt: self.salt@,
            has_recovery_key: self.has_recovery_key,
            needs_rewrite: self.needs_rewrite,
        }
    }
}

/// What a passphrase makes of a file.
pub open spec fn unlocked_with_passphrase(file: VaultFile, passphrase: Seq<char>) -> Result<
    PassphraseUnlockView,
    Failure,
> {
    match unsealed(file.salt_text(), file.iv_text(), file.data_text(), file.tag_text(), passphrase) {
        Err(f) => Err(f),
        Ok(u) => Ok(
            PassphraseUnlockView {
                plaintext: u.plaintext,
                key: u.key,
                salt: u.salt,
                has_recovery_key: file.recovery_blob() is Some,
                needs_rewrite: file.is_outdated(),
            },
        ),
    }
}

/// Opens the vault file with the passphrase. Every format is read; a file
/// in an earlier one is to be written again.
pub fn unlock_with_passphrase(file: &VaultFile, passphrase: &str) -> (out: Result<
    PassphraseUnlock,
    VaultFileError,
>)
    ensures
        match unlocked_with_passphrase(*file, passphrase@) {
            Ok(u) => out matches Ok(o) && o@ == u,
            Err(f) => out matches Err(e) && e@ == f,
        },
{
    let opened = match file {
        VaultFile::V1 { salt, iv, auth_tag, data } => unseal(
            salt.as_str(),
            iv.as_str(),
            data.as_str(),
            Some(auth_tag.as_str()),
            passphrase,
        ),
        VaultFile::V2 { salt, iv, data } => unseal(
            salt.as_str(),
            iv.as_str(),
            data.as_str(),
            None,
            passphrase,
        ),
        VaultFile::V3 { salt, iv, data, .. } => unseal(
            salt.as_str(),
            iv.as_str(),
            data.as_str(),
            None,
            passphrase,
        ),
    };
    match opened {
        Ok(u) => Ok(
            PassphraseUnlock {
                plaintext: u.plaintext,
                key: u.key,
                salt: u.salt,
                has_recovery_key: has_recovery_key(file),
                needs_rewrite: !matches!(file, VaultFile::V3 { .. }),
            },
        ),
        Err(e) => Err(e),
    }
}

/// The salt of the recovery key as bytes, where the file holds a recovery
/// blob.
pub fn recovery_salt_of(file: &VaultFile) -> (out: Result<Option<Vec<u8>>, VaultFileError>)
    ensures
        match file.recovery_blob() {
            None => out matches Ok(None),
            Some(blob) => match decoded(blob.salt@) {
                Ok(bytes) => out matches Ok(Some(b)) && b@ == bytes,
                Err(f) => out matches Err(e) && e@ == f,
            },
        },
{
    match file {
        VaultFile::V3 { recovery: Some(blob), .. } => match decode_base64(blob.salt.as_str()) {
            Ok(bytes) => Ok(Some(bytes)),
            Err(e) => Err(e),
        },
        _ => Ok(None),
    }
}

/// The salt of the passphrase key as bytes.
pub fn passphrase_salt_of(file: &VaultFile) -> (out: Result<Vec<u8>, VaultFileError>)
    ensures
        bytes_result_is(out, decoded(file.salt_text())),
{
    match file {
        VaultFile::V1 { salt, .. } => decode_base64(salt.as_str()),
        VaultFile::V2 { salt, .. } => decode_base64(salt.as_str()),
        VaultFile::V3 { salt, .. } => decode_base64(salt.as_str()),
    }
}

/// What the recovery key opened.
pub ghost struct RecoveryUnlockView {
    pub plaintext: Seq<u8>,
    pub recovery_key: Seq<u8>,
    pub recovery_salt: Seq<u8>,
}

/// What the recovery key opened: the profiles as they were encrypted, and
/// the recovery key with its salt.
#[derive(Debug, PartialEq, Eq)]
pub struct RecoveryUnlock {
    pub plaintext: Vec<u8>,
    pub recovery_key: [u8; 32],
    pub recovery_salt: Vec<u8>,
}

impl View for RecoveryUnlock {
    type V = RecoveryUnlockView;

    open spec fn view(&self) -> RecoveryUnlockView {
        RecoveryUnlockView {
            plaintext: self.plaintext@,
            recovery_key: self.recovery_key@,
            recovery_salt: self.recovery_salt@,
        }
    }
}

/// What a recovery key makes of a file: a file without a recovery blob
/// has none to offer, and a blob that the key does not open, for its nonce
/// or for its tag, says that the key is wrong.
pub open spec fn unlocked_with_recovery_key(file: VaultFile, recovery_key: Seq<char>) -> Result<
    RecoveryUnlockView,
    Failure,
> {
    match file.recovery_blob() {
        None => Err(Failure::NoRecoveryKey),
        Some(blob) => match unsealed(blob.salt@, blob.iv@, blob.data@, None, recovery_key) {
            Ok(u) => Ok(
                RecoveryUnlockView {
                    plaintext: u.plaintext,
                    recovery_key: u.key,
                    recovery_salt: u.salt,
                },
            ),
            Err(Failure::InvalidIvLength) => Err(Failure::InvalidRecoveryKey),
            Err(Failure::InvalidPassphrase) => Err(Failure::InvalidRecoveryKey),
            Err(f) => Err(f),
        },
    }
}

/// Opens the vault file with the recovery key.
pub fn unlock_with_recovery_key(file: &VaultFile, recovery_key_plain: &str) -> (out: Result<
    RecoveryUnlock,
    VaultFileError,
>)
    ensures
        match unlocked_with_recovery_key(*file, recovery_key_plain@) {
            Ok(u) => out matches Ok(o) && o@ == u,
            Err(f) => out matches Err(e) && e@ == f,
        },
{
    match file {
        VaultFile::V3 { recovery: Some(blob), .. } => {
            match unseal(
                blob.salt.as_str(),
                blob.iv.as_str(),
                blob.data.as_str(),
                None,
                recovery_key_plain,
            ) {
                Ok(u) => Ok(
                    RecoveryUnlock {
                        plaintext: u.plaintext,
                        recovery_key: u.key,
                        recovery_salt: u.salt,
                    },
                ),
                Err(VaultFileError::InvalidIvLength) => Err(VaultFileError::InvalidRecoveryKey),
                Err(VaultFileError::InvalidPassphrase) => Err(VaultFileError::InvalidRecoveryKey),
                Err(e) => Err(e),
            }
        },
        _ => Err(VaultFileError::NoRecoveryKey),
    }
}

/// Why the vault cannot be written, if it cannot: in this order, it holds
/// no data, no passphrase key, or no salt.
pub open spec fn save_failure(vault: VaultRuntime) -> Option<Failure> {
    if vault.data is None {
        Some(Failure::Locked)
    } else if vault.key is None {
        Some(Failure::NoPassphraseKey)
    } else if vault.salt is None {
        Some(Failure::NoSalt)
    } else {
        None
    }
}

/// Whether the vault holds what writing it takes.
pub fn ensure_saveable(vault: &VaultRuntime) -> (out: Result<(), VaultFileError>)
    ensures
        match save_failure(*vault) {
            Some(f) => out matches Err(e) && e@ == f,
            None => out is Ok,
        },
{
    if vault.data.is_none() {
        Err(VaultFileError::Locked)
    } else if vault.key.is_none() {
        Err(VaultFileError::NoPassphraseKey)
    } else if vault.salt.is_none() {
        Err(VaultFileError::NoSalt)
    } else {
        Ok(())
    }
}

/// Whether writing the vault keeps the recovery blob of the file that is
/// there: the vault knows of a recovery key by its salt and does not hold
/// the key itself.
pub fn keeps_recovery_blob(vault: &VaultRuntime) -> (out: bool)
    ensures
        out == (vault.recovery_salt is Some && vault.recovery_key is None),
{
    vault.recovery_salt.is_some() && vault.recovery_key.is_none()
}

/// Whether the three texts hold `plaintext` encrypted under `key` with the
/// nonce `iv`, beside the salt of the key.
pub open spec fn is_sealing_of(
    salt_text: Seq<char>,
    iv_text: Seq<char>,
    data_text: Seq<char>,
    key: Seq<u8>,
    salt: Seq<u8>,
    iv: Seq<u8>,
    plaintext: Seq<u8>,
) -> bool {
    &&& iv.len() == IV_BYTES
    &&& salt_text == base64_encoded(salt)
    &&& iv_text == base64_encoded(iv)
    &&& aes256_gcm_sealed(key, iv, plaintext) matches Some(ciphertext) && data_text
        == base64_encoded(ciphertext)
}

/// The recovery blob of the file that is there, if there is one that holds
/// one.
pub open spec fn kept_blob(existing: Option<&VaultFile>) -> Option<VaultRecoveryBlob> {
    match existing {
        Some(file) => file.recovery_blob(),
        None => None,
    }
}

/// Whether `file` is the vault written in the current format: `plaintext`
/// encrypted under the passphrase key with the nonce `iv`, and as its
/// recovery blob the same under the recovery key with the nonce
/// `recovery_iv` where the vault holds that key and its salt, the blob
/// `kept` where it holds the salt alone, and none otherwise.
pub open spec fn is_sealed_vault(
    file: VaultFile,
    vault: VaultRuntime,
    plaintext: Seq<u8>,
    kept: Option<VaultRecoveryBlob>,
    iv: Seq<u8>,
    recovery_iv: Seq<u8>,
) -> bool {
    &&& file matches VaultFile::V3 { salt, iv: iv_text, data, recovery }
    &&& vault.key matches Some(key)
    &&& vault.salt matches Some(key_salt)
    &&& is_sealing_of(salt@, iv_text@, data@, key@, key_salt@, iv, plaintext)
    &&& match vault.recovery_salt {
        Some(recovery_salt) => match vault.recovery_key {
            Some(recovery_key) => recovery matches Some(blob) && is_sealing_of(
                blob.salt@,
                blob.iv@,
                blob.data@,
                recovery_key@,
                recovery_salt@,
                recovery_iv,
                plaintext,
            ),
            None => recovery == kept,
        },
        None => recovery is None,
    }
}

proof fn lemma_iv_encodable()
    ensures
        encodable(IV_BYTES as int),
{
}

fn seal_blob(key: &[u8; 32], salt: &Vec<u8>, plaintext: &Vec<u8>) -> (out: Result<
    VaultRecoveryBlob,
    VaultFileError,
>)
    requires
        encodable(salt@.len() as int),
        encodable(plaintext@.len() + TAG_BYTES),
    ensures
        (out is Ok) == (plaintext@.len() <= PLAINTEXT_MAX),
        match out {
            Ok(blob) => exists|iv: Seq<u8>| #[trigger]
                is_sealing_of(blob.salt@, blob.iv@, blob.data@, key@, salt@, iv, plaintext@),
            Err(e) => e@ == Failure::EncryptionFailed,
        },
{
    let (iv, ciphertext) = match encrypt_payload(key, plaintext) {
        Ok(pair) => pair,
        Err(e) => {
            return Err(e);
        },
    };
    proof {
        lemma_iv_encodable();
    }
    let blob = VaultRecoveryBlob {
        salt: encode_base64(salt),
        iv: encode_base64(&iv),
        data: encode_base64(&ciphertext),
    };
    let out = Ok(blob);
    assert(is_sealing_of(
        out->Ok_0.salt@,
        out->Ok_0.iv@,
        out->Ok_0.data@,
        key@,
        salt@,
        iv@,
        plaintext@,
    ));
    out
}

/// The vault as it is written to disk: the encrypted form of `plaintext`,
/// which holds the profiles, in the current format. The nonces are fresh
/// and random. Where the vault holds the salt of a recovery key without the
/// key, the recovery blob of `existing`, the file that is there, is kept.
/// A vault that lacks its data, its key or its salt is not written, and
/// neither is a plaintext of more than 2^36 bytes.
pub fn seal_vault(vault: &VaultRuntime, plaintext: &Vec<u8>, existing: Option<&VaultFile>) -> (out:
    Result<VaultFile, VaultFileError>)
    requires
        encodable(plaintext@.len() + TAG_BYTES),
        vault.salt matches Some(salt) ==> encodable(salt@.len() as int),
        vault.recovery_salt matches Some(salt) ==> encodable(salt@.len() as int),
    ensures
        match save_failure(*vault) {
            Some(f) => out matches Err(e) && e@ == f,
            None => if plaintext@.len() > PLAINTEXT_MAX {
                out matches Err(e) && e@ == Failure::EncryptionFailed
            } else {
                out matches Ok(file) && exists|iv: Seq<u8>, recovery_iv: Seq<u8>| #[trigger]
                    is_sealed_vault(file, *vault, plaintext@, kept_blob(existing), iv, recovery_iv)
            },
        },
{
    if vault.data.is_none() {
        return Err(VaultFileError::Locked);
    }
    let key = match &vault.key {
        Some(key) => key,
        None => {
            return Err(VaultFileError::NoPassphraseKey);
        },
    };
    let salt = match &vault.salt {
        Some(salt) => salt,
        None => {
            return Err(VaultFileError::NoSalt);
        },
    };
    let main = match seal_blob(key, salt, plaintext) {
        Ok(blob) => blob,
        Err(e) => {
            return Err(e);
        },
    };
    let ghost iv = choose|iv: Seq<u8>| #[trigger]
        is_sealing_of(main.salt@, main.iv@, main.data@, key@, salt@, iv, plaintext@);
    let ghost mut recovery_iv = iv;
    let recovery = match &vault.recovery_salt {
        Some(recovery_salt) => match &vault.recovery_key {
            Some(recovery_key) => match seal_blob(recovery_key, recovery_salt, plaintext) {
                Ok(blob) => {
                    proof {
                        recovery_iv = choose|v: Seq<u8>| #[trigger]
                            is_sealing_of(
                                blob.salt@,
                                blob.iv@,
                                blob.data@,
                                recovery_key@,
                                recovery_salt@,
                                v,
                                plaintext@,
                            );
                    }
                    Some(blob)
                },
                Err(e) => {
                    return Err(e);
                },
            },
            None => match existing {
                Some(VaultFile::V3 { recovery: Some(blob), .. }) => Some(blob.clone()),
                _ => None,
            },
        },
        None => None,
    };
    let file = VaultFile::V3 { salt: main.salt, iv: main.iv, data: main.data, recovery };
    assert(is_sealed_vault(file, *vault, plaintext@, kept_blob(existing), iv, recovery_iv));
    Ok(file)
}

} // verus!
