use object0::vault::VaultRuntime;
use object0::vault::VaultData;
use object0::vault_file::{
    decode_base64, decrypt_payload, derive_key, encode_base64, encrypt_payload, encrypt_with_iv,
    ensure_saveable, has_recovery_key, is_encodable, keeps_recovery_blob, new_salt,
    passphrase_salt_of, recovery_salt_of, seal_vault, unlock_with_passphrase,
    unlock_with_recovery_key, vault_format, VaultFile, VaultFileError, VaultFormat,
    VaultRecoveryBlob,
};

const PLAINTEXT: &[u8] = b"{\"profiles\":[]}";
const SALT_TEXT: &str = "AAECAwQFBgcICQoLDA0ODw==";
const IV_TEXT: &str = "CQkJCQkJCQkJCQkJ";
const DATA_TEXT: &str = "IlCKnlkY7gaRuzYGCXaCq7ZetxcNXVav5fzTq7xEFg==";
const PASSPHRASE: &str = "correct horse";
const PASSPHRASE_KEY: [u8; 32] = [
    65, 21, 179, 184, 66, 172, 29, 227, 220, 209, 163, 116, 9, 21, 86, 63, 150, 254, 37, 249, 84,
    79, 130, 25, 165, 148, 194, 83, 71, 81, 193, 95,
];
const RECOVERY_KEY: [u8; 32] = [
    243, 141, 241, 90, 248, 14, 158, 53, 141, 196, 124, 99, 105, 4, 130, 108, 189, 243, 90, 189,
    45, 28, 56, 221, 70, 250, 202, 245, 66, 177, 44, 10,
];

fn counting(n: u8) -> Vec<u8> {
    (0..n).collect()
}

fn counting_key() -> [u8; 32] {
    let mut key = [0u8; 32];
    for (i, byte) in key.iter_mut().enumerate() {
        *byte = i as u8;
    }
    key
}

fn recovery_blob() -> VaultRecoveryBlob {
    VaultRecoveryBlob {
        salt: "BwcHBwcHBwcHBwcHBwcHBwcHBwcHBwcHBwcHBwcHBwc=".to_string(),
        iv: "AwMDAwMDAwMDAwMD".to_string(),
        data: "Xw/ct5xdee7F6IDVM8BXQUn6vI6n2y/EZuofutioFg==".to_string(),
    }
}

fn second_format() -> VaultFile {
    VaultFile::V2 {
        salt: SALT_TEXT.to_string(),
        iv: IV_TEXT.to_string(),
        data: DATA_TEXT.to_string(),
    }
}

fn third_format(recovery: Option<VaultRecoveryBlob>) -> VaultFile {
    VaultFile::V3 {
        salt: SALT_TEXT.to_string(),
        iv: IV_TEXT.to_string(),
        data: DATA_TEXT.to_string(),
        recovery,
    }
}

fn open_vault() -> VaultRuntime {
    VaultRuntime {
        unlocked: true,
        data: Some(VaultData { profiles: Vec::new() }),
        key: Some(counting_key()),
        salt: Some(counting(16)),
        recovery_key: None,
        recovery_salt: None,
    }
}

#[test]
fn bytes_are_written_as_standard_base64() {
    assert_eq!(encode_base64(&vec![0, 1, 2, 250, 251, 252, 253, 254, 255]), "AAEC+vv8/f7/");
    assert_eq!(encode_base64(&b"hello".to_vec()), "aGVsbG8=");
    assert_eq!(encode_base64(&Vec::new()), "");
}

#[test]
fn base64_texts_are_read_back() {
    assert_eq!(decode_base64("aGVsbG8="), Ok(b"hello".to_vec()));
    assert_eq!(decode_base64("AAEC+vv8/f7/"), Ok(vec![0, 1, 2, 250, 251, 252, 253, 254, 255]));
    assert_eq!(decode_base64(""), Ok(Vec::new()));
}

#[test]
fn a_text_that_is_no_base64_is_an_error() {
    let error = decode_base64("!!!!").unwrap_err();
    assert_eq!(error, VaultFileError::InvalidBase64("Invalid symbol 33, offset 0.".to_string()));
    assert_eq!(error.message(), "Invalid base64 payload: Invalid symbol 33, offset 0.");
}

#[test]
fn the_key_is_derived_with_pbkdf2_sha512() {
    assert_eq!(derive_key(PASSPHRASE, &counting(16)), PASSPHRASE_KEY);
}

#[test]
fn encryption_is_aes_256_gcm_with_the_tag_behind() {
    let sealed = encrypt_with_iv(&counting_key(), &counting(12), &PLAINTEXT.to_vec()).unwrap();
    assert_eq!(
        sealed,
        vec![
            60, 32, 166, 105, 170, 131, 171, 119, 232, 50, 181, 177, 234, 180, 5, 195, 186, 25,
            244, 44, 80, 81, 81, 77, 194, 196, 85, 219, 13, 71, 172
        ]
    );
    assert_eq!(sealed.len(), PLAINTEXT.len() + 16);
}

#[test]
fn what_was_encrypted_is_opened_again() {
    let key = counting_key();
    let (iv, sealed) = encrypt_payload(&key, &PLAINTEXT.to_vec()).unwrap();
    assert_eq!(iv.len(), 12);
    assert_ne!(&sealed[..PLAINTEXT.len()], PLAINTEXT);
    assert_eq!(decrypt_payload(&key, &iv, &sealed), Ok(PLAINTEXT.to_vec()));
}

#[test]
fn every_encryption_draws_its_own_nonce() {
    let key = counting_key();
    let (first, _) = encrypt_payload(&key, &PLAINTEXT.to_vec()).unwrap();
    let (second, _) = encrypt_payload(&key, &PLAINTEXT.to_vec()).unwrap();
    assert_ne!(first, second);
}

#[test]
fn a_nonce_of_the_wrong_length_is_refused() {
    let key = counting_key();
    let sealed = encrypt_with_iv(&key, &counting(12), &PLAINTEXT.to_vec()).unwrap();
    assert_eq!(decrypt_payload(&key, &counting(11), &sealed), Err(VaultFileError::InvalidIvLength));
    assert_eq!(
        VaultFileError::InvalidIvLength.message(),
        "Invalid vault IV length"
    );
}

#[test]
fn a_changed_byte_does_not_open() {
    let key = counting_key();
    let mut sealed = encrypt_with_iv(&key, &counting(12), &PLAINTEXT.to_vec()).unwrap();
    sealed[0] ^= 1;
    assert_eq!(
        decrypt_payload(&key, &counting(12), &sealed),
        Err(VaultFileError::InvalidPassphrase)
    );
    assert_eq!(decrypt_payload(&key, &counting(12), &Vec::new()), Err(VaultFileError::InvalidPassphrase));
    assert_eq!(VaultFileError::InvalidPassphrase.message(), "Invalid passphrase");
}

#[test]
fn the_passphrase_opens_the_second_format() {
    let unlock = unlock_with_passphrase(&second_format(), PASSPHRASE).unwrap();
    assert_eq!(unlock.plaintext, PLAINTEXT.to_vec());
    assert_eq!(unlock.key, PASSPHRASE_KEY);
    assert_eq!(unlock.salt, counting(16));
    assert!(!unlock.has_recovery_key);
    assert!(unlock.needs_rewrite);
}

#[test]
fn the_first_format_keeps_its_tag_apart() {
    let file = VaultFile::V1 {
        salt: SALT_TEXT.to_string(),
        iv: IV_TEXT.to_string(),
        auth_tag: "q7ZetxcNXVav5fzTq7xEFg==".to_string(),
        data: "IlCKnlkY7gaRuzYGCXaC".to_string(),
    };
    let unlock = unlock_with_passphrase(&file, PASSPHRASE).unwrap();
    assert_eq!(unlock.plaintext, PLAINTEXT.to_vec());
    assert!(unlock.needs_rewrite);
    assert!(!unlock.has_recovery_key);
}

#[test]
fn the_third_format_is_current() {
    let file = third_format(Some(recovery_blob()));
    let unlock = unlock_with_passphrase(&file, PASSPHRASE).unwrap();
    assert_eq!(unlock.plaintext, PLAINTEXT.to_vec());
    assert!(!unlock.needs_rewrite);
    assert!(unlock.has_recovery_key);
    assert_eq!(recovery_salt_of(&file), Ok(Some(vec![7u8; 32])));
}

#[test]
fn a_wrong_passphrase_does_not_open() {
    assert_eq!(
        unlock_with_passphrase(&second_format(), "correct horse "),
        Err(VaultFileError::InvalidPassphrase)
    );
}

#[test]
fn the_first_text_that_is_no_base64_gives_the_error() {
    let file = VaultFile::V2 {
        salt: "?".to_string(),
        iv: "!!!!".to_string(),
        data: DATA_TEXT.to_string(),
    };
    assert_eq!(
        unlock_with_passphrase(&file, PASSPHRASE),
        Err(VaultFileError::InvalidBase64("Invalid symbol 63, offset 0.".to_string()))
    );
    assert_eq!(
        passphrase_salt_of(&file),
        Err(VaultFileError::InvalidBase64("Invalid symbol 63, offset 0.".to_string()))
    );
}

#[test]
fn the_recovery_key_opens_the_recovery_blob() {
    let file = third_format(Some(recovery_blob()));
    let unlock = unlock_with_recovery_key(&file, "ABCD-EFGH").unwrap();
    assert_eq!(unlock.plaintext, PLAINTEXT.to_vec());
    assert_eq!(unlock.recovery_key, RECOVERY_KEY);
    assert_eq!(unlock.recovery_salt, vec![7u8; 32]);
    assert_eq!(passphrase_salt_of(&file), Ok(counting(16)));
}

#[test]
fn a_wrong_recovery_key_does_not_open() {
    let file = third_format(Some(recovery_blob()));
    assert_eq!(unlock_with_recovery_key(&file, "ABCD-EFGX"), Err(VaultFileError::InvalidRecoveryKey));
    assert_eq!(VaultFileError::InvalidRecoveryKey.message(), "Invalid recovery key");
}

#[test]
fn a_recovery_nonce_of_the_wrong_length_counts_as_a_wrong_key() {
    let mut blob = recovery_blob();
    blob.iv = "AwMD".to_string();
    assert_eq!(
        unlock_with_recovery_key(&third_format(Some(blob)), "ABCD-EFGH"),
        Err(VaultFileError::InvalidRecoveryKey)
    );
}

#[test]
fn a_file_without_a_recovery_blob_has_no_recovery_key() {
    assert_eq!(
        unlock_with_recovery_key(&second_format(), "ABCD-EFGH"),
        Err(VaultFileError::NoRecoveryKey)
    );
    assert_eq!(
        unlock_with_recovery_key(&third_format(None), "ABCD-EFGH"),
        Err(VaultFileError::NoRecoveryKey)
    );
    assert_eq!(
        VaultFileError::NoRecoveryKey.message(),
        "Vault has no recovery key configured"
    );
    assert!(!has_recovery_key(&second_format()));
    assert!(!has_recovery_key(&third_format(None)));
    assert!(has_recovery_key(&third_format(Some(recovery_blob()))));
    assert_eq!(recovery_salt_of(&second_format()), Ok(None));
}

#[test]
fn only_three_formats_are_read() {
    assert_eq!(vault_format(1), Ok(VaultFormat::V1));
    assert_eq!(vault_format(2), Ok(VaultFormat::V2));
    assert_eq!(vault_format(3), Ok(VaultFormat::V3));
    assert_eq!(vault_format(0), Err(VaultFileError::UnsupportedVersion(0)));
    assert_eq!(vault_format(4), Err(VaultFileError::UnsupportedVersion(4)));
    assert_eq!(
        VaultFileError::UnsupportedVersion(4).message(),
        "Unsupported vault version: 4"
    );
}

#[test]
fn a_written_vault_opens_under_its_key() {
    let vault = open_vault();
    let file = seal_vault(&vault, &PLAINTEXT.to_vec(), None).unwrap();
    let VaultFile::V3 { salt, iv, data, recovery } = file else {
        panic!("the vault is written in the third format");
    };
    assert_eq!(salt, SALT_TEXT);
    assert_eq!(recovery, None);
    let iv = decode_base64(&iv).unwrap();
    let data = decode_base64(&data).unwrap();
    assert_eq!(iv.len(), 12);
    assert_eq!(decrypt_payload(&counting_key(), &iv, &data), Ok(PLAINTEXT.to_vec()));
}

#[test]
fn a_vault_with_its_recovery_key_writes_a_recovery_blob() {
    let mut vault = open_vault();
    vault.recovery_key = Some(RECOVERY_KEY);
    vault.recovery_salt = Some(vec![7u8; 32]);
    let existing = third_format(Some(recovery_blob()));
    let file = seal_vault(&vault, &PLAINTEXT.to_vec(), Some(&existing)).unwrap();
    let VaultFile::V3 { recovery: Some(blob), .. } = file else {
        panic!("the vault is written with a recovery blob");
    };
    assert_eq!(blob.salt, "BwcHBwcHBwcHBwcHBwcHBwcHBwcHBwcHBwcHBwcHBwc=");
    assert_ne!(blob.iv, recovery_blob().iv);
    let iv = decode_base64(&blob.iv).unwrap();
    let data = decode_base64(&blob.data).unwrap();
    assert_eq!(decrypt_payload(&RECOVERY_KEY, &iv, &data), Ok(PLAINTEXT.to_vec()));
}

#[test]
fn a_vault_without_its_recovery_key_keeps_the_blob_on_disk() {
    let mut vault = open_vault();
    vault.recovery_salt = Some(vec![7u8; 32]);
    assert!(keeps_recovery_blob(&vault));
    let existing = third_format(Some(recovery_blob()));
    let file = seal_vault(&vault, &PLAINTEXT.to_vec(), Some(&existing)).unwrap();
    let VaultFile::V3 { recovery, .. } = file else {
        panic!("the vault is written in the third format");
    };
    assert_eq!(recovery, Some(recovery_blob()));

    let file = seal_vault(&vault, &PLAINTEXT.to_vec(), Some(&second_format())).unwrap();
    assert!(!has_recovery_key(&file));
    let file = seal_vault(&vault, &PLAINTEXT.to_vec(), None).unwrap();
    assert!(!has_recovery_key(&file));
}

#[test]
fn a_vault_without_a_recovery_salt_writes_no_blob() {
    let mut vault = open_vault();
    assert!(!keeps_recovery_blob(&vault));
    vault.recovery_key = Some(RECOVERY_KEY);
    assert!(!keeps_recovery_blob(&vault));
    let existing = third_format(Some(recovery_blob()));
    let file = seal_vault(&vault, &PLAINTEXT.to_vec(), Some(&existing)).unwrap();
    assert!(!has_recovery_key(&file));
}

#[test]
fn a_vault_that_lacks_something_is_not_written() {
    let mut vault = open_vault();
    assert_eq!(ensure_saveable(&vault), Ok(()));
    vault.salt = None;
    assert_eq!(ensure_saveable(&vault), Err(VaultFileError::NoSalt));
    assert_eq!(seal_vault(&vault, &PLAINTEXT.to_vec(), None), Err(VaultFileError::NoSalt));
    vault.key = None;
    assert_eq!(ensure_saveable(&vault), Err(VaultFileError::NoPassphraseKey));
    assert_eq!(seal_vault(&vault, &PLAINTEXT.to_vec(), None), Err(VaultFileError::NoPassphraseKey));
    vault.data = None;
    assert_eq!(ensure_saveable(&vault), Err(VaultFileError::Locked));
    assert_eq!(seal_vault(&vault, &PLAINTEXT.to_vec(), None), Err(VaultFileError::Locked));
    assert_eq!(VaultFileError::Locked.message(), "Cannot save: vault is locked");
    assert_eq!(
        VaultFileError::NoPassphraseKey.message(),
        "Cannot save: vault has no passphrase key"
    );
    assert_eq!(VaultFileError::NoSalt.message(), "Cannot save: vault has no salt");
    assert_eq!(VaultFileError::EncryptionFailed.message(), "Vault encryption failed");
}

#[test]
fn fresh_salts_have_32_bytes_and_differ() {
    let first = new_salt();
    let second = new_salt();
    assert_eq!(first.len(), 32);
    assert_eq!(second.len(), 32);
    assert_ne!(first, second);
}

#[test]
fn lengths_near_the_end_of_the_range_have_no_base64_text() {
    assert!(is_encodable(0));
    assert!(is_encodable(1 << 20));
    assert!(is_encodable((isize::MAX as usize) / 4 * 3));
    assert!(!is_encodable((isize::MAX as usize) / 4 * 3 + 1));
    assert!(!is_encodable(usize::MAX));
}
