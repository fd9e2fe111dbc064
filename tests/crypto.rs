use fjcpc_schedule::crypto::{decrypt_student_id, encrypt_student_id, CryptoError};

#[test]
fn sealed_student_id_opens_with_same_timestamp() {
    let sealed = encrypt_student_id("245810101", 1_704_067_200_000).unwrap();
    assert_eq!(sealed.len(), 2 * (9 + 16));
    assert!(sealed.chars().all(|c| c.is_ascii_hexdigit() && !c.is_ascii_uppercase()));
    assert_eq!(decrypt_student_id(&sealed, 1_704_067_200_000), Ok("245810101".to_string()));
    assert_eq!(decrypt_student_id(&sealed.to_uppercase(), 1_704_067_200_000), Ok("245810101".to_string()));
}

#[test]
fn sealing_depends_on_timestamp() {
    let a = encrypt_student_id("245810101", 1).unwrap();
    let b = encrypt_student_id("245810101", 2).unwrap();
    assert_ne!(a, b);
    assert_eq!(a, encrypt_student_id("245810101", 1).unwrap());
    assert_eq!(decrypt_student_id(&a, 2), Err(CryptoError::DecryptionFailed));
}

#[test]
fn malformed_hex_is_refused() {
    assert_eq!(decrypt_student_id("abc", 1), Err(CryptoError::InvalidHex));
    assert_eq!(decrypt_student_id("zz", 1), Err(CryptoError::InvalidHex));
    assert_eq!(decrypt_student_id("", 1), Err(CryptoError::DecryptionFailed));
}
