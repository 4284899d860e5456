use vecindex::{SecureString, VectorStoreError};

#[test]
fn test_secure_string_creation() {
    let s = SecureString::new("test");
    assert_eq!(s.len(), 4);
    assert!(!s.is_empty());
}

#[test]
fn test_secure_string_validation() {
    let s = SecureString::new("valid");
    assert!(s.validate().is_ok());
}

#[test]
fn test_secure_string_comparison() {
    let s1 = SecureString::new("test");
    let s2 = SecureString::new("test");
    // the type has no Debug on purpose, so compare without assert_eq
    assert!(s1 == s2);
}

#[test]
fn test_secure_string_reads_back() {
    // the secret built from a string reads back as that string
    let s = SecureString::new("an api key with spaces and ünïcode");
    assert_eq!(s.as_str(), "an api key with spaces and ünïcode");
}

#[test]
fn test_secure_string_detects_difference() {
    let s1 = SecureString::new("alpha");
    let s2 = SecureString::new("alphb");
    assert!(s1 != s2);
}

#[test]
fn test_secure_string_prefix_is_not_equal() {
    // equality includes the length: a proper prefix never compares equal
    assert!(SecureString::new("test") != SecureString::new("testing"));
    assert!(SecureString::new("") != SecureString::new("x"));
    assert!(SecureString::new("") == SecureString::new(""));
}

#[test]
fn test_secure_string_rejects_nul_bytes() {
    let s = SecureString::new("bad\0key");
    assert_eq!(s.validate().unwrap_err(), VectorStoreError::SecureStringError);
}

#[test]
fn test_secure_string_wipe_empties_the_secret() {
    let mut s = SecureString::new("hunter2");
    assert_eq!(s.len(), 7);
    s.wipe();
    assert!(s.is_empty());
    assert_eq!(s.len(), 0);
    assert_eq!(s.as_str(), "");
}

#[test]
fn test_secure_string_empty() {
    let s = SecureString::new("");
    assert!(s.is_empty());
    assert_eq!(s.len(), 0);
    assert!(s.validate().is_ok());
}
