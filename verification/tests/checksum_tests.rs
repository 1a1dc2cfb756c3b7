use artifact_inventory::{Algorithm, Checksum, ChecksumParseError};

#[test]
fn test_checksum_roundtrip() {
    let c = Checksum::parse("sha256:dd073bda5665e758c3e6f861a6df435175c8e8faf5ec75bc2afaab1e3eebb2c7")
        .unwrap();
    assert_eq!(Checksum::parse(&c.to_string()).unwrap(), c);
    assert_eq!(
        "sha256:dd073bda5665e758c3e6f861a6df435175c8e8faf5ec75bc2afaab1e3eebb2c7",
        c.to_string()
    );
}

#[test]
fn test_checksum_parse_fields() {
    let c = Checksum::parse("sha256:dd073bda5665e758c3e6f861a6df435175c8e8faf5ec75bc2afaab1e3eebb2c7")
        .unwrap();
    assert_eq!(Algorithm::Sha256, c.algorithm);
    assert_eq!(32, c.value.len());
    assert_eq!(0xdd, c.value[0]);
    assert_eq!(0xc7, c.value[31]);
}

#[test]
fn test_checksum_parse_unknown_algorithm() {
    let err = Checksum::parse("md5:dd073bda5665e758c3e6f861a6df435175c8e8faf5ec75bc2afaab1e3eebb2c7")
        .unwrap_err();
    assert_eq!(ChecksumParseError::UnknownAlgorithm, err);
}

#[test]
fn test_checksum_parse_wrong_length() {
    let err = Checksum::parse("sha256:dd073bda").unwrap_err();
    assert_eq!(ChecksumParseError::WrongLength, err);
}

#[test]
fn test_checksum_parse_invalid_hex() {
    let err = Checksum::parse("sha256:zz073bda5665e758c3e6f861a6df435175c8e8faf5ec75bc2afaab1e3eebb2c7")
        .unwrap_err();
    assert_eq!(ChecksumParseError::InvalidHex, err);
    // Uppercase digits are rejected: the rendering is lowercase throughout.
    let err = Checksum::parse("sha256:DD073BDA5665E758C3E6F861A6DF435175C8E8FAF5EC75BC2AFAAB1E3EEBB2C7")
        .unwrap_err();
    assert_eq!(ChecksumParseError::InvalidHex, err);
}

#[test]
fn test_checksum_compute_empty() {
    let c = Checksum::compute(&Vec::new());
    assert_eq!(
        "sha256:e3b0c44298fc1c149afbf4c8996fb92427ae41e4649b934ca495991b7852b855",
        c.to_string()
    );
}

#[test]
fn test_checksum_compute_abc() {
    let c = Checksum::compute(&b"abc".to_vec());
    assert_eq!(
        "sha256:ba7816bf8f01cfea414140de5dae2223b00361a396177a9cb410ff61f20015ad",
        c.to_string()
    );
}

#[test]
fn test_checksum_compute_large_input() {
    // More than one 1024-byte chunk; digest of 2000 times 'a'.
    let bytes = vec![b'a'; 2000];
    let c = Checksum::compute(&bytes);
    let again = Checksum::compute(&bytes);
    assert_eq!(c, again);
    assert_ne!(c, Checksum::compute(&b"abc".to_vec()));
    assert_eq!(32, c.value.len());
}

#[test]
fn test_checksum_inequality() {
    let a = Checksum::parse("sha256:dd073bda5665e758c3e6f861a6df435175c8e8faf5ec75bc2afaab1e3eebb2c7")
        .unwrap();
    let b = Checksum::parse("sha256:7bebeee1b9128bdbb290331b813fa01cf43e30cd0098286f7de011796cb8eee5")
        .unwrap();
    assert_ne!(a, b);
}
