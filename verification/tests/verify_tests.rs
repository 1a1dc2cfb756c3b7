use artifact_inventory::{
    verify_inventory, Arch, ArtifactMetadata, ArtifactRecord, BaseImage, BuildProperties, Checksum,
    Fetched, Inventory, Os, Timestamp, VerifyFailure,
};

fn record_for(url: &str, body: &[u8]) -> ArtifactRecord {
    ArtifactRecord {
        os: Os::Linux,
        arch: Arch::Amd64,
        version: "3.1.4".to_string(),
        checksum: Checksum::compute(&body.to_vec()),
        metadata: ArtifactMetadata {
            timestamp: Timestamp { year: 2024, month: 7, day: 24, hour: 16, minute: 17, second: 35 },
            distro_version: BaseImage::new("heroku-24").unwrap().distro_version(),
        },
        url: url.to_string(),
    }
}

#[test]
fn test_verify_all_pass() {
    let mut inventory = Inventory::new();
    inventory.push(record_for("https://x/a.tgz", b"artifact a"));
    inventory.push(record_for("https://x/b.tgz", b"artifact b"));

    let fetched = vec![
        Fetched::Bytes(b"artifact a".to_vec()),
        Fetched::Bytes(b"artifact b".to_vec()),
    ];
    verify_inventory(&inventory, &fetched).unwrap();
}

#[test]
fn test_verify_mismatch_names_url() {
    let mut inventory = Inventory::new();
    inventory.push(record_for("https://x/a.tgz", b"artifact a"));
    inventory.push(record_for("https://x/b.tgz", b"artifact b"));

    let fetched = vec![
        Fetched::Bytes(b"artifact a".to_vec()),
        Fetched::Bytes(b"tampered".to_vec()),
    ];
    let err = verify_inventory(&inventory, &fetched).unwrap_err();
    assert_eq!(1, err.failures.len());
    match &err.failures[0] {
        VerifyFailure::Mismatch { url, expected, actual } => {
            assert_eq!("https://x/b.tgz", url);
            assert_eq!(*expected, Checksum::compute(&b"artifact b".to_vec()));
            assert_eq!(*actual, Checksum::compute(&b"tampered".to_vec()));
        },
        other => panic!("unexpected failure {:?}", other),
    }
    let expected_line = format!(
        "Checksum mismatch for https://x/b.tgz expected {} got {}",
        Checksum::compute(&b"artifact b".to_vec()).to_string(),
        Checksum::compute(&b"tampered".to_vec()).to_string()
    );
    assert_eq!(expected_line, err.message());
}

#[test]
fn test_verify_download_failure_does_not_abort_rest() {
    let mut inventory = Inventory::new();
    inventory.push(record_for("https://x/a.tgz", b"artifact a"));
    inventory.push(record_for("https://x/b.tgz", b"artifact b"));
    inventory.push(record_for("https://x/c.tgz", b"artifact c"));

    let fetched = vec![
        Fetched::Failed("connection refused".to_string()),
        Fetched::Bytes(b"artifact b".to_vec()),
        Fetched::Bytes(b"wrong".to_vec()),
    ];
    let err = verify_inventory(&inventory, &fetched).unwrap_err();
    // Every record is checked; both failures are reported, in record order.
    assert_eq!(2, err.failures.len());
    match &err.failures[0] {
        VerifyFailure::Download { url, message } => {
            assert_eq!("https://x/a.tgz", url);
            assert_eq!("connection refused", message);
        },
        other => panic!("unexpected failure {:?}", other),
    }
    match &err.failures[1] {
        VerifyFailure::Mismatch { url, .. } => {
            assert_eq!("https://x/c.tgz", url);
        },
        other => panic!("unexpected failure {:?}", other),
    }
}

#[test]
fn test_jruby_stdlib_version_failure() {
    let body = "# Ruby versions\nversion.ruby.major=3.1\nversion.ruby.minor=4\n".to_string();
    let properties = BuildProperties {
        body: body.as_bytes().to_vec(),
        url: "https://example.com".to_string(),
    };

    assert!(properties.ruby_stdlib_version().is_err());
}

#[test]
fn test_jruby_stdlib_version_success() {
    let body = "# Ruby versions\nversion.ruby=3.1.4\nversion.ruby.major=3.1\nversion.ruby.minor=4\n"
        .to_string();
    let properties = BuildProperties {
        body: body.as_bytes().to_vec(),
        url: "https://example.com".to_string(),
    };

    assert_eq!(properties.ruby_stdlib_version().unwrap(), "3.1.4");
}
