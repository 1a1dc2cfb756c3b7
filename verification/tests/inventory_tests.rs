use artifact_inventory::{
    apply_update, artifact_is_different, artifact_same_url_different_checksum, publish, Arch,
    ArtifactMetadata, ArtifactRecord, BaseImage, Checksum, Inventory, Os, Timestamp, UpdateError,
};

fn fixed_timestamp() -> Timestamp {
    Timestamp { year: 2024, month: 7, day: 24, hour: 16, minute: 17, second: 35 }
}

fn sample_artifact() -> ArtifactRecord {
    ArtifactRecord {
        os: Os::Linux,
        arch: Arch::Amd64,
        version: "1.0.0".to_string(),
        checksum: Checksum::parse(
            "sha256:dd073bda5665e758c3e6f861a6df435175c8e8faf5ec75bc2afaab1e3eebb2c7",
        )
        .unwrap(),
        metadata: ArtifactMetadata {
            timestamp: fixed_timestamp(),
            distro_version: BaseImage::new("heroku-24").unwrap().distro_version(),
        },
        url: "https://example.com".to_string(),
    }
}

#[test]
fn test_same_url_different_checksum_raises_error() {
    let a = sample_artifact();

    let b = a.clone();
    artifact_same_url_different_checksum(&a, &b).unwrap();

    let mut b = a.clone();
    b.checksum = Checksum::parse(
        "sha256:7bebeee1b9128bdbb290331b813fa01cf43e30cd0098286f7de011796cb8eee5",
    )
    .unwrap();
    assert!(artifact_same_url_different_checksum(&a, &b).is_err());
}

#[test]
fn test_is_not_version_match() {
    let a = sample_artifact();

    let b = a.clone();
    assert!(!artifact_is_different(&a, &b));

    let mut b = a.clone();
    b.version = "1.0.1".to_string();
    assert!(artifact_is_different(&a, &b));

    let mut b = a.clone();
    b.arch = Arch::Arm64;
    assert!(artifact_is_different(&a, &b));

    let mut b = a.clone();
    b.metadata.distro_version = BaseImage::new("heroku-22").unwrap().distro_version();
    assert!(artifact_is_different(&a, &b));
}

#[test]
fn test_append_inventory() {
    let artifact = sample_artifact();

    let mut inventory = Inventory::parse("").unwrap();
    inventory.push(artifact.clone());
    let contents = inventory.serialize();

    let inventory = Inventory::parse(&contents).unwrap();
    assert_eq!(1, inventory.artifacts.len());

    let mut inventory = Inventory::parse(&contents).unwrap();
    inventory.push(artifact.clone());
    let contents = inventory.serialize();

    let inventory = Inventory::parse(&contents).unwrap();
    assert_eq!(2, inventory.artifacts.len());
}

#[test]
fn test_inventory_roundtrip() {
    let mut inventory = Inventory::new();
    inventory.push(sample_artifact());
    let mut second = sample_artifact();
    second.version = "1.0.1".to_string();
    second.url = "https://example.com/other".to_string();
    inventory.push(second);

    let contents = inventory.serialize();
    let parsed = Inventory::parse(&contents).unwrap();
    assert_eq!(inventory.artifacts, parsed.artifacts);
}

#[test]
fn test_parse_garbage_is_error() {
    let err = Inventory::parse("not a manifest").unwrap_err();
    assert_eq!("not a manifest", err.contents);
}

#[test]
fn test_parse_blank_is_empty() {
    assert_eq!(0, Inventory::parse("").unwrap().artifacts.len());
    assert_eq!(0, Inventory::parse(" \t\r\n \n").unwrap().artifacts.len());
}

#[test]
fn test_bootstrap_creates_one_record() {
    // A nonexistent manifest file reads back as empty contents; one publish
    // writes a document holding exactly one record.
    let out = apply_update("", sample_artifact()).unwrap();
    let inventory = Inventory::parse(&out).unwrap();
    assert_eq!(1, inventory.artifacts.len());

    let out = apply_update("  \n\t", sample_artifact()).unwrap();
    let inventory = Inventory::parse(&out).unwrap();
    assert_eq!(1, inventory.artifacts.len());

    // Publishing the very same record again keeps exactly one record.
    let again = apply_update(&out, sample_artifact()).unwrap();
    let inventory = Inventory::parse(&again).unwrap();
    assert_eq!(1, inventory.artifacts.len());
}

#[test]
fn test_publish_appends_in_call_order() {
    // The concrete scenario: one record published, then a second with a new
    // version and URL; both stay, in call order.
    let first = ArtifactRecord {
        os: Os::Linux,
        arch: Arch::Amd64,
        version: "1.0.0".to_string(),
        checksum: Checksum::parse(&format!("sha256:{}", "a".repeat(64))).unwrap(),
        metadata: ArtifactMetadata {
            timestamp: fixed_timestamp(),
            distro_version: BaseImage::new("heroku-24").unwrap().distro_version(),
        },
        url: "https://x/a.tgz".to_string(),
    };
    let mut second = first.clone();
    second.version = "1.0.1".to_string();
    second.url = "https://x/b.tgz".to_string();
    second.checksum = Checksum::parse(&format!("sha256:{}", "b".repeat(64))).unwrap();

    let contents = apply_update("", first.clone()).unwrap();
    let contents = apply_update(&contents, second.clone()).unwrap();

    let inventory = Inventory::parse(&contents).unwrap();
    assert_eq!(2, inventory.artifacts.len());
    assert_eq!(first, inventory.artifacts[0]);
    assert_eq!(second, inventory.artifacts[1]);
}

#[test]
fn test_publish_dedup_replaces() {
    // A rebuild of the same logical artifact (same version, arch, distro)
    // replaces the old record: length unchanged, new digest in, old out.
    let original = sample_artifact();
    let mut rebuilt = original.clone();
    rebuilt.url = "https://example.com/rebuilt".to_string();
    rebuilt.checksum = Checksum::parse(
        "sha256:7bebeee1b9128bdbb290331b813fa01cf43e30cd0098286f7de011796cb8eee5",
    )
    .unwrap();

    let mut inventory = Inventory::new();
    inventory.push(original.clone());
    publish(&mut inventory, rebuilt.clone()).unwrap();

    assert_eq!(1, inventory.artifacts.len());
    assert_eq!(rebuilt.checksum, inventory.artifacts[0].checksum);
    assert_ne!(original.checksum, inventory.artifacts[0].checksum);
}

#[test]
fn test_publish_conflict_rejected() {
    // Same URL under a different digest hard-fails and leaves the manifest
    // contents untouched (nothing to write back).
    let existing = sample_artifact();
    let contents = apply_update("", existing.clone()).unwrap();

    let mut clashing = existing.clone();
    clashing.version = "2.0.0".to_string();
    clashing.checksum = Checksum::parse(
        "sha256:7bebeee1b9128bdbb290331b813fa01cf43e30cd0098286f7de011796cb8eee5",
    )
    .unwrap();

    let err = apply_update(&contents, clashing).unwrap_err();
    match err {
        UpdateError::Conflict(conflict) => {
            assert_eq!("https://example.com", conflict.url);
            assert_eq!(existing.checksum, conflict.existing);
            let message = conflict.message();
            assert!(message.contains("https://example.com"));
        },
        other => panic!("unexpected error {:?}", other),
    }
    // No new contents were produced, so the stored manifest stays as it was.
    let unchanged = Inventory::parse(&contents).unwrap();
    assert_eq!(1, unchanged.artifacts.len());
    assert_eq!(existing, unchanged.artifacts[0]);
}

#[test]
fn test_parse_error_aborts_update() {
    let err = apply_update("[[artifacts]]\nbroken", sample_artifact()).unwrap_err();
    match err {
        UpdateError::Parse(e) => assert_eq!("[[artifacts]]\nbroken", e.contents),
        other => panic!("unexpected error {:?}", other),
    }
}

#[test]
fn test_serialized_document_shape() {
    let contents = apply_update("", sample_artifact()).unwrap();
    let expected = "[[artifacts]]\n\
                    version = \"1.0.0\"\n\
                    os = \"linux\"\n\
                    arch = \"amd64\"\n\
                    url = \"https://example.com\"\n\
                    checksum = \"sha256:dd073bda5665e758c3e6f861a6df435175c8e8faf5ec75bc2afaab1e3eebb2c7\"\n\
                    \n\
                    [artifacts.metadata]\n\
                    timestamp = \"2024-07-24T16:17:35Z\"\n\
                    distro_version = \"24.04\"\n\
                    \n";
    assert_eq!(expected, contents);
}
