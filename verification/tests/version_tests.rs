use std::str::FromStr;

use artifact_inventory::{
    configure_args, output_tar_path, validate_version_for_stack, Arch, BaseImage, CpuArch, Error,
    RubyDownloadVersion,
};

#[test]
fn test_ruby_version_bundler_format() {
    assert_eq!(
        "3.1.2".to_string(),
        RubyDownloadVersion::new("3.1.2").unwrap().bundler_format()
    );

    assert_eq!(
        "3.1.2.preview1".to_string(),
        RubyDownloadVersion::new("3.1.2-preview1")
            .unwrap()
            .bundler_format()
    );
}

#[test]
fn test_ruby_dir_format() {
    assert_eq!(
        "ruby-3.1.2".to_string(),
        RubyDownloadVersion::new("3.1.2").unwrap().dir_name_format()
    );

    assert_eq!(
        "ruby-3.1.2-preview1".to_string(),
        RubyDownloadVersion::new("3.1.2-preview1")
            .unwrap()
            .dir_name_format()
    );
}

#[test]
fn bad_ruby_version() {
    assert!(RubyDownloadVersion::new("3.-1.2-preview1").is_err());
    assert!(RubyDownloadVersion::new("3.1").is_err());
    assert!(RubyDownloadVersion::new("3").is_err());
    assert!(RubyDownloadVersion::new("3-1").is_err());
}

#[test]
fn test_ruby_download_url() {
    assert_eq!(
        "https://cache.ruby-lang.org/pub/ruby/3.0/ruby-3.0.2.tar.gz".to_string(),
        RubyDownloadVersion::new("3.0.2").unwrap().download_url()
    );

    assert_eq!(
        "https://cache.ruby-lang.org/pub/ruby/3.1/ruby-3.1.2.tar.gz".to_string(),
        RubyDownloadVersion::new("3.1.2").unwrap().download_url()
    );

    assert_eq!(
        "https://cache.ruby-lang.org/pub/ruby/3.1/ruby-3.1.2-preview1.tar.gz".to_string(),
        RubyDownloadVersion::new("3.1.2-preview1")
            .unwrap()
            .download_url()
    );
}

#[test]
fn test_validate_version_for_stack() {
    assert!(validate_version_for_stack(
        &RubyDownloadVersion::from_str("2.7.3").unwrap(),
        &BaseImage::new("heroku-22").unwrap()
    )
    .is_ok());

    assert!(validate_version_for_stack(
        &RubyDownloadVersion::from_str("3.0.0").unwrap(),
        &BaseImage::new("heroku-22").unwrap()
    )
    .is_err());
}

#[test]
fn test_configure_args_yjit() {
    let version = RubyDownloadVersion::new("3.3.0").unwrap();
    let compiled_dir = "/tmp/ruby";
    let args = configure_args(compiled_dir, &version);
    assert_eq!(
        args,
        vec![
            "--disable-install-doc".to_string(),
            "--enable-load-relative".to_string(),
            "--enable-shared".to_string(),
            "--prefix".to_string(),
            "/tmp/ruby".to_string(),
            "--enable-yjit".to_string(),
        ]
    );
}

#[test]
fn test_configure_args_no_yjit() {
    let version = RubyDownloadVersion::new("3.0.0").unwrap();
    let compiled_dir = "/tmp/ruby";
    let args = configure_args(compiled_dir, &version);
    assert_eq!(
        args,
        vec![
            "--disable-install-doc".to_string(),
            "--enable-load-relative".to_string(),
            "--enable-shared".to_string(),
            "--prefix".to_string(),
            "/tmp/ruby".to_string(),
        ]
    );
}

#[test]
fn test_output_tar_path_pre_24() {
    let version = RubyDownloadVersion::from_str("2.7.3").unwrap();
    let base_image = BaseImage::new("heroku-20").unwrap();
    let cpu_architecture = Arch::Amd64;

    let tar_path = output_tar_path("/tmp", &version, &base_image, &cpu_architecture);

    assert_eq!("/tmp/heroku-20/ruby-2.7.3.tgz".to_string(), tar_path);
}

#[test]
fn test_output_tar_path_post_24() {
    let version = RubyDownloadVersion::from_str("2.7.3").unwrap();
    let base_image = BaseImage::new("heroku-24").unwrap();
    let cpu_architecture = Arch::Amd64;

    let tar_path = output_tar_path("/tmp", &version, &base_image, &cpu_architecture);

    assert_eq!("/tmp/heroku-24/amd64/ruby-2.7.3.tgz".to_string(), tar_path);
}

#[test]
fn test_version_overflow_rejected() {
    assert!(RubyDownloadVersion::new("4294967296.0.0").is_err());
    assert!(RubyDownloadVersion::new("4294967295.0.0").is_ok());
}

#[test]
fn test_is_prerelease() {
    assert_eq!(None, RubyDownloadVersion::new("3.1.2").unwrap().is_prerelease());
    assert_eq!(
        Some("3.1.2".to_string()),
        RubyDownloadVersion::new("3.1.2-rc1").unwrap().is_prerelease()
    );
}

#[test]
fn test_invalid_version_error_message() {
    let err = RubyDownloadVersion::new("3-1").unwrap_err();
    match &err {
        Error::InvalidVersion { version, .. } => assert_eq!("3-1", version),
        other => panic!("unexpected error {:?}", other),
    }
}

#[test]
fn test_invalid_version_for_stack_message() {
    let err = validate_version_for_stack(
        &RubyDownloadVersion::new("3.0.0").unwrap(),
        &BaseImage::new("heroku-22").unwrap(),
    )
    .unwrap_err();
    assert_eq!("Invalid version 3.0.0 for stack heroku-22", err.message());
}

#[test]
fn test_base_image_names() {
    let image = BaseImage::new("heroku-24").unwrap();
    assert_eq!("heroku-24", image.name());
    assert_eq!("24", image.distro_number());
    assert_eq!("24.04", image.distro_version().as_str());
    assert!(image.is_arch_aware());
    assert!(!BaseImage::new("heroku-20").unwrap().is_arch_aware());
    assert!(BaseImage::new("heroku-21").is_err());
}

#[test]
fn test_cpu_arch_names() {
    assert_eq!("amd64", CpuArch::new("amd64").unwrap().name());
    assert_eq!("arm64", CpuArch::new("arm64").unwrap().name());
    assert!(CpuArch::new("mips").is_err());
}
