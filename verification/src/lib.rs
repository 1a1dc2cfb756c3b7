//! Artifact inventory manifest store.
//!
//! Tracks published build artifacts (compiled language runtimes) in a single
//! shared manifest file: each record names a version / platform / distro
//! combination, the URL the artifact lives at, and a cryptographic checksum
//! that downstream consumers pin against. The library provides the manifest
//! codec with its round-trip guarantee, the conflict and dedup policy over
//! records, the pure read-modify-write transaction applied under a file lock,
//! and the integrity check that compares every record against re-fetched
//! bytes.

mod base_image;
mod checksum;
mod codec;
mod errors;
mod inventory;
mod jruby;
mod num;
mod paths;
mod policy;
mod record;
mod shebang;
mod stack;
mod text;
mod update;
mod verify;
mod version;

pub use base_image::BaseImage;
pub use base_image::BaseImageError;
pub use base_image::CpuArch;
pub use base_image::CpuArchError;
pub use base_image::DistroVersion;
pub use checksum::lemma_checksum_roundtrip;
pub use checksum::spec_checksum_str;
pub use checksum::spec_parse_checksum;
pub use checksum::Algorithm;
pub use checksum::Checksum;
pub use checksum::ChecksumParseError;
pub use checksum::ChecksumV;
pub use codec::parse_doc;
pub use codec::ser_record;
pub use codec::ser_records;
pub use errors::Error;
pub use inventory::lemma_inventory_roundtrip;
pub use inventory::Inventory;
pub use inventory::ParseError;
pub use jruby::properties_of;
pub use jruby::BuildProperties;
pub use jruby::Error as JrubyPropertiesError;
pub use paths::append_filename_with;
pub use paths::TarDownloadPath;
pub use policy::artifact_is_different;
pub use policy::artifact_same_url_different_checksum;
pub use policy::has_conflict;
pub use policy::lemma_publish_append_growth;
pub use policy::lemma_publish_dedup_replace;
pub use policy::publish;
pub use policy::records_conflict;
pub use policy::records_differ;
pub use policy::spec_keep;
pub use policy::spec_publish;
pub use policy::ChecksumConflict;
pub use record::valid_record;
pub use record::Arch;
pub use record::ArtifactMetadata;
pub use record::ArtifactRecord;
pub use record::MetadataV;
pub use record::Os;
pub use record::RecordV;
pub use record::Timestamp;
pub use shebang::spec_update_shebang;
pub use shebang::update_shebang;
pub use stack::configure_args;
pub use stack::output_tar_path;
pub use stack::validate_version_for_stack;
pub use update::apply_update;
pub use update::lemma_bootstrap;
pub use update::lemma_conflict_rejected;
pub use update::spec_apply;
pub use update::UpdateError;
pub use verify::record_passes;
pub use verify::spec_failures;
pub use verify::verify_inventory;
pub use verify::Fetched;
pub use verify::FetchedV;
pub use verify::VerifyError;
pub use verify::VerifyFailure;
pub use verify::VerifyFailureV;
pub use version::spec_parse_version;
pub use version::RubyDownloadVersion;
pub use version::RubyVersionV;
