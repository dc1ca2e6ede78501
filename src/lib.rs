//! A source-and-binary package manager core: package records, dependency
//! graphs, resolution of install sets, repository synchronisation decisions
//! and the decisions of the build pipeline.
pub mod address;
pub mod application;
pub mod architecture;
pub mod archive;
pub mod bin_database;
pub mod build_file;
pub mod config;
pub mod database;
pub mod dependency;
pub mod deployment;
pub mod download;
pub mod error;
pub mod function;
pub mod graph;
pub mod layout;
pub mod license;
pub mod manifest;
pub mod metadata;
pub mod security;
pub mod source;
pub mod source_database;
pub mod text;
pub mod update;

pub use application::Application;
pub use architecture::Architecture;
pub use bin_database::{BinDatabase, BinRepo, TargetPackage};
pub use build_file::BuildFile;
pub use config::{Configuration, RepoMeta};
pub use dependency::{DepKind, Dependency};
pub use deployment::Deployment;
pub use error::PkgError;
pub use function::{Function, StageExit};
pub use layout::Layout;
pub use license::License;
pub use metadata::Metadata;
pub use security::Security;
pub use source::Source;
pub use source_database::{SourceDatabase, SourceRepo};
