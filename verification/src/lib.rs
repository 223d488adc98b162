//! Declarative local checkouts: a tree of workspaces and projects, its
//! diagnosis against the filesystem, the plan that restores what is missing,
//! and the credential negotiation and progress rendering used while cloning.
pub mod chains;
pub mod config;
pub mod credentials;
pub mod diagnosis;
pub mod error;
pub mod git;
pub mod metrics;
pub mod paths;
pub mod progress;
pub mod resolve;
pub mod restore;
pub mod shell;
pub mod text;
pub mod transfer;

pub use crate::config::Config;
pub use crate::config::NamedProject;
pub use crate::config::NamedWorkspace;
pub use crate::config::Project;
pub use crate::config::Workspace;
pub use crate::diagnosis::doctor;
pub use crate::diagnosis::DoctorDiagnosis;
pub use crate::error::Error;
pub use crate::git::GitCloneProtocol;
pub use crate::git::GitCloneStrategy;
pub use crate::git::GitConfig;
pub use crate::git::GitHost;
pub use crate::git::ProjectGitSettings;
pub use crate::restore::restore;
pub use crate::restore::RestoreOption;
