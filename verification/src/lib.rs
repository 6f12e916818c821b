//! Core logic of the KDev desktop backend: workspace path rules, the
//! master-password lock, runtime resolution, recovery snapshots, Git and
//! project tooling decisions, and storage reporting.

pub mod text;
pub mod numbers;
pub mod order;
pub mod paths;
pub mod json;
pub mod security;
pub mod process;
pub mod runtime;
pub mod workspace;
pub mod git;
pub mod project_tools;
pub mod recovery;
pub mod extensions;
pub mod debugger;
pub mod storage;
pub mod host;
