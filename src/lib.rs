//! Static auditing of a source tree against project-layout conventions:
//! glob-based organization rules, a best-effort import graph, and a few
//! single-file naming and placement checks.

pub mod text;
pub mod paths;
pub mod config;
pub mod diagnostics;
pub mod engines;
pub mod project;
pub mod pattern;
pub mod imports;
pub mod organization;
pub mod rules;
pub mod linter;
