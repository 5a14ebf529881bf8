//! Finds the declared dependencies of a package manifest that have a newer
//! published version, and rewrites the manifest entries that the caller picks.
//!
//! A run goes through the modules in this order: `manifest` collects the
//! package names, `registry` and `fetch` look after the lookups of their
//! latest versions, `planner` decides which packages are worth an update,
//! `render` shows them, and `mutator` writes the chosen ones back. `version`
//! holds the rules on version specifiers that all of them share.

pub mod arguments;
pub mod fetch;
pub mod json;
pub mod manifest;
pub mod mutator;
pub mod planner;
pub mod prompt;
pub mod registry;
pub mod render;
pub mod text;
pub mod version;

pub use arguments::{Arguments, Command, Include, Semver};
pub use manifest::get_current_package_version;
pub use mutator::set_new_package_version;
pub use render::{colorize_version, package_ranking, package_type};
pub use version::{get_version_range, normalize_version};
