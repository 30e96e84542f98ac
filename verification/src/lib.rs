//! Token expansion for task definitions.
//!
//! A task's command, script, arguments, environment, inputs and outputs may
//! hold token functions such as `@files(group)` and token variables such as
//! `$project`. This crate rewrites them into paths, glob patterns, environment
//! variable names and plain strings, and proves what each rewrite returns.
pub mod args;
pub mod clock;
pub mod env_glob;
pub mod env_substitute;
pub mod errors;
pub mod expanded;
pub mod fields;
pub mod file_group;
pub mod functions;
pub mod laws;
pub mod model;
pub mod moon_config;
pub mod path_laws;
pub mod paths;
pub mod patterns;
pub mod probe;
pub mod probe_laws;
pub mod rendering;
pub mod scope;
pub mod text;
pub mod token_expander;
pub mod variables;
