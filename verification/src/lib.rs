//! Verified core of the `uc` Cairo build tool: build-mode policies, setting
//! parsers, cache bookkeeping, daemon health and rate limiting, and the
//! comment-stripping normaliser behind semantic source hashing.

pub mod modes;
pub mod text;
pub mod comments;
pub mod numparse;
pub mod settings;
pub mod errors;
pub mod hashing;
pub mod access_cache;
pub mod paths;
pub mod store;
pub mod rate_limit;
pub mod health;
pub mod telemetry;
pub mod persist;
pub mod versions;
pub mod native;
pub mod budget;
pub mod protocol;
pub mod lines;
pub mod hints;
pub mod strorder;
pub mod fingerprint;
pub mod fingerprint_pass;
pub mod deproots;
pub mod string_set;
pub mod artifact_paths;
pub mod restore;
pub mod logs;
pub mod surface;
pub mod impact;
pub mod native_plan;
pub mod toolchain;
pub mod metadata_cache;
pub mod keys;
pub mod build_env;
pub mod manifest;
pub mod session_cache;
pub mod scarb_args;
pub mod path_parts;
pub mod source_journal;
pub mod project_toml;
pub mod native_session;
pub mod tracked_sources;
pub mod artifact_reuse;
pub mod post_build;
pub mod debug_deps;
pub mod json_wire;
pub mod documents;
pub mod dep_surface;
pub mod migrate;
pub mod buildinfo;
pub mod messages;
pub mod build_cache;
pub mod artifacts;
pub mod build_route;
