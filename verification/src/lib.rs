//! Verified core of a Minecraft launcher: version arithmetic, Maven coordinates,
//! launch-argument sanitation, classpath assembly and runtime selection.
pub mod assets;
pub mod auth;
pub mod classpath;
pub mod classpath_laws;
pub mod digest;
pub mod error;
pub mod inheritance;
pub mod instance_ops;
pub mod java;
pub mod launch_args;
pub mod launch_laws;
pub mod loaders;
pub mod maven;
pub mod maven_session;
pub mod model;
pub mod optimize;
pub mod order;
pub mod payloads;
pub mod platform;
pub mod preflight;
pub mod sorting;
pub mod text;
pub mod version_file;
pub mod version_order;
pub mod version_parts;
