//! A dependency manager for native build artifacts: registry index model,
//! transitive dependency resolution and the fetch-and-cache pipeline.

pub mod cli;
pub mod cmake;
pub mod config;
pub mod consts;
pub mod error;
pub mod fetch;
pub mod init;
pub mod manifest;
pub mod ordered_map;
pub mod registry;
pub mod text;
pub mod types;
pub mod urls;
pub mod yaml;
