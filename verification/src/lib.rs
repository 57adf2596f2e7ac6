//! Verified core of the web-context tool: path mappings, version naming,
//! markdown entry handling, project scanning decisions and configuration.

pub mod cli;
pub mod config;
pub mod entries;
pub mod generate;
pub mod markdown;
pub mod registry;
pub mod repo_paths;
pub mod scanner;
pub mod strmap;
pub mod text;
pub mod version;
