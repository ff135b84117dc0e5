//! Scene configurations for a viewer of motion-capture recordings.
//!
//! A document names scene configurations, point groups and the appearance
//! that groups override. [`config_file::parse_config`] reads a TOML text
//! into a [`config_file::ConfigFile`], which answers, for a point or a pair
//! of points under a configuration, whether it is visible and how it looks.
//! What a text means is stated in [`grammar`], what the answers are in
//! [`resolve`], and what holds of both in [`laws`].

pub mod assoc;
pub mod config;
pub mod config_file;
pub mod document;
pub mod grammar;
pub mod laws;
pub mod milestones;
pub mod models;
pub mod number;
pub mod ordering;
pub mod parse;
pub mod pattern;
pub mod resolve;
pub mod scene;
pub mod shape;
pub mod text;
pub mod toml_source;
pub mod traces;
pub mod vectors;

pub use config::{merge_configs, Config, PointGroupConfig};
pub use config_file::{parse_config, ConfigFile};
pub use milestones::Milestones;
pub use shape::JoinShape;
pub use toml_source::ConfigParseError;
