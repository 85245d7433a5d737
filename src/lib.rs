//! Building modular script resources: configuration model, step orchestration
//! and a bundler that folds a tree of script modules into one file.

pub mod build_config;
pub mod build_step;
pub mod builder;
pub mod bundle_step;
pub mod bundler;
pub mod config_parser;
pub mod graph;
pub mod js_builder;
pub mod manifest_generator;
pub mod parallel_builder;
pub mod path_resolver;
pub mod relative;
pub mod resolver;
pub mod source;
pub mod text;
pub mod xml;
