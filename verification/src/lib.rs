//! Compatibility resolution for PyTorch wheels, with machine-checked contracts.

pub mod address;
pub mod arguments;
pub mod checks;
pub mod command;
pub mod commands;
pub mod details;
pub mod devices;
pub mod displaying;
pub mod environment;
pub mod evidence;
pub mod exits;
pub mod filenames;
pub mod files;
pub mod freshness;
pub mod groups;
pub mod guarantees;
pub mod host;
pub mod index;
pub mod index_error;
pub mod installing;
pub mod interpreters;
pub mod links;
pub mod machine;
pub mod model;
pub mod numbers;
pub mod nvidia;
pub mod order;
pub mod outcomes;
pub mod outside;
pub mod pages;
pub mod pieces;
pub mod pinning;
pub mod presenting;
pub mod probing;
pub mod python;
pub mod ranking;
pub mod redact;
pub mod render;
pub mod resolver;
pub mod rules;
pub mod selection;
pub mod shell;
pub mod snapshot;
pub mod suitability;
pub mod summary;
pub mod terminal;
pub mod text;
pub mod toolkit;
pub mod verdicts;
pub mod verify;
pub mod version;
pub mod wording;
