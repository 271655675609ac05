//! Storage layer for package registries: typed configuration, package
//! records and queries, and storage backends whose operations keep every
//! registry's packages unique by name and version inside its own namespace.

pub mod backend;
pub mod config;
pub mod error;
pub mod memory;
pub mod package;
pub mod registry;
pub mod sqlite;
