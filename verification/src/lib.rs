pub mod applier;
pub mod build;
pub mod config;
pub mod data;
pub mod error;
pub mod hook;
pub mod loader;
pub mod metadata_builder;
pub mod modloader;
pub mod modules;
pub mod text;
pub mod utils;
pub mod xref;
