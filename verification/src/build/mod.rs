//! The build side: reading the C++ that il2cpp generates for a mod and
//! rewriting it so that the mod compiles on its own.
pub mod clang;
pub mod codegen;
pub mod custom_attributes;
pub mod data;
pub mod function_usages;
pub mod generics;
pub mod invokers;
pub mod metadata_usage;
pub mod parser;
pub mod sources;
pub mod structs;
pub mod type_definitions;
pub mod type_sizes;
