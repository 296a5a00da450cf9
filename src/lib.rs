//! Progressive Secure Package Format: a self-extracting package made of a
//! launcher prefix, compressed metadata, a slot table, slot payloads and a
//! fixed-size magic trailer that holds the index block.

pub mod api;
pub mod builder;
pub mod chain;
pub mod checksums;
pub mod codec;
pub mod constants;
pub mod crypto;
pub mod directories;
pub mod error;
pub mod extraction;
pub mod index;
pub mod launch;
pub mod metadata;
pub mod operations;
pub mod package;
pub mod paths;
pub mod pe_utils;
pub mod placeholders;
pub mod runtime_env;
pub mod seal;
pub mod setup;
pub mod slot_processor;
pub mod slots;
pub mod text;
pub mod validation;
pub mod version;
pub mod workenv;
pub mod xor;
