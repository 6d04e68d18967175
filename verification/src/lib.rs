//! A local-first encrypted credential vault: key derivation and authenticated
//! encryption, the versioned item model, replica synchronization and the
//! encrypted backup envelope.

pub mod backup;
pub mod commands;
pub mod crypto;
pub mod display;
pub mod encoding;
pub mod errors;
pub mod ids;
pub mod json;
pub mod login;
pub mod memory;
pub mod models;
pub mod numbers;
pub mod parser;
pub mod password_policy;
pub mod payload;
pub mod repository;
pub mod runtime_config;
pub mod session;
pub mod storage;
pub mod sync_engine;
pub mod table;
pub mod text;
pub mod vault;
