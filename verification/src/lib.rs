//! Profiles of environment variables, the ciphers that protect them, and the
//! pure logic of the command line and terminal front ends.

pub mod date;
pub mod diagnostic;
pub mod cli;
pub mod codegen;
pub mod commands;
pub mod crypto;
pub mod dotenv;
pub mod editor;
pub mod env;
pub mod error;
pub mod pattern;
pub mod profile;
pub mod store;
pub mod cipher;
pub mod text;
pub mod tui;
pub mod version;
