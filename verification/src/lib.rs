//! Token-minimizing source formatting: the language-independent core, the
//! per-language comment policies and external verifications, and the
//! command-line decisions, each with its contract.
pub mod text;
pub mod lines;
pub mod path;
pub mod error;
pub mod options;
pub mod tokenizer;
pub mod formatter;
pub mod engine;
pub mod go;
pub mod java;
pub mod csharp;
pub mod external;
pub mod js;
pub mod config;
pub mod cli;
pub mod python;
