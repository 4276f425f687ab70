//! Release decisions from Conventional Commit subjects: the version model,
//! the commit classifier, the bump resolver, and the changelog synthesizer.

pub mod analyser;
pub mod changelog;
pub mod commit;
pub mod config;
pub mod decimal;
pub mod error;
pub mod git;
pub mod layout;
pub mod release;
pub mod strategy;
pub mod text;
pub mod versioner;
