//! Installation engine: resolves where each target goes, computes permission
//! bits from chmod-style mode strings, and decides the steps of an install.
pub mod autotargets;
pub mod dirs;
pub mod install;
pub mod manifest;
pub mod mode;
pub mod options;
pub mod path;
pub mod resolve;
