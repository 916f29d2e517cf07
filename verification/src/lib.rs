//! Template expansion, directory planning and command dispatch for the
//! `met` configuration tool, with their contracts proved by Verus.
pub mod cli;
pub mod cmd;
pub mod diff;
pub mod drtrun;
pub mod error;
pub mod exec;
pub mod files;
pub mod fs;
pub mod template;
pub mod text;
pub mod update;
pub mod userinput;
pub mod vars;
