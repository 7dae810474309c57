//! The resolution engine of a file-based HTTP request runner: a layered
//! environment, placeholder substitution, the session that asks for one
//! missing value at a time, extraction of variables from responses, and the
//! decisions of the run modes and of the terminal front-end.

pub mod value;
pub mod env;
pub mod substitute;
pub mod extract;
pub mod session;
pub mod ui;
pub mod run;
pub mod config;
