//! Resolution of named options from environment variables and command-line
//! arguments: precedence, defaults, required values and validation.
pub mod compose;
pub mod error;
pub mod options;
