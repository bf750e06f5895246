//! Stores named shell snippets ("scripts") under aliases, with default
//! settings, and decides how each one is to be run.
use vstd::prelude::*;

pub mod config;
pub mod defaults;
pub mod error;
pub mod facade;
pub mod laws;
pub mod listing;
pub mod order;
pub mod script;
pub mod text;

pub use config::{Config, ConfigDefaultOpts, Scripts};
pub use error::PierError;
pub use facade::Pier;
pub use script::{Invocation, Script};

verus! {

/// The result of an operation of the library.
pub type PierResult<T> = Result<T, PierError>;

} // verus!
