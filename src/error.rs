//! The errors of the library.
use vstd::prelude::*;

verus! {

/// Every way an operation of the library, or of a program around it, fails.
#[derive(Debug)]
pub enum PierError {
    ConfigRead { path: String, message: String },
    TomlParse { path: String, message: String },
    TomlSerialize { message: String },
    ConfigWrite { path: String, message: String },
    ConfigInitFileAlreadyExists { path: String },
    CreateDirectory { message: String },
    AliasNotFound { alias: String },
    AliasAlreadyExists { alias: String },
    NoScriptsExists,
    NoDefaultShell { message: String },
    CommandExec { message: String },
    NoConfigFile,
    EditorError { message: String },
    ExecutableTempFileCreate { message: String },
}

} // verus!
