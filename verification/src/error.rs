//! The errors of the host: configuration and input.

use vstd::prelude::*;

verus! {

/// The kind of an I/O error, as std names it.
#[verifier::external_type_specification]
#[verifier::external_body]
pub struct ExErrorKind(std::io::ErrorKind);

/// Configuration error.
#[derive(Debug, PartialEq)]
pub enum ConfigError {
    File(std::io::ErrorKind),
    Reader(std::io::ErrorKind),
    Tokenizer(String),
    Serialization(String),
    FileFormat(String),
    MissingExtension,
}

/// I/O error.
#[derive(Debug, PartialEq)]
pub enum IoError {
    File(std::io::ErrorKind),
    Reader(std::io::ErrorKind),
}

/// Error type.
#[derive(Debug)]
pub enum Error {
    Config(ConfigError),
    Io(IoError),
}

impl Error {
    pub fn config(error: ConfigError) -> (r: Self)
        ensures
            r == Error::Config(error),
    {
        Error::Config(error)
    }

    pub fn io(error: IoError) -> (r: Self)
        ensures
            r == Error::Io(error),
    {
        Error::Io(error)
    }
}

impl From<ConfigError> for Error {
    fn from(error: ConfigError) -> (r: Error) {
        Error::Config(error)
    }
}

impl vstd::std_specs::convert::FromSpecImpl<ConfigError> for Error {
    open spec fn obeys_from_spec() -> bool {
        true
    }

    open spec fn from_spec(error: ConfigError) -> Error {
        Error::Config(error)
    }
}

impl From<IoError> for Error {
    fn from(error: IoError) -> (r: Error) {
        Error::Io(error)
    }
}

impl vstd::std_specs::convert::FromSpecImpl<IoError> for Error {
    open spec fn obeys_from_spec() -> bool {
        true
    }

    open spec fn from_spec(error: IoError) -> Error {
        Error::Io(error)
    }
}

} // verus!
