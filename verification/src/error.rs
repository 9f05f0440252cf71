use vstd::prelude::*;


verus! {

/// The cause of a failed operation.
#[non_exhaustive]
#[derive(Debug)]
pub enum ErrorKind {
    /// The bincode encoding could not be produced or read back.
    Serialization(Box<bincode::ErrorKind>),
    /// Reading or writing a file failed.
    IOError(std::io::Error),
    /// A key of the wrong size was handed to the cipher.
    CryptorError(bincode_aes::CryptorError),
}

/// An error of the password manager.
#[derive(Debug)]
pub struct Error {
    pub kind: ErrorKind,
}

impl From<Box<bincode::ErrorKind>> for Error {
    fn from(err: Box<bincode::ErrorKind>) -> (r: Error) {
        Error { kind: ErrorKind::Serialization(err) }
    }
}

impl vstd::std_specs::convert::FromSpecImpl<Box<bincode::ErrorKind>> for Error {
    open spec fn obeys_from_spec() -> bool {
        true
    }

    open spec fn from_spec(err: Box<bincode::ErrorKind>) -> Error {
        Error { kind: ErrorKind::Serialization(err) }
    }
}

impl From<std::io::Error> for Error {
    fn from(err: std::io::Error) -> (r: Error) {
        Error { kind: ErrorKind::IOError(err) }
    }
}

impl vstd::std_specs::convert::FromSpecImpl<std::io::Error> for Error {
    open spec fn obeys_from_spec() -> bool {
        true
    }

    open spec fn from_spec(err: std::io::Error) -> Error {
        Error { kind: ErrorKind::IOError(err) }
    }
}

impl From<bincode_aes::CryptorError> for Error {
    fn from(err: bincode_aes::CryptorError) -> (r: Error) {
        Error { kind: ErrorKind::CryptorError(err) }
    }
}

impl vstd::std_specs::convert::FromSpecImpl<bincode_aes::CryptorError> for Error {
    open spec fn obeys_from_spec() -> bool {
        true
    }

    open spec fn from_spec(err: bincode_aes::CryptorError) -> Error {
        Error { kind: ErrorKind::CryptorError(err) }
    }
}

} // verus!
