//! Typed errors. Every failure of the library is one of these variants;
//! the I/O and TOML variants carry the message of the underlying error.
use vstd::prelude::*;

verus! {

/// Every failure mode Trurl can encounter.
#[derive(Debug)]
pub enum Error {
    /// Command is defined but not yet implemented.
    NotImplemented(String),
    /// Filesystem I/O failure.
    Io(String),
    /// TOML deserialization failure.
    TomlRead(String),
    /// TOML serialization failure.
    TomlWrite(String),
    /// A name that is not kebab-case.
    InvalidName(String),
    /// A request that the stored state refuses.
    Validation(String),
}

/// The text shown for an error.
pub open spec fn error_text(e: Error) -> Seq<char> {
    match e {
        Error::NotImplemented(m) => m@,
        Error::Io(m) => "I/O error: "@ + m@,
        Error::TomlRead(m) => "invalid TOML: "@ + m@,
        Error::TomlWrite(m) => "TOML serialization error: "@ + m@,
        Error::InvalidName(m) => "invalid name `"@ + m@ + "` (expected kebab-case)"@,
        Error::Validation(m) => m@,
    }
}

impl Error {
    /// The text shown for this error.
    pub fn message(&self) -> (s: String)
        ensures
            s@ == error_text(*self),
    {
        let mut s = String::new();
        match self {
            Error::NotImplemented(m) => {
                s.append(m.as_str());
            },
            Error::Io(m) => {
                s.append("I/O error: ");
                s.append(m.as_str());
            },
            Error::TomlRead(m) => {
                s.append("invalid TOML: ");
                s.append(m.as_str());
            },
            Error::TomlWrite(m) => {
                s.append("TOML serialization error: ");
                s.append(m.as_str());
            },
            Error::InvalidName(m) => {
                s.append("invalid name `");
                s.append(m.as_str());
                s.append("` (expected kebab-case)");
            },
            Error::Validation(m) => {
                s.append(m.as_str());
            },
        }
        s
    }
}

} // verus!
