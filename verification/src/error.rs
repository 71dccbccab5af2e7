//! The errors of a run.

use vstd::prelude::*;
use vstd::string::StringExecFns;

verus! {

/// What can go wrong during a run.
#[derive(Debug)]
pub enum Error {
    /// The cipher could not be set up.
    ArclibError(crate::arclib::Error),
    /// The platform refused to read or write; the text is its message.
    IoError(String),
    /// A path does not lie under the input root.
    StripPrefixError,
    /// The locations of a run do not fit together; the text says why.
    InvalidPath(String),
    /// A file in the input is not named by a digest; the text is the name's stem.
    InvalidFileName(String),
    /// A manifest entry has no regular file behind it; the text is the file
    /// that was looked for, relative to the input root.
    MissingManifestEntry(String),
    /// Neither a key file nor a title with a built-in secret was given.
    KeyNotFound,
}

impl Error {
    /// What the error says, in words.
    pub open spec fn message_text(&self) -> Seq<char> {
        match self {
            Error::ArclibError(error) => error.message_text(),
            Error::IoError(message) => "I/O error: "@ + message@,
            Error::StripPrefixError => "prefix not found"@,
            Error::InvalidPath(message) => "Invalid path: "@ + message@,
            Error::InvalidFileName(stem) => "Invalid file name, skipping: "@ + stem@,
            Error::MissingManifestEntry(name) => "File doesn't exist, skipping: "@ + name@,
            Error::KeyNotFound => "No key file specified, game key not found"@,
        }
    }

    /// What the error says, in words.
    pub fn message(&self) -> (text: String)
        ensures
            text@ == self.message_text(),
    {
        match self {
            Error::ArclibError(error) => error.message(),
            Error::IoError(message) => {
                let mut text = String::from_str("I/O error: ");
                text.append(message.as_str());
                text
            },
            Error::StripPrefixError => String::from_str("prefix not found"),
            Error::InvalidPath(message) => {
                let mut text = String::from_str("Invalid path: ");
                text.append(message.as_str());
                text
            },
            Error::InvalidFileName(stem) => {
                let mut text = String::from_str("Invalid file name, skipping: ");
                text.append(stem.as_str());
                text
            },
            Error::MissingManifestEntry(name) => {
                let mut text = String::from_str("File doesn't exist, skipping: ");
                text.append(name.as_str());
                text
            },
            Error::KeyNotFound => String::from_str("No key file specified, game key not found"),
        }
    }
}

impl From<crate::arclib::Error> for Error {
    fn from(e: crate::arclib::Error) -> (err: Error) {
        Error::ArclibError(e)
    }
}

impl vstd::std_specs::convert::FromSpecImpl<crate::arclib::Error> for Error {
    open spec fn obeys_from_spec() -> bool {
        true
    }

    open spec fn from_spec(e: crate::arclib::Error) -> Error {
        Error::ArclibError(e)
    }
}

} // verus!
