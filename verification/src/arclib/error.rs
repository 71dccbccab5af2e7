//! The errors of the cipher.

use vstd::prelude::*;
use vstd::string::StringExecFns;

use crate::text::{decimal, decimal_text};

verus! {

/// What can go wrong while a cipher is set up or a stream is transformed.
#[derive(Debug)]
pub enum Error {
    /// The secret has the wrong length: first the length the cipher needs,
    /// then the length it was given.
    InvalidKeyLength(usize, usize),
    /// Reading or writing a stream failed; the text is the platform's message.
    IoError(String),
}

impl Error {
    /// What the error says, in words.
    pub open spec fn message_text(&self) -> Seq<char> {
        match self {
            Error::InvalidKeyLength(expected, got) => "Invalid key length: expected "@
                + decimal_text(*expected as nat) + ", got "@ + decimal_text(*got as nat),
            Error::IoError(message) => "I/O error: "@ + message@,
        }
    }

    /// What the error says, in words.
    pub fn message(&self) -> (text: String)
        ensures
            text@ == self.message_text(),
    {
        match self {
            Error::InvalidKeyLength(expected, got) => {
                let mut text = String::from_str("Invalid key length: expected ");
                text.append(decimal(*expected).as_str());
                text.append(", got ");
                text.append(decimal(*got).as_str());
                text
            },
            Error::IoError(message) => {
                let mut text = String::from_str("I/O error: ");
                text.append(message.as_str());
                text
            },
        }
    }
}

} // verus!
