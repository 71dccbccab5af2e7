//! Reversible obfuscation of game asset files with a keystream cipher that is
//! keyed by a digest of each file's logical path, and the rules that map a
//! manifest of logical paths onto the hashed file names of an archive.

pub mod arclib;
pub mod crypt;
pub mod error;
pub mod file_helper;
pub mod game;
pub mod resolver;
pub mod scanner;
pub mod string_set;
pub mod text;

pub use error::Error;
