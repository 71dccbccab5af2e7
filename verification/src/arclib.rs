//! The cipher itself: the secret, the path digest and the keystream.

pub mod error;
pub mod md5_crypt;
pub mod utils;

pub use error::Error;
pub use md5_crypt::MD5Crypt;
