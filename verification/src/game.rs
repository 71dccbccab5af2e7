//! The titles that are known, and the secrets that are built in for them.

use vstd::prelude::*;

verus! {

/// The titles whose secret is built in.
#[derive(Debug, PartialEq, Eq, Structural)]
pub enum Game {
    /// No title was named.
    Unspecified,
    UmaPD,
}

/// The built-in secrets, one for each profile.
#[derive(Debug, PartialEq, Eq, Structural)]
pub enum MD5Key {
    UmaPD,
}

/// The table of built-in secrets, filled once when the program loads.
#[derive(Debug)]
pub struct BuiltinKeys {
    pub umapd: Vec<u8>,
}

impl Default for Game {
    fn default() -> (game: Game)
        ensures
            game == Game::Unspecified,
    {
        Game::Unspecified
    }
}

impl Default for MD5Key {
    fn default() -> (key: MD5Key)
        ensures
            key == MD5Key::UmaPD,
    {
        MD5Key::UmaPD
    }
}

impl Game {
    /// The profile of this title, where it has one.
    pub open spec fn key_of(self) -> Option<MD5Key> {
        match self {
            Game::Unspecified => None,
            Game::UmaPD => Some(MD5Key::UmaPD),
        }
    }

    /// The profile of this title, where it has one.
    pub fn key(&self) -> (key: Option<MD5Key>)
        ensures
            key == self.key_of(),
    {
        match self {
            Game::Unspecified => None,
            Game::UmaPD => Some(MD5Key::UmaPD),
        }
    }
}

impl MD5Key {
    /// The secret of this profile in a table of built-in secrets.
    pub open spec fn data_of(self, keys: BuiltinKeys) -> Seq<u8> {
        match self {
            MD5Key::UmaPD => keys.umapd@,
        }
    }

    /// The secret of this profile, out of the table of built-in secrets.
    pub fn data(self, keys: &BuiltinKeys) -> (secret: &[u8])
        ensures
            secret@ == self.data_of(*keys),
    {
        match self {
            MD5Key::UmaPD => keys.umapd.as_slice(),
        }
    }
}

} // verus!
