//! The configuration of a run, the manifest that belongs to it, and the start
//! of the run itself.

use vstd::prelude::*;
use vstd::std_specs::iter::IteratorSpec;

use crate::arclib::md5_crypt::{MD5Crypt, KEY_LEN};
use crate::error::Error;
use crate::game::{BuiltinKeys, Game};
use crate::resolver::ManifestResolver;
use crate::string_set::StringSet;
use crate::text::push_char;

verus! {

/// Which cipher a run uses.
#[derive(Debug, PartialEq, Eq, Structural)]
pub enum CryptType {
    /// No cipher was chosen.
    Unspecified,
    MD5,
}

impl Default for CryptType {
    fn default() -> (kind: CryptType)
        ensures
            kind == CryptType::Unspecified,
    {
        CryptType::Unspecified
    }
}

/// Whether the characters of `text` from `from` up to `to` are one line of
/// it: they start the text or follow a line feed, they end the text or stand
/// before a line feed, and hold no line feed themselves.
pub open spec fn is_line(text: Seq<char>, from: int, to: int) -> bool {
    &&& 0 <= from <= to <= text.len()
    &&& (from == 0 || text[from - 1] == '\n')
    &&& (to == text.len() || text[to] == '\n')
    &&& forall|i: int| from <= i < to ==> text[i] != '\n'
}

/// What a line says: its characters, without the carriage return that may
/// stand before the line feed that ends it.
pub open spec fn line_text(text: Seq<char>, from: int, to: int) -> Seq<char> {
    if to < text.len() && from < to && text[to - 1] == '\r' {
        text.subrange(from, to - 1)
    } else {
        text.subrange(from, to)
    }
}

/// The logical paths that a manifest lists: what its lines say, but for the
/// lines that say nothing.
pub open spec fn manifest_paths(text: Seq<char>) -> Set<Seq<char>> {
    Set::new(
        |path: Seq<char>|
            path.len() > 0 && exists|from: int, to: int|
                #[trigger] is_line(text, from, to) && line_text(text, from, to) == path,
    )
}

/// The paths of the lines that end before `limit`.
spec fn paths_before(text: Seq<char>, limit: int) -> Set<Seq<char>> {
    Set::new(
        |path: Seq<char>|
            path.len() > 0 && exists|from: int, to: int|
                #[trigger] is_line(text, from, to) && to < limit && line_text(text, from, to)
                    == path,
    )
}

/// Two lines of a text that touch are the same line.
proof fn lemma_line_unique(text: Seq<char>, from: int, to: int, a: int, b: int)
    requires
        is_line(text, from, to),
        is_line(text, a, b),
        from <= b <= to,
    ensures
        a == from,
        b == to,
{
    if b < to {
        assert(text[b] == '\n');
    }
    if a < from {
        assert(text[from - 1] == '\n');
    }
    if a > from {
        assert(text[a - 1] == '\n');
    }
}

/// With the line from `from` to `to` the lines that end before `limit` are
/// complete up to `next`, where no other line ends between `from` and `next`.
proof fn lemma_paths_extend(text: Seq<char>, from: int, to: int, next: int)
    requires
        is_line(text, from, to),
        to < next,
        forall|a: int, b: int| #[trigger] is_line(text, a, b) && from <= b < next ==> b == to,
    ensures
        paths_before(text, next) == if line_text(text, from, to).len() > 0 {
            paths_before(text, from).insert(line_text(text, from, to))
        } else {
            paths_before(text, from)
        },
{
    let path = line_text(text, from, to);
    let grown = if path.len() > 0 {
        paths_before(text, from).insert(path)
    } else {
        paths_before(text, from)
    };
    assert forall|p: Seq<char>| paths_before(text, next).contains(p) implies grown.contains(p) by {
        let (a, b) = choose|a: int, b: int|
            #[trigger] is_line(text, a, b) && b < next && line_text(text, a, b) == p;
        if from <= b {
            lemma_line_unique(text, from, to, a, b);
        }
    }
    assert forall|p: Seq<char>| grown.contains(p) implies paths_before(text, next).contains(p) by {
        if p == path && path.len() > 0 {
            assert(is_line(text, from, to) && to < next && line_text(text, from, to) == p);
        } else {
            let (a, b) = choose|a: int, b: int|
                #[trigger] is_line(text, a, b) && b < from && line_text(text, a, b) == p;
            assert(is_line(text, a, b) && b < next && line_text(text, a, b) == p);
        }
    }
    assert(paths_before(text, next) =~= grown);
}

/// No path that a manifest lists is empty, and none holds a line feed.
pub proof fn lemma_manifest_paths_shape(text: Seq<char>, path: Seq<char>)
    requires
        manifest_paths(text).contains(path),
    ensures
        path.len() > 0,
        forall|i: int| 0 <= i < path.len() ==> path[i] != '\n',
{
    let (from, to) = choose|from: int, to: int|
        #[trigger] is_line(text, from, to) && line_text(text, from, to) == path;
    assert forall|i: int| 0 <= i < path.len() implies path[i] != '\n' by {
        assert(path[i] == text[from + i]);
    }
}

/// The configuration of a run.
pub struct Crypt {
    /// The cipher to use.
    pub type_: CryptType,
    /// The content of the key file, where one was named.
    pub key: Option<Vec<u8>>,
    /// The title, which selects a built-in secret where no key file was named.
    pub game: Game,
    /// The manifest: the logical paths that are expected.
    pub file_list: StringSet,
}

/// Whether `error` is the one owed for a secret that no cipher can be built
/// from: there is none, or it has the wrong length.
pub open spec fn is_key_error(secret: Option<Seq<u8>>, error: Error) -> bool {
    match secret {
        None => error is KeyNotFound,
        Some(secret) => secret.len() != KEY_LEN && (error matches Error::ArclibError(
            crate::arclib::Error::InvalidKeyLength(expected, got),
        ) && expected == KEY_LEN && got == secret.len()),
    }
}

/// The title of a run: the one that was named, or the one built-in title
/// where neither a title nor a cipher nor a key file was named.
pub open spec fn chosen_game(type_: CryptType, has_key: bool, game: Game) -> Game {
    if game == Game::Unspecified && type_ == CryptType::Unspecified && !has_key {
        Game::UmaPD
    } else {
        game
    }
}

/// The cipher of a run: the one that was named, or the cipher of the title.
/// There is none where neither was named.
pub open spec fn chosen_type(type_: CryptType, game: Game) -> Option<CryptType> {
    if type_ == CryptType::Unspecified {
        match game {
            Game::Unspecified => None,
            Game::UmaPD => Some(CryptType::MD5),
        }
    } else {
        Some(type_)
    }
}

impl Crypt {
    /// Completes a configuration from what was named. Where nothing but the
    /// locations was named, the built-in title stands in; where no cipher was
    /// named, the title's cipher is taken. Without a cipher and a title there
    /// is no configuration.
    pub fn new(type_: CryptType, key: Option<Vec<u8>>, game: Game, file_list: StringSet) -> (res:
        Option<Crypt>)
        ensures
            match chosen_type(type_, chosen_game(type_, key is Some, game)) {
                None => res is None,
                Some(kind) => (res matches Some(crypt) && crypt.type_ == kind && crypt.game
                    == chosen_game(type_, key is Some, game) && crypt.key == key && crypt.file_list
                    == file_list),
            },
    {
        let game = if game == Game::Unspecified && type_ == CryptType::Unspecified && key.is_none() {
            Game::UmaPD
        } else {
            game
        };
        let type_ = match type_ {
            CryptType::Unspecified => match game {
                Game::Unspecified => {
                    return None;
                },
                Game::UmaPD => CryptType::MD5,
            },
            CryptType::MD5 => CryptType::MD5,
        };
        Some(Crypt { type_, key, game, file_list })
    }

    /// The secret that the configuration selects: the content of the key file
    /// where one was named, else the built-in secret of the title, if it has one.
    pub open spec fn secret(&self, keys: BuiltinKeys) -> Option<Seq<u8>> {
        match self.key {
            Some(key) => Some(key@),
            None => match self.game.key_of() {
                Some(profile) => Some(profile.data_of(keys)),
                None => None,
            },
        }
    }

    /// Builds the cipher from the secret that the configuration selects.
    pub fn cipher(&self, keys: &BuiltinKeys) -> (res: Result<MD5Crypt, Error>)
        ensures
            match res {
                Ok(crypt) => self.secret(*keys) == Some(crypt.key@),
                Err(error) => is_key_error(self.secret(*keys), error),
            },
    {
        let made = match &self.key {
            Some(key) => MD5Crypt::new(key.as_slice()),
            None => match self.game.key() {
                Some(profile) => MD5Crypt::new(profile.data(keys)),
                None => {
                    return Err(Error::KeyNotFound);
                },
            },
        };
        match made {
            Ok(crypt) => Ok(crypt),
            Err(error) => Err(Error::from(error)),
        }
    }

    /// Begins a run in the given direction. With no cipher chosen there is
    /// nothing to do. Else the run gets its cipher and starts with the
    /// manifest phase, nothing consumed yet; a secret that is missing or of
    /// the wrong length ends the run before any file is touched.
    pub fn process(&self, keys: &BuiltinKeys, encrypt: bool) -> (res: Result<
        Option<(MD5Crypt, ManifestResolver)>,
        Error,
    >)
        ensures
            self.type_ == CryptType::Unspecified ==> res matches Ok(None),
            self.type_ == CryptType::MD5 ==> match res {
                Ok(None) => false,
                Ok(Some((crypt, resolver))) => {
                    &&& self.secret(*keys) == Some(crypt.key@)
                    &&& resolver.encrypts() == encrypt
                    &&& resolver.consumed() == Set::<Seq<char>>::empty()
                },
                Err(error) => is_key_error(self.secret(*keys), error),
            },
    {
        match self.type_ {
            CryptType::Unspecified => Ok(None),
            CryptType::MD5 => {
                match self.cipher(keys) {
                    Ok(crypt) => Ok(Some((crypt, ManifestResolver::new(encrypt)))),
                    Err(error) => Err(error),
                }
            },
        }
    }

    /// Reads a manifest: one logical path on each line, lines that say
    /// nothing left out, a path that is listed twice kept once.
    pub fn load_file_list(text: &str) -> (list: StringSet)
        ensures
            list.wf(),
            list@ == manifest_paths(text@),
    {
        broadcast use vstd::string::group_string_axioms;

        let mut list = StringSet::new();
        let mut line = String::new();
        let mut pending_cr = false;
        let ghost mut from: int = 0;
        let ghost mut at: int = 0;
        let mut it = text.chars();
        proof {
            assert(paths_before(text@, 0) =~= Set::<Seq<char>>::empty());
            assert(text@.subrange(0, 0) =~= line@);
        }
        loop
            invariant
                list.wf(),
                it.remaining() == text@.skip(at),
                0 <= from <= at <= text@.len(),
                from == 0 || text@[from - 1] == '\n',
                forall|i: int| from <= i < at ==> text@[i] != '\n',
                pending_cr ==> line@.push('\r') == text@.subrange(from, at),
                !pending_cr ==> line@ == text@.subrange(from, at),
                !pending_cr ==> from == at || text@[at - 1] != '\r',
                list@ == paths_before(text@, from),
                it.decrease() is Some,
            decreases it.decrease()->0,
        {
            match it.next() {
                None => {
                    if pending_cr {
                        push_char(&mut line, '\r');
                    }
                    proof {
                        let len = text@.len() as int;
                        assert(at == len);
                        assert(is_line(text@, from, len));
                        assert(line@ == line_text(text@, from, len));
                        assert forall|a: int, b: int| #[trigger]
                            is_line(text@, a, b) && from <= b < len + 1 implies b == len by {
                            lemma_line_unique(text@, from, len, a, b);
                        }
                        lemma_paths_extend(text@, from, len, len + 1);
                        assert(paths_before(text@, len + 1) =~= manifest_paths(text@));
                    }
                    if !line.as_str().is_empty() {
                        list.insert(line);
                    }
                    return list;
                },
                Some(c) => {
                    assert(c == text@[at]);
                    if c == '\n' {
                        proof {
                            assert(is_line(text@, from, at));
                            assert(line@ == line_text(text@, from, at)) by {
                                if pending_cr {
                                    assert(text@.subrange(from, at)[at - 1 - from] == '\r');
                                    assert(line@ =~= text@.subrange(from, at - 1));
                                }
                            }
                            assert forall|a: int, b: int| #[trigger]
                                is_line(text@, a, b) && from <= b < at + 1 implies b == at by {
                                lemma_line_unique(text@, from, at, a, b);
                            }
                            lemma_paths_extend(text@, from, at, at + 1);
                        }
                        if !line.as_str().is_empty() {
                            list.insert(line);
                        }
                        line = String::new();
                        pending_cr = false;
                        proof {
                            from = at + 1;
                            assert(text@.subrange(from, at + 1) =~= line@);
                        }
                    } else {
                        if pending_cr {
                            push_char(&mut line, '\r');
                        }
                        if c == '\r' {
                            pending_cr = true;
                            assert(line@.push('\r') =~= text@.subrange(from, at + 1));
                        } else {
                            pending_cr = false;
                            push_char(&mut line, c);
                            assert(line@ =~= text@.subrange(from, at + 1));
                        }
                    }
                    proof {
                        at = at + 1;
                    }
                },
            }
        }
    }
}

} // verus!
