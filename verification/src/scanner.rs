//! The scan for stray files: files in the input that are named by a content
//! address and that the manifest did not account for.

use vstd::hash_set::StringHashSet;
use vstd::prelude::*;
use vstd::std_specs::iter::IteratorSpec;
use vstd::string::StringExecFns;

use crate::arclib::utils::{is_lower_hex, lemma_digest_hex_shape};
use crate::error::Error;
use crate::resolver::{consumed_after, path_digest, stored_name, EntryPlan, Outcome};
use crate::text::push_char;

verus! {

/// Whether a character is a hexadecimal digit, in either case.
pub open spec fn is_hex_char(c: char) -> bool {
    ('0' <= c && c <= '9') || ('a' <= c && c <= 'f') || ('A' <= c && c <= 'F')
}

/// Whether the stem of a file name can be a content address: exactly 32
/// characters, all of them hexadecimal digits.
pub open spec fn is_digest_name(stem: Seq<char>) -> bool {
    stem.len() == 32 && forall|i: int| 0 <= i < stem.len() ==> is_hex_char(#[trigger] stem[i])
}

/// Whether the last dot of `name` stands at `at`.
pub open spec fn is_last_dot(name: Seq<char>, at: int) -> bool {
    &&& 0 <= at < name.len()
    &&& name[at] == '.'
    &&& forall|i: int| at < i < name.len() ==> name[i] != '.'
}

/// Whether `stem` is the stem of the file name `name`: the name up to its
/// last dot, or the whole name where it holds no dot but, at most, one that
/// it starts with.
pub open spec fn is_stem_of(stem: Seq<char>, name: Seq<char>) -> bool {
    &&& forall|at: int| 0 < at && is_last_dot(name, at) ==> stem == name.take(at)
    &&& (forall|i: int| 0 < i < name.len() ==> name[i] != '.') ==> stem == name
}

/// The stem of a file name: the name without its extension.
pub fn stem_of(name: &str) -> (stem: String)
    ensures
        is_stem_of(stem@, name@),
{
    broadcast use vstd::string::group_string_axioms;

    let mut head = String::new();
    let mut tail = String::new();
    let mut split = false;
    let mut first = true;
    let ghost mut at: int = 0;
    let ghost mut dot: int = 0;
    let mut it = name.chars();
    assert(name@.take(0) =~= tail@);
    loop
        invariant
            it.remaining() == name@.skip(at),
            0 <= at <= name@.len(),
            first == (at == 0),
            split ==> 0 < dot < at && name@[dot] == '.' && head@ == name@.take(dot) && tail@
                == name@.subrange(dot, at) && forall|i: int| dot < i < at ==> name@[i] != '.',
            !split ==> tail@ == name@.take(at) && forall|i: int| 0 < i < at ==> name@[i] != '.',
            it.decrease() is Some,
        decreases it.decrease()->0,
    {
        match it.next() {
            None => {
                assert(name@.take(at) =~= name@);
                if split {
                    assert(is_last_dot(name@, dot));
                    return head;
                }
                return tail;
            },
            Some(c) => {
                if c == '.' && !first {
                    proof {
                        let joined = if split {
                            head@ + tail@
                        } else {
                            tail@
                        };
                        assert(joined =~= name@.take(at));
                    }
                    if split {
                        head.append(tail.as_str());
                    } else {
                        head = tail;
                    }
                    tail = String::new();
                    split = true;
                    proof {
                        dot = at;
                    }
                }
                push_char(&mut tail, c);
                first = false;
                proof {
                    if split {
                        assert(tail@ =~= name@.subrange(dot, at + 1));
                    } else {
                        assert(tail@ =~= name@.take(at + 1));
                    }
                    at = at + 1;
                }
            },
        }
    }
}

/// Whether `stem` can be a content address.
pub fn check_digest_name(stem: &str) -> (ok: bool)
    ensures
        ok == is_digest_name(stem@),
{
    broadcast use vstd::string::group_string_axioms;

    let mut count: usize = 0;
    let mut all_hex = true;
    let mut it = stem.chars();
    loop
        invariant
            it.remaining() == stem@.skip(count as int),
            count <= stem@.len(),
            count <= 33,
            all_hex == (forall|i: int| 0 <= i < count ==> is_hex_char(#[trigger] stem@[i])),
            it.decrease() is Some,
        decreases it.decrease()->0,
    {
        if count > 32 {
            return false;
        }
        match it.next() {
            None => {
                return count == 32 && all_hex;
            },
            Some(c) => {
                let hex = ('0' <= c && c <= '9') || ('a' <= c && c <= 'f') || ('A' <= c && c
                    <= 'F');
                all_hex = all_hex && hex;
                count += 1;
            },
        }
    }
}

/// What the scan makes of a file.
pub enum Pick {
    /// The name is refused: its stem cannot be a content address.
    Refused,
    /// The file is passed over in silence: the manifest phase consumed it.
    PassedOver,
    /// The file goes through the cipher, seeded by the stem of its name.
    Taken,
}

/// What the scan makes of a file with the stem `stem`, when the manifest
/// phase consumed `consumed`.
pub open spec fn pick(consumed: Set<Seq<char>>, stem: Seq<char>) -> Pick {
    if !is_digest_name(stem) {
        Pick::Refused
    } else if consumed.contains(stem) {
        Pick::PassedOver
    } else {
        Pick::Taken
    }
}

/// The second phase of a run: it looks at the files that are present in the
/// input and picks those that are named by a content address and were not
/// consumed by the manifest.
pub struct StrayFileScanner {
    consumed: StringHashSet,
}

impl StrayFileScanner {
    /// The content addresses that the manifest phase consumed.
    pub closed spec fn consumed(&self) -> Set<Seq<char>> {
        self.consumed@
    }

    /// The scanner that follows a manifest phase which consumed `consumed`.
    pub fn after(consumed: StringHashSet) -> (scanner: StrayFileScanner)
        ensures
            scanner.consumed() == consumed@,
    {
        StrayFileScanner { consumed }
    }

    /// Decides what to do with a file, given the stem of its name. A stem
    /// that cannot be a content address is refused as an invalid file name. A
    /// stem that was consumed is passed over in silence. Any other stem is the
    /// seed under which the file goes through the cipher: the stem itself,
    /// not a digest of it.
    pub fn scan(&self, stem: &str) -> (res: Result<Option<String>, Error>)
        ensures
            match pick(self.consumed(), stem@) {
                Pick::Refused => (res matches Err(Error::InvalidFileName(name)) && name@ == stem@),
                Pick::PassedOver => (res matches Ok(None)),
                Pick::Taken => (res matches Ok(Some(seed)) && seed@ == stem@),
            },
    {
        if !check_digest_name(stem) {
            return Err(Error::InvalidFileName(stem.to_owned()));
        }
        if self.consumed.contains(stem) {
            return Ok(None);
        }
        Ok(Some(stem.to_owned()))
    }
}

/// Every content address is a valid name for a stored file, so a file that
/// the manifest phase wrote or read under its address is never refused by the
/// scan for its name.
pub proof fn lemma_digest_is_valid_name(path: Seq<char>)
    ensures
        is_digest_name(path_digest(path)),
{
    lemma_digest_hex_shape(vstd::utf8::encode_utf8(path));
    assert forall|i: int| 0 <= i < 32 implies is_hex_char(#[trigger] path_digest(path)[i]) by {
        assert(is_lower_hex(path_digest(path)[i]));
    }
}

/// The file that stores a content address is found again under that
/// address: the stem of its name is the address, and nothing else.
pub proof fn lemma_stored_name_stem(digest: Seq<char>, stem: Seq<char>)
    requires
        is_digest_name(digest),
    ensures
        is_stem_of(stem, stored_name(digest)) <==> stem == digest,
{
    let name = stored_name(digest);
    assert(name.len() == 36);
    assert(name[32] == '.' && name[33] == 'b' && name[34] == 'i' && name[35] == 'n');
    assert forall|i: int| 0 <= i < 32 implies name[i] != '.' by {
        assert(is_hex_char(digest[i]));
    }
    assert(is_last_dot(name, 32));
    assert(name.take(32) =~= digest);
    if stem == digest {
        assert forall|at: int| 0 < at && is_last_dot(name, at) implies stem == name.take(at) by {
            assert(at == 32);
        }
    }
}

/// A file that the manifest accounts for is left alone by the scan: once an
/// entry was written, the file that is named by the entry's address is
/// passed over, whatever else was consumed before.
pub proof fn lemma_consumed_entry_is_passed_over(
    before: Set<Seq<char>>,
    plan: EntryPlan,
    path: Seq<char>,
    encrypt: bool,
)
    requires
        plan.resolves(path, encrypt),
    ensures
        pick(consumed_after(before, plan.digest@, Outcome::Done), path_digest(path))
            == Pick::PassedOver,
{
    lemma_digest_is_valid_name(path);
}

/// A file that is named by a content address which the manifest phase did
/// not consume goes through the cipher under that address as its seed.
pub proof fn lemma_stray_digest_is_taken(consumed: Set<Seq<char>>, stem: Seq<char>)
    requires
        is_digest_name(stem),
        !consumed.contains(stem),
    ensures
        pick(consumed, stem) == Pick::Taken,
{
}

/// A stem that is shorter or longer than 32 characters, or holds a character
/// that is no hexadecimal digit, cannot be a content address.
pub proof fn lemma_invalid_names(consumed: Set<Seq<char>>, stem: Seq<char>, i: int)
    ensures
        stem.len() != 32 ==> pick(consumed, stem) == Pick::Refused,
        0 <= i < stem.len() && !is_hex_char(stem[i]) ==> pick(consumed, stem) == Pick::Refused,
{
}

} // verus!
