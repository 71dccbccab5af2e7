//! The manifest phase: which file each listed path is read from and written
//! to, in either direction, and which content addresses a run has consumed.

use vstd::hash_set::StringHashSet;
use vstd::prelude::*;
use vstd::slice::slice_to_vec;
use vstd::std_specs::iter::IteratorSpec;
use vstd::string::StringExecFns;
use vstd::utf8::encode_utf8;

use crate::arclib::md5_crypt::{cipher, lemma_cipher_involution, MD5Crypt};
use crate::arclib::utils::{digest_hex, md5_string};
use crate::error::Error;
use crate::scanner::StrayFileScanner;

verus! {

/// The content address of a logical path: the digest of the path's bytes in
/// hexadecimal text.
pub open spec fn path_digest(path: Seq<char>) -> Seq<char> {
    digest_hex(encode_utf8(path))
}

/// The name of the file that stores the content with a given address: the
/// address with the extension `.bin`.
pub open spec fn stored_name(digest: Seq<char>) -> Seq<char> {
    digest + seq!['.', 'b', 'i', 'n']
}

/// Whether a logical path names a video container, which is stored as it is:
/// whether it ends in `.wmv`.
pub open spec fn is_passthrough(path: Seq<char>) -> bool {
    path.len() >= 4 && path.subrange(path.len() - 4, path.len() as int) == seq!['.', 'w', 'm', 'v']
}

/// What is to be done for one entry of the manifest.
#[derive(Debug)]
pub struct EntryPlan {
    /// The content address of the entry, which also seeds its keystream.
    pub digest: String,
    /// The file to read, relative to the input root.
    pub source: String,
    /// The file to write, relative to the output root.
    pub dest: String,
    /// Whether the content is copied as it is instead of going through the cipher.
    pub copy_only: bool,
}

/// What came of carrying out a plan.
#[derive(Debug)]
pub enum Outcome {
    /// The destination was written.
    Done,
    /// There is nothing at the source.
    NotFound,
    /// The source is there but is no regular file.
    NotAFile,
    /// Reading or writing failed; the text is the platform's message.
    Failed(String),
}

/// The content addresses that are consumed once an entry with the address
/// `digest` came to `outcome`: the entry's address joins them when its
/// destination was written, and nothing changes otherwise.
pub open spec fn consumed_after(
    before: Set<Seq<char>>,
    digest: Seq<char>,
    outcome: Outcome,
) -> Set<Seq<char>> {
    if outcome is Done {
        before.insert(digest)
    } else {
        before
    }
}

impl EntryPlan {
    /// Whether this is the plan for `path` in the given direction. Encrypting
    /// reads the logical path and writes the stored name; decrypting reads the
    /// stored name and writes the logical path.
    pub open spec fn resolves(&self, path: Seq<char>, encrypt: bool) -> bool {
        &&& self.digest@ == path_digest(path)
        &&& self.source@ == if encrypt {
            path
        } else {
            stored_name(path_digest(path))
        }
        &&& self.dest@ == if encrypt {
            stored_name(path_digest(path))
        } else {
            path
        }
        &&& self.copy_only == is_passthrough(path)
    }

    /// What the destination holds once the plan is carried out on a source
    /// that holds `data`.
    pub open spec fn output_of(&self, key: Seq<u8>, data: Seq<u8>) -> Seq<u8> {
        if self.copy_only {
            data
        } else {
            cipher(key, encode_utf8(self.digest@), data)
        }
    }

    /// The content of the destination for a source that holds `data`.
    pub fn transform(&self, crypt: &MD5Crypt, data: &[u8]) -> (output: Vec<u8>)
        ensures
            output@ == self.output_of(crypt.key@, data@),
    {
        if self.copy_only {
            slice_to_vec(data)
        } else {
            crypt.apply(self.digest.as_str(), data)
        }
    }
}

/// Whether `path` ends in `.wmv`.
pub fn ends_with_wmv(path: &str) -> (found: bool)
    ensures
        found == is_passthrough(path@),
{
    broadcast use vstd::string::group_string_axioms;

    let mut seen: u8 = 0;
    let mut w0 = ' ';
    let mut w1 = ' ';
    let mut w2 = ' ';
    let mut w3 = ' ';
    let ghost mut at: int = 0;
    let mut it = path.chars();
    loop
        invariant
            it.remaining() == path@.skip(at),
            0 <= at <= path@.len(),
            seen == if at < 4 {
                at
            } else {
                4
            },
            at >= 1 ==> w3 == path@[at - 1],
            at >= 2 ==> w2 == path@[at - 2],
            at >= 3 ==> w1 == path@[at - 3],
            at >= 4 ==> w0 == path@[at - 4],
            it.decrease() is Some,
        decreases it.decrease()->0,
    {
        match it.next() {
            None => {
                let found = seen == 4 && w0 == '.' && w1 == 'w' && w2 == 'm' && w3 == 'v';
                proof {
                    let len = path@.len() as int;
                    if len >= 4 {
                        let tail = path@.subrange(len - 4, len);
                        assert(tail[0] == w0 && tail[1] == w1 && tail[2] == w2 && tail[3] == w3);
                        if found {
                            assert(tail =~= seq!['.', 'w', 'm', 'v']);
                        }
                    }
                }
                return found;
            },
            Some(c) => {
                w0 = w1;
                w1 = w2;
                w2 = w3;
                w3 = c;
                if seen < 4 {
                    seen += 1;
                }
                proof {
                    at = at + 1;
                }
            },
        }
    }
}

/// The first phase of a run: it resolves the entries of the manifest and
/// keeps the content addresses of those that were written.
pub struct ManifestResolver {
    encrypt: bool,
    consumed: StringHashSet,
}

impl ManifestResolver {
    /// Whether the run encrypts; it decrypts otherwise.
    pub closed spec fn encrypts(&self) -> bool {
        self.encrypt
    }

    /// The content addresses of the entries that were written so far.
    pub closed spec fn consumed(&self) -> Set<Seq<char>> {
        self.consumed@
    }

    /// A resolver for one run in the given direction, with nothing consumed yet.
    pub fn new(encrypt: bool) -> (resolver: ManifestResolver)
        ensures
            resolver.encrypts() == encrypt,
            resolver.consumed() == Set::<Seq<char>>::empty(),
    {
        ManifestResolver { encrypt, consumed: StringHashSet::new() }
    }

    /// The plan for one logical path of the manifest.
    pub fn resolve(&self, path: &str) -> (plan: EntryPlan)
        ensures
            plan.resolves(path@, self.encrypts()),
    {
        let digest = md5_string(path.as_bytes());
        let mut stored = digest.clone();
        stored.append(".bin");
        proof {
            reveal_strlit(".bin");
            assert(".bin"@ =~= seq!['.', 'b', 'i', 'n']);
        }
        let copy_only = ends_with_wmv(path);
        if self.encrypt {
            EntryPlan { digest, source: path.to_owned(), dest: stored, copy_only }
        } else {
            EntryPlan { digest, source: stored, dest: path.to_owned(), copy_only }
        }
    }

    /// Takes note of what came of an entry. An entry whose destination was
    /// written is consumed, whether it went through the cipher or was copied.
    /// Any other outcome leaves the consumed addresses as they were and comes
    /// back as the error to report; none of them ends the run.
    pub fn record(&mut self, plan: &EntryPlan, outcome: Outcome) -> (res: Result<(), Error>)
        ensures
            final(self).encrypts() == old(self).encrypts(),
            final(self).consumed() == consumed_after(old(self).consumed(), plan.digest@, outcome),
            res is Ok <==> outcome is Done,
            outcome is NotFound || outcome is NotAFile ==> (res matches Err(
                Error::MissingManifestEntry(name),
            ) && name@ == plan.source@),
            outcome matches Outcome::Failed(message) ==> (res matches Err(Error::IoError(m)) && m@
                == message@),
    {
        match outcome {
            Outcome::Done => {
                self.consumed.insert(plan.digest.clone());
                Ok(())
            },
            Outcome::NotFound => Err(Error::MissingManifestEntry(plan.source.clone())),
            Outcome::NotAFile => Err(Error::MissingManifestEntry(plan.source.clone())),
            Outcome::Failed(message) => Err(Error::IoError(message)),
        }
    }

    /// Ends the manifest phase and opens the scan for stray files, which
    /// leaves out what this phase consumed.
    pub fn finish(self) -> (scanner: StrayFileScanner)
        ensures
            scanner.consumed() == self.consumed(),
    {
        StrayFileScanner::after(self.consumed)
    }
}

/// Encrypting a listed file and decrypting the result under the same secret
/// gives the file back: the second run reads what the first wrote, writes
/// where the first read, and undoes what the first did to the content. This
/// holds for every entry; one that ends in `.wmv` is copied both ways.
pub proof fn lemma_round_trip(
    enc: EntryPlan,
    dec: EntryPlan,
    path: Seq<char>,
    key: Seq<u8>,
    data: Seq<u8>,
)
    requires
        enc.resolves(path, true),
        dec.resolves(path, false),
    ensures
        dec.source@ == enc.dest@,
        dec.dest@ == enc.source@,
        dec.output_of(key, enc.output_of(key, data)) == data,
{
    lemma_cipher_involution(key, encode_utf8(path_digest(path)), data);
}

/// An entry that ends in `.wmv` never goes through the cipher: in both
/// directions the destination holds what the source held.
pub proof fn lemma_passthrough_copies(
    plan: EntryPlan,
    path: Seq<char>,
    encrypt: bool,
    key: Seq<u8>,
    data: Seq<u8>,
)
    requires
        is_passthrough(path),
        plan.resolves(path, encrypt),
    ensures
        plan.copy_only,
        plan.output_of(key, data) == data,
{
}

} // verus!
