//! The two roots of a run, and how the files under the input root are
//! mirrored under the output root.

use vstd::prelude::*;

use crate::error::Error;
use crate::string_set::texts;

verus! {

/// One entry of a directory listing.
#[derive(Debug)]
pub struct DirEntry {
    /// The name of the entry inside its directory.
    pub name: String,
    /// Whether the entry is a regular file.
    pub is_file: bool,
}

/// The two roots of a run. A path is the sequence of its components, from
/// the outermost to the file's own name.
#[derive(Debug)]
pub struct FileHelper {
    /// Where the run reads.
    pub input_path: Vec<String>,
    /// Where the run writes.
    pub output_path: Vec<String>,
    /// Whether the input root is a single file; it is a directory otherwise.
    pub input_is_file: bool,
}

/// The entries of a listing that are regular files, in the listing's order.
pub open spec fn regular_files(children: Seq<DirEntry>) -> Seq<DirEntry> {
    children.filter(|entry: DirEntry| entry.is_file)
}

/// The paths of some entries of the directory `root`.
pub open spec fn child_paths(root: Seq<Seq<char>>, entries: Seq<DirEntry>) -> Seq<
    Seq<Seq<char>>,
> {
    entries.map_values(|entry: DirEntry| root.push(entry.name@))
}

/// The component texts of each path of a list.
pub open spec fn paths(list: Seq<Vec<String>>) -> Seq<Seq<Seq<char>>> {
    list.map_values(|path: Vec<String>| texts(path@))
}

/// The path under `output` that mirrors `path` under `input`: the components
/// of `path` below `input`, put below `output`. There is none where `path`
/// does not lie under `input`; the input root itself is mirrored by the
/// output root itself.
pub open spec fn mirrored(
    input: Seq<Seq<char>>,
    output: Seq<Seq<char>>,
    path: Seq<Seq<char>>,
) -> Option<Seq<Seq<char>>> {
    if input.is_prefix_of(path) {
        Some(output + path.skip(input.len() as int))
    } else {
        None
    }
}

/// The regular files of a listing that grew by one entry.
proof fn lemma_regular_files_push(children: Seq<DirEntry>, entry: DirEntry)
    ensures
        regular_files(children.push(entry)) == if entry.is_file {
            regular_files(children).push(entry)
        } else {
            regular_files(children)
        },
{
    children.lemma_filter_push(entry, |entry: DirEntry| entry.is_file);
}

/// The paths of a list of entries that grew by one entry.
proof fn lemma_child_paths_push(root: Seq<Seq<char>>, entries: Seq<DirEntry>, entry: DirEntry)
    ensures
        child_paths(root, entries.push(entry)) == child_paths(root, entries).push(
            root.push(entry.name@),
        ),
{
    assert(child_paths(root, entries.push(entry)) =~= child_paths(root, entries).push(
        root.push(entry.name@),
    ));
}

/// A copy of a path.
fn clone_path(path: &Vec<String>) -> (copy: Vec<String>)
    ensures
        copy@ == path@,
{
    let mut copy: Vec<String> = Vec::new();
    let mut i: usize = 0;
    while i < path.len()
        invariant
            i <= path.len(),
            copy@ == path@.take(i as int),
        decreases path.len() - i,
    {
        copy.push(path[i].clone());
        assert(copy@ =~= path@.take(i + 1));
        i += 1;
    }
    assert(path@.take(path.len() as int) =~= path@);
    copy
}

impl FileHelper {
    /// Settles the two roots of a run, given what the platform says of them:
    /// for the input root whether it is a regular file, or why it cannot be
    /// had; for the output root the same where it exists. The input root must
    /// exist. An output root that exists must be of the input root's kind, a
    /// file for a file and a directory for a directory, so that no run ever
    /// writes a file over a directory or a directory over a file.
    pub fn new(
        input_path: Vec<String>,
        output_path: Vec<String>,
        input_meta: Result<bool, String>,
        output_meta: Option<bool>,
    ) -> (res: Result<FileHelper, Error>)
        ensures
            match input_meta {
                Err(message) => (res matches Err(Error::IoError(m)) && m@ == message@),
                Ok(input_is_file) => if output_meta is Some && output_meta->0 != input_is_file {
                    (res matches Err(Error::InvalidPath(m)) && m@
                        == "output and input path type mismatch, refusing to delete/overwrite"@)
                } else {
                    (res matches Ok(helper) && helper.input_path@ == input_path@
                        && helper.output_path@ == output_path@ && helper.input_is_file
                        == input_is_file)
                },
            },
    {
        let input_is_file = match input_meta {
            Err(message) => {
                return Err(Error::IoError(message));
            },
            Ok(is_file) => is_file,
        };
        if let Some(output_is_file) = output_meta {
            if output_is_file != input_is_file {
                return Err(
                    Error::InvalidPath(
                        "output and input path type mismatch, refusing to delete/overwrite".to_owned(),
                    ),
                );
            }
        }
        Ok(FileHelper { input_path, output_path, input_is_file })
    }

    /// The files that the run has to look at: the input root alone where it
    /// is a single file, else the regular files directly inside it.
    pub open spec fn input_files(&self, children: Seq<DirEntry>) -> Seq<Seq<Seq<char>>> {
        if self.input_is_file {
            seq![texts(self.input_path@)]
        } else {
            child_paths(texts(self.input_path@), regular_files(children))
        }
    }

    /// The files that the run has to look at, given the listing of the input
    /// root where it is a directory. Directories and other entries that are
    /// no regular files are left out, and nothing below them is visited.
    pub fn input_iter(&self, children: &Vec<DirEntry>) -> (files: Vec<Vec<String>>)
        ensures
            paths(files@) == self.input_files(children@),
            files@.len() == self.input_files(children@).len(),
    {
        let mut files: Vec<Vec<String>> = Vec::new();
        if self.input_is_file {
            files.push(clone_path(&self.input_path));
            assert(paths(files@) =~= seq![texts(self.input_path@)]);
            return files;
        }
        let ghost root = texts(self.input_path@);
        let mut i: usize = 0;
        assert(children@.take(0) =~= Seq::<DirEntry>::empty());
        assert(paths(files@) =~= child_paths(root, regular_files(children@.take(0))));
        while i < children.len()
            invariant
                i <= children.len(),
                root == texts(self.input_path@),
                paths(files@) == child_paths(root, regular_files(children@.take(i as int))),
            decreases children.len() - i,
        {
            let ghost seen = children@.take(i as int);
            proof {
                assert(children@.take(i + 1) =~= seen.push(children@[i as int]));
                lemma_regular_files_push(seen, children@[i as int]);
            }
            if children[i].is_file {
                let mut path = clone_path(&self.input_path);
                path.push(children[i].name.clone());
                proof {
                    lemma_child_paths_push(root, regular_files(seen), children@[i as int]);
                    assert(texts(path@) =~= root.push(children@[i as int].name@));
                    assert(paths(files@.push(path)) =~= paths(files@).push(texts(path@)));
                }
                files.push(path);
            }
            i += 1;
        }
        assert(children@.take(children.len() as int) =~= children@);
        files
    }

    /// Where the run writes what it makes of the input file `path`.
    pub fn output_path_for(&self, path: &Vec<String>) -> (res: Result<Vec<String>, Error>)
        ensures
            match mirrored(texts(self.input_path@), texts(self.output_path@), texts(path@)) {
                Some(target) => (res matches Ok(found) && texts(found@) == target),
                None => (res matches Err(Error::StripPrefixError)),
            },
    {
        let ghost input = texts(self.input_path@);
        let ghost output = texts(self.output_path@);
        let ghost given = texts(path@);
        let depth = self.input_path.len();
        if path.len() < depth {
            return Err(Error::StripPrefixError);
        }
        let mut i: usize = 0;
        while i < depth
            invariant
                i <= depth,
                depth == self.input_path.len(),
                depth <= path.len(),
                input == texts(self.input_path@),
                given == texts(path@),
                forall|j: int| 0 <= j < i ==> input[j] == given[j],
            decreases depth - i,
        {
            if !(self.input_path[i] == path[i]) {
                assert(input[i as int] != given.subrange(0, input.len() as int)[i as int]);
                return Err(Error::StripPrefixError);
            }
            i += 1;
        }
        assert(input =~= given.subrange(0, input.len() as int));
        let mut found = clone_path(&self.output_path);
        let mut k: usize = depth;
        assert(texts(found@) =~= output + given.skip(depth as int).take(0));
        while k < path.len()
            invariant
                depth <= k <= path.len(),
                output == texts(self.output_path@),
                given == texts(path@),
                texts(found@) == output + given.skip(depth as int).take(k - depth),
            decreases path.len() - k,
        {
            let ghost before = texts(found@);
            found.push(path[k].clone());
            assert(texts(found@) =~= before.push(given[k as int]));
            assert(before.push(given[k as int]) =~= output + given.skip(depth as int).take(
                k + 1 - depth,
            ));
            k += 1;
        }
        assert(given.skip(depth as int).take(path.len() - depth) =~= given.skip(depth as int));
        Ok(found)
    }
}

/// Every file that the run looks at has its place under the output root. A
/// single input file is written to the output root itself, as it was given;
/// a file inside the input directory is written under its own name inside
/// the output directory.
pub proof fn lemma_listed_files_mirror(helper: FileHelper, children: Seq<DirEntry>, i: int)
    requires
        0 <= i < helper.input_files(children).len(),
    ensures
        helper.input_is_file ==> mirrored(
            texts(helper.input_path@),
            texts(helper.output_path@),
            helper.input_files(children)[i],
        ) == Some(texts(helper.output_path@)),
        !helper.input_is_file ==> mirrored(
            texts(helper.input_path@),
            texts(helper.output_path@),
            helper.input_files(children)[i],
        ) == Some(texts(helper.output_path@).push(regular_files(children)[i].name@)),
{
    let input = texts(helper.input_path@);
    let output = texts(helper.output_path@);
    let file = helper.input_files(children)[i];
    if helper.input_is_file {
        assert(file == input);
        assert(input =~= file.subrange(0, input.len() as int));
        assert(output + file.skip(input.len() as int) =~= output);
    } else {
        let name = regular_files(children)[i].name@;
        assert(file == input.push(name));
        assert(input =~= file.subrange(0, input.len() as int));
        assert(output + file.skip(input.len() as int) =~= output.push(name));
    }
}

} // verus!
