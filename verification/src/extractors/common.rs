//! What all extractors share: the result they return, the strategy value
//! that names them, and the sandbox that confines what they write.

use crate::common::str_eq;
use vstd::prelude::*;
use vstd::slice::slice_to_vec;
use vstd::utf8::encode_utf8;

verus! {

/// What an extraction returns. `size` counts the bytes of the source that
/// the extracted object takes, which need not be the bytes written; it is
/// `None` whenever `success` is false.
#[derive(Debug, Clone, Copy, PartialEq, Eq)]
pub struct ExtractionResult {
    pub success: bool,
    pub size: Option<usize>,
}

impl Default for ExtractionResult {
    /// The result of an extraction that failed.
    fn default() -> (result: ExtractionResult)
        ensures
            result == (ExtractionResult { success: false, size: None }),
    {
        ExtractionResult { success: false, size: None }
    }
}

/// The extractors that this library implements itself.
#[derive(Debug, Clone, Copy, PartialEq, Eq)]
pub enum InternalExtractor {
    /// Arcadyan's obfuscated LZMA streams.
    ObfuscatedLzma,
    /// Autel's obfuscated firmware.
    Autel,
    /// LZFSE streams.
    Lzfse,
    /// Legacy LZMA streams.
    Lzma,
}

/// How a recognized format is extracted.
#[derive(Debug, Clone, PartialEq, Eq)]
pub enum ExtractorType {
    /// The format is recognized but nothing extracts it.
    NotExtractable,
    /// One of the library's own extractors.
    Internal(InternalExtractor),
    /// The name of an external command; running it is the caller's business.
    External(String),
}

/// The description of an extractor.
#[derive(Debug, Clone, PartialEq, Eq)]
pub struct Extractor {
    pub utility: ExtractorType,
}

impl Default for Extractor {
    /// The description of a format that nothing extracts.
    fn default() -> (extractor: Extractor)
        ensures
            extractor.utility is NotExtractable,
    {
        Extractor { utility: ExtractorType::NotExtractable }
    }
}

/// Whether a byte separates the segments of a path.
pub open spec fn is_separator(byte: u8) -> bool {
    byte == 0x2F || byte == 0x5C
}

/// Whether the segment of `name` that starts at `at` is `..`: two dots,
/// with the start of the name or a separator before them and the end of the
/// name or a separator after them.
pub open spec fn is_parent_segment(name: Seq<u8>, at: int) -> bool {
    &&& 0 <= at
    &&& at + 2 <= name.len()
    &&& name[at] == 0x2E
    &&& name[at + 1] == 0x2E
    &&& (at == 0 || is_separator(name[at - 1]))
    &&& (at + 2 == name.len() || is_separator(name[at + 2]))
}

/// Whether a file name, joined to a directory, stays beneath it: the name
/// is not empty, holds no NUL byte, does not start at the root of the file
/// system, and none of its segments steps up to a parent directory.
pub open spec fn is_confined_name(name: Seq<u8>) -> bool {
    &&& name.len() > 0
    &&& !is_separator(name[0])
    &&& forall|i: int| 0 <= i < name.len() ==> name[i] != 0
    &&& forall|i: int| !is_parent_segment(name, i)
}

/// Decides whether a file name stays beneath the directory it is joined to.
pub fn name_is_confined(name: &[u8]) -> (confined: bool)
    ensures
        confined == is_confined_name(name@),
{
    let len = name.len();
    if len == 0 {
        return false;
    }
    if name[0] == 0x2F || name[0] == 0x5C {
        return false;
    }
    let mut i: usize = 0;
    while i < len
        invariant
            i <= len == name@.len(),
            forall|j: int| 0 <= j < i ==> name@[j] != 0,
            forall|j: int| j < i ==> !is_parent_segment(name@, j),
        decreases len - i,
    {
        if name[i] == 0 {
            return false;
        }
        if name[i] == 0x2E && len - i >= 2 && name[i + 1] == 0x2E {
            let starts = i == 0 || name[i - 1] == 0x2F || name[i - 1] == 0x5C;
            let ends = len - i == 2 || name[i + 2] == 0x2F || name[i + 2] == 0x5C;
            if starts && ends {
                assert(is_parent_segment(name@, i as int));
                return false;
            }
        }
        i = i + 1;
    }
    true
}

/// A file that waits in the sandbox to be written.
pub struct StagedFile {
    /// The name of the file, relative to the root of the sandbox.
    pub name: String,
    /// The bytes to write.
    pub data: Vec<u8>,
    /// Whether the bytes replace what the file held before; if not, they are
    /// added to its end.
    pub replaces: bool,
}

/// What the sandbox holds for one file name.
pub struct Staged {
    pub data: Seq<u8>,
    pub replaces: bool,
}

impl View for StagedFile {
    type V = Staged;

    open spec fn view(&self) -> Staged {
        Staged { data: self.data@, replaces: self.replaces }
    }
}

/// The files that a list of staged files holds, by name.
pub open spec fn staged_map(files: Seq<StagedFile>) -> Map<Seq<char>, Staged> {
    Map::new(
        |name: Seq<char>| exists|i: int| 0 <= i < files.len() && #[trigger] files[i].name@ == name,
        |name: Seq<char>|
            files[choose|i: int| 0 <= i < files.len() && #[trigger] files[i].name@ == name]@,
    )
}

/// Whether no two staged files have the same name.
pub open spec fn names_are_distinct(files: Seq<StagedFile>) -> bool {
    forall|i: int, j: int|
        0 <= i < files.len() && 0 <= j < files.len() && i != j ==> #[trigger] files[i].name@
            != #[trigger] files[j].name@
}

/// With distinct names, the map holds each staged file under its name.
proof fn lemma_staged_lookup(files: Seq<StagedFile>, i: int)
    requires
        names_are_distinct(files),
        0 <= i < files.len(),
    ensures
        staged_map(files).contains_key(files[i].name@),
        staged_map(files)[files[i].name@] == files[i]@,
{
    // the file that the map picks for this name can only be this one
    let name = files[i].name@;
    let j = choose|j: int| 0 <= j < files.len() && #[trigger] files[j].name@ == name;
    assert(j == i);
}

/// The sandbox: a root directory and the files that extractors have asked
/// to write beneath it. Nothing is written while an extractor runs; the
/// caller writes the staged files once the extraction is over. Every staged
/// name is confined, so no write can leave the root by its name alone.
pub struct Chroot {
    root: String,
    files: Vec<StagedFile>,
}

impl View for Chroot {
    type V = Map<Seq<char>, Staged>;

    closed spec fn view(&self) -> Map<Seq<char>, Staged> {
        staged_map(self.files@)
    }
}

impl Chroot {
    /// The invariant of the sandbox: staged names are distinct and confined.
    pub closed spec fn well_formed(&self) -> bool {
        &&& names_are_distinct(self.files@)
        &&& forall|i: int|
            0 <= i < self.files@.len() ==> is_confined_name(
                encode_utf8(#[trigger] self.files@[i].name@),
            )
    }

    /// The root directory of the sandbox.
    pub closed spec fn root_dir(&self) -> Seq<char> {
        self.root@
    }

    /// The staged files, in the order in which their names were first used.
    pub closed spec fn staged(&self) -> Seq<StagedFile> {
        self.files@
    }

    /// An empty sandbox beneath `root`.
    pub fn new(root: &str) -> (chroot: Chroot)
        ensures
            chroot.well_formed(),
            chroot.root_dir() == root@,
            chroot@ == Map::<Seq<char>, Staged>::empty(),
            chroot.staged().len() == 0,
    {
        let chroot = Chroot { root: root.to_owned(), files: Vec::new() };
        chroot
    }

    /// The root directory of the sandbox.
    pub fn root(&self) -> (root: &str)
        ensures
            root@ == self.root_dir(),
    {
        self.root.as_str()
    }

    /// Every name that the sandbox holds is confined: written beneath the
    /// root, none of them leaves it.
    pub proof fn lemma_staged_names_are_confined(&self)
        requires
            self.well_formed(),
        ensures
            forall|name: Seq<char>|
                self@.contains_key(name) ==> is_confined_name(encode_utf8(name)),
            forall|i: int|
                0 <= i < self.staged().len() ==> is_confined_name(
                    encode_utf8(#[trigger] self.staged()[i].name@),
                ),
            forall|i: int|
                0 <= i < self.staged().len() ==> self@.contains_key(
                    #[trigger] self.staged()[i].name@,
                ) && self@[self.staged()[i].name@] == self.staged()[i]@,
    {
        assert forall|i: int| 0 <= i < self.staged().len() implies self@.contains_key(
            #[trigger] self.staged()[i].name@,
        ) && self@[self.staged()[i].name@] == self.staged()[i]@ by {
            lemma_staged_lookup(self.files@, i);
        }
    }

    /// The position of the staged file called `name`, if there is one.
    fn find(&self, name: &str) -> (found: Option<usize>)
        ensures
            match found {
                Some(i) => i < self.files@.len() && self.files@[i as int].name@ == name@,
                None => forall|i: int|
                    0 <= i < self.files@.len() ==> #[trigger] self.files@[i].name@ != name@,
            },
    {
        let mut i: usize = 0;
        while i < self.files.len()
            invariant
                i <= self.files.len(),
                forall|j: int| 0 <= j < i ==> #[trigger] self.files@[j].name@ != name@,
            decreases self.files.len() - i,
        {
            if str_eq(self.files[i].name.as_str(), name) {
                return Some(i);
            }
            i = i + 1;
        }
        None
    }

    /// The number of staged files.
    pub fn file_count(&self) -> (count: usize)
        ensures
            count == self.staged().len(),
    {
        self.files.len()
    }

    /// The staged file at `index`, in the order of `staged`.
    pub fn file(&self, index: usize) -> (file: &StagedFile)
        requires
            index < self.staged().len(),
        ensures
            *file == self.staged()[index as int],
    {
        &self.files[index]
    }

    /// The bytes staged for the file called `name`, if any are.
    pub fn contents(&self, name: &str) -> (data: Option<&Vec<u8>>)
        requires
            self.well_formed(),
        ensures
            match data {
                Some(bytes) => self@.contains_key(name@) && bytes@ == self@[name@].data,
                None => !self@.contains_key(name@),
            },
    {
        match self.find(name) {
            Some(i) => {
                proof {
                    lemma_staged_lookup(self.files@, i as int);
                }
                Some(&self.files[i].data)
            },
            None => None,
        }
    }

    /// Stages `data` as the whole contents of the file called `name`: what
    /// the file held before, on disk or in the sandbox, is replaced. A name
    /// that is not confined is refused, and the sandbox stays as it was.
    pub fn create_file(&mut self, name: &str, data: &[u8]) -> (written: bool)
        requires
            old(self).well_formed(),
        ensures
            final(self).well_formed(),
            final(self).root_dir() == old(self).root_dir(),
            written == is_confined_name(encode_utf8(name@)),
            written ==> final(self)@ == old(self)@.insert(
                name@,
                Staged { data: data@, replaces: true },
            ),
            !written ==> final(self)@ == old(self)@ && final(self).staged() == old(self).staged(),
    {
        if !name_is_confined(name.as_bytes()) {
            return false;
        }
        let ghost before = self.files@;
        match self.find(name) {
            Some(i) => {
                self.files[i].data = slice_to_vec(data);
                self.files[i].replaces = true;
                proof {
                    lemma_staged_update(before, self.files@, i as int);
                }
            },
            None => {
                self.files.push(
                    StagedFile { name: name.to_owned(), data: slice_to_vec(data), replaces: true },
                );
                proof {
                    lemma_staged_push(before, self.files@);
                }
            },
        }
        true
    }

    /// Stages `data` to be added to the end of the file called `name`, which
    /// is created if it does not exist. A name that is not confined is
    /// refused, and the sandbox stays as it was.
    pub fn append_to_file(&mut self, name: &str, data: &[u8]) -> (written: bool)
        requires
            old(self).well_formed(),
        ensures
            final(self).well_formed(),
            final(self).root_dir() == old(self).root_dir(),
            written == is_confined_name(encode_utf8(name@)),
            written ==> final(self)@ == old(self)@.insert(
                name@,
                appended(old(self)@, name@, data@),
            ),
            !written ==> final(self)@ == old(self)@ && final(self).staged() == old(self).staged(),
    {
        if !name_is_confined(name.as_bytes()) {
            return false;
        }
        let ghost before = self.files@;
        match self.find(name) {
            Some(i) => {
                proof {
                    lemma_staged_lookup(before, i as int);
                }
                self.files[i].data.extend_from_slice(data);
                proof {
                    assert(self.files@[i as int].data@ =~= before[i as int].data@ + data@);
                    lemma_staged_update(before, self.files@, i as int);
                }
            },
            None => {
                self.files.push(
                    StagedFile { name: name.to_owned(), data: slice_to_vec(data), replaces: false },
                );
                proof {
                    lemma_staged_push(before, self.files@);
                }
            },
        }
        true
    }
}

/// What a file holds in the sandbox after `data` were added to its end: a
/// file that was not staged before is staged as an addition to whatever the
/// disk holds under its name.
pub open spec fn appended(staged: Map<Seq<char>, Staged>, name: Seq<char>, data: Seq<u8>) -> Staged {
    if staged.contains_key(name) {
        Staged { data: staged[name].data + data, replaces: staged[name].replaces }
    } else {
        Staged { data: data, replaces: false }
    }
}

/// Changing what one staged file holds changes the map at its name alone.
proof fn lemma_staged_update(before: Seq<StagedFile>, after: Seq<StagedFile>, at: int)
    requires
        names_are_distinct(before),
        0 <= at < before.len(),
        after.len() == before.len(),
        after[at].name@ == before[at].name@,
        forall|j: int| 0 <= j < before.len() && j != at ==> after[j] == before[j],
    ensures
        names_are_distinct(after),
        staged_map(after) =~= staged_map(before).insert(before[at].name@, after[at]@),
        forall|j: int| 0 <= j < after.len() ==> #[trigger] after[j].name@ == before[j].name@,
{
    assert(names_are_distinct(after));
    let target = staged_map(before).insert(before[at].name@, after[at]@);
    assert forall|name: Seq<char>| staged_map(after).contains_key(name) implies #[trigger]
        target.contains_key(name) && staged_map(after)[name] == target[name] by {
        let j = choose|j: int| 0 <= j < after.len() && #[trigger] after[j].name@ == name;
        lemma_staged_lookup(after, j);
        if j != at {
            lemma_staged_lookup(before, j);
        }
    }
}

/// Staging a file under a new name adds it to the map.
proof fn lemma_staged_push(before: Seq<StagedFile>, after: Seq<StagedFile>)
    requires
        names_are_distinct(before),
        after.len() == before.len() + 1,
        forall|j: int| 0 <= j < before.len() ==> after[j] == before[j],
        forall|j: int| 0 <= j < before.len() ==> #[trigger] before[j].name@ != after.last().name@,
    ensures
        names_are_distinct(after),
        staged_map(after) =~= staged_map(before).insert(after.last().name@, after.last()@),
{
    assert(names_are_distinct(after));
    let target = staged_map(before).insert(after.last().name@, after.last()@);
    assert forall|name: Seq<char>| staged_map(after).contains_key(name) implies #[trigger]
        target.contains_key(name) && staged_map(after)[name] == target[name] by {
        let j = choose|j: int| 0 <= j < after.len() && #[trigger] after[j].name@ == name;
        lemma_staged_lookup(after, j);
        if j < before.len() {
            lemma_staged_lookup(before, j);
        }
    }
}

} // verus!
