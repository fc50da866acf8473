//! The checksum set: the algorithm it was built with, and for each file the
//! size and the digest that were recorded.

use vstd::prelude::*;
use crate::hash_type::HashType;
use crate::path_map::PathMap;

verus! {

/// What a checksum set records of one file.
#[derive(Debug)]
pub struct FileInfo {
    /// The size of the file in bytes.
    pub size: u64,
    /// The digest of the file's content, in hexadecimal.
    pub hash: String,
}

/// What a checksum set records of one file, as a mathematical value.
pub struct FileRecord {
    pub size: u64,
    pub hash: Seq<char>,
}

impl View for FileInfo {
    type V = FileRecord;

    open spec fn view(&self) -> FileRecord {
        FileRecord { size: self.size, hash: self.hash@ }
    }
}

impl Clone for FileInfo {
    fn clone(&self) -> (r: Self)
        ensures
            r == *self,
    {
        FileInfo { size: self.size, hash: self.hash.clone() }
    }
}

/// A manifest: the digests of a set of files, each under its path relative
/// to the root of the set, all of one algorithm.
#[derive(Debug)]
pub struct ChecksumSet {
    /// The algorithm of every digest in the set.
    pub hash_type: HashType,
    /// What is recorded, by path.
    pub files: PathMap<FileInfo>,
}

impl ChecksumSet {
    /// The invariant of the type.
    pub open spec fn wf(&self) -> bool {
        self.files.wf()
    }

    /// What the set records, by path.
    pub open spec fn records(&self) -> Map<Seq<char>, FileRecord> {
        self.files@.map_values(|f: FileInfo| f@)
    }

    /// A set for `hash_type` that records nothing.
    pub fn new(hash_type: HashType) -> (s: Self)
        ensures
            s.wf(),
            s.hash_type == hash_type,
            s.records() == Map::<Seq<char>, FileRecord>::empty(),
    {
        let s = ChecksumSet { hash_type, files: PathMap::new() };
        proof {
            assert(s.records() =~= Map::<Seq<char>, FileRecord>::empty());
        }
        s
    }

    /// The number of files recorded.
    pub fn len(&self) -> (n: usize)
        ensures
            n == self.files.keys().len(),
    {
        self.files.len()
    }

    /// Records `info` under `path`, in place of what was recorded there.
    pub fn insert(&mut self, path: String, info: FileInfo)
        requires
            old(self).wf(),
        ensures
            final(self).wf(),
            final(self).hash_type == old(self).hash_type,
            final(self).records() == old(self).records().insert(path@, info@),
    {
        self.files.insert(path, info);
        proof {
            assert(self.records() =~= old(self).records().insert(path@, info@));
        }
    }

    /// What is recorded under `path`, if anything.
    pub fn get(&self, path: &str) -> (r: Option<&FileInfo>)
        requires
            self.wf(),
        ensures
            match r {
                Some(info) => self.records().contains_key(path@) && info@ == self.records()[path@],
                None => !self.records().contains_key(path@),
            },
    {
        self.files.get(path)
    }
}

} // verus!
