//! Building a checksum set from candidate files.
//!
//! The builder collects the candidates, each with the size that was found
//! for it. Before anything is hashed it says which of them lie under the
//! root, and so are to be hashed, and how many bytes there are in all. Given
//! the digests, it assembles the set: each candidate under the root is
//! recorded under its key, a later one in place of an earlier one with the
//! same key. Candidates outside the root are left out and stop nothing.

use vstd::prelude::*;
use crate::amount::{count_of, saturated, saturated_count};
use crate::checksum_set::{ChecksumSet, FileInfo, FileRecord};
use crate::hash_type::HashType;
use crate::path::{
    components, components_spec, is_plain_name, join_spec, key_under, key_under_spec,
    lemma_components_are_plain, texts,
};
use crate::path_map::PathMap;
use crate::text::string_texts;
use crate::phase::{
    lemma_end_in_order, lemma_prepare_of_build_in_order, phase_after, Phase,
};
use crate::ui::{Notification, Notifier, UiHandler};

verus! {

/// A file that may go into the set: its path and its size in bytes.
pub struct Candidate {
    pub path: Seq<char>,
    pub size: u64,
}

/// A candidate as the builder holds it.
#[derive(Debug)]
struct BuilderFileInfo {
    path: String,
    size: u64,
}

impl BuilderFileInfo {
    spec fn candidate(self) -> Candidate {
        Candidate { path: self.path@, size: self.size }
    }
}

/// Why no checksum set was built.
#[derive(Debug)]
pub enum BuildError {
    /// No digest was given for the file at `path`, which lies under the root.
    DigestMissing { path: String },
}

/// What is to be done before a set can be assembled.
#[derive(Debug)]
pub struct BuildPlan {
    /// The paths of the candidates to hash: those under the root, in the
    /// order in which they were added.
    pub to_hash: Vec<String>,
    /// The paths of the candidates that lie outside the root and are left out.
    pub skipped: Vec<String>,
    /// The number of candidates.
    pub file_count: u32,
    /// The sizes of all the candidates added up, at most `u64::MAX`.
    pub total_size: u64,
}

/// The sizes of the candidates added up.
pub open spec fn total_size_spec(candidates: Seq<Candidate>) -> nat
    decreases candidates.len(),
{
    if candidates.len() == 0 {
        0
    } else {
        total_size_spec(candidates.drop_last()) + candidates.last().size as nat
    }
}

/// The paths of the candidates under the root if `inside`, of those outside
/// it if not, in the order of the candidates.
pub open spec fn paths_by_side(
    candidates: Seq<Candidate>,
    root: Seq<Seq<char>>,
    separator: char,
    inside: bool,
) -> Seq<Seq<char>>
    decreases candidates.len(),
{
    if candidates.len() == 0 {
        Seq::<Seq<char>>::empty()
    } else {
        let before = paths_by_side(candidates.drop_last(), root, separator, inside);
        let path = candidates.last().path;
        if (key_under_spec(path, root, separator) is Some) == inside {
            before.push(path)
        } else {
            before
        }
    }
}

/// Whether candidate `i` lies under the root and has no digest.
pub open spec fn lacks_digest(
    candidates: Seq<Candidate>,
    root: Seq<Seq<char>>,
    separator: char,
    digests: Map<Seq<char>, String>,
    i: int,
) -> bool {
    &&& 0 <= i < candidates.len()
    &&& key_under_spec(candidates[i].path, root, separator) is Some
    &&& !digests.contains_key(candidates[i].path)
}

/// What the set records once the candidates are taken in their order: each
/// one under the root is recorded under its key, with its size and the
/// digest given for its path.
pub open spec fn built_records(
    candidates: Seq<Candidate>,
    root: Seq<Seq<char>>,
    separator: char,
    digests: Map<Seq<char>, String>,
) -> Map<Seq<char>, FileRecord>
    decreases candidates.len(),
{
    if candidates.len() == 0 {
        Map::<Seq<char>, FileRecord>::empty()
    } else {
        let before = built_records(candidates.drop_last(), root, separator, digests);
        let last = candidates.last();
        match key_under_spec(last.path, root, separator) {
            Some(key) => before.insert(
                key,
                FileRecord { size: last.size, hash: digests[last.path]@ },
            ),
            None => before,
        }
    }
}

/// Collects candidate files and builds a checksum set of them.
#[derive(Debug)]
pub struct ChecksumSetBuilder {
    hash_type: HashType,
    root: Vec<Vec<char>>,
    separator: char,
    files: Vec<BuilderFileInfo>,
}

impl ChecksumSetBuilder {
    /// The algorithm of the set to build.
    pub closed spec fn hash_type(&self) -> HashType {
        self.hash_type
    }

    /// The components of the root.
    pub closed spec fn root(&self) -> Seq<Seq<char>> {
        texts(self.root@)
    }

    /// The separator of the platform's paths.
    pub closed spec fn separator(&self) -> char {
        self.separator
    }

    /// The candidates, in the order in which they were added.
    pub closed spec fn candidates(&self) -> Seq<Candidate> {
        self.files@.map_values(|f: BuilderFileInfo| f.candidate())
    }

    /// A builder without candidates, for a set of `hash_type` whose keys are
    /// relative to `root_path`. Besides `/`, `separator` parts the
    /// components of paths.
    pub fn new(hash_type: HashType, root_path: &str, separator: char) -> (b: Self)
        ensures
            b.hash_type() == hash_type,
            b.root() == components_spec(root_path@, separator),
            b.separator() == separator,
            b.candidates() == Seq::<Candidate>::empty(),
    {
        let b = ChecksumSetBuilder {
            hash_type,
            root: components(root_path, separator),
            separator,
            files: Vec::new(),
        };
        proof {
            assert(b.candidates() =~= Seq::<Candidate>::empty());
        }
        b
    }

    /// Adds the file at `path` to the candidates, with the size that was
    /// found for it. A file whose size could not be found counts as empty.
    pub fn add_file(&mut self, path: &str, size: Option<u64>)
        ensures
            final(self).hash_type() == old(self).hash_type(),
            final(self).root() == old(self).root(),
            final(self).separator() == old(self).separator(),
            final(self).candidates() == old(self).candidates().push(
                Candidate { path: path@, size: size.unwrap_or(0) },
            ),
    {
        let size = match size {
            Some(size) => size,
            None => 0,
        };
        self.files.push(BuilderFileInfo { path: path.to_owned(), size });
        proof {
            assert(self.candidates() =~= old(self).candidates().push(
                Candidate { path: path@, size },
            ));
        }
    }

    /// Says what is to be hashed, and how much: the candidates under the
    /// root, those outside it, the number of candidates and their total
    /// size. It tells `ui` that the sizes are added up, that the total is
    /// known, and then, with the count and the total, that the hashing
    /// begins.
    pub fn prepare<U: UiHandler>(&self, ui: &mut Notifier<U>) -> (plan: BuildPlan)
        ensures
            final(ui).sent() == old(ui).sent().push(Notification::BeginPrepare).push(
                Notification::EndPrepare,
            ).push(
                Notification::BeginGenerate {
                    file_count: plan.file_count,
                    total_size: plan.total_size,
                },
            ),
            phase_after(old(ui).sent()) == Some(Phase::Idle) ==> phase_after(final(ui).sent())
                == Some(Phase::Hashing),
            string_texts(plan.to_hash@) == paths_by_side(
                self.candidates(),
                self.root(),
                self.separator(),
                true,
            ),
            string_texts(plan.skipped@) == paths_by_side(
                self.candidates(),
                self.root(),
                self.separator(),
                false,
            ),
            plan.file_count == saturated_count(self.candidates().len()),
            plan.total_size == saturated(total_size_spec(self.candidates())),
    {
        ui.begin_prepare();
        let ghost all = self.candidates();
        let ghost root = self.root();
        let separator = self.separator;
        let mut to_hash: Vec<String> = Vec::new();
        let mut skipped: Vec<String> = Vec::new();
        let mut total_size: u64 = 0;
        let mut i: usize = 0;
        proof {
            assert(all.take(0) =~= Seq::<Candidate>::empty());
            assert(string_texts(to_hash@) =~= Seq::<Seq<char>>::empty());
            assert(string_texts(skipped@) =~= Seq::<Seq<char>>::empty());
        }
        while i < self.files.len()
            invariant
                i <= self.files.len(),
                all == self.candidates(),
                root == self.root(),
                separator == self.separator(),
                string_texts(to_hash@) == paths_by_side(all.take(i as int), root, separator, true),
                string_texts(skipped@) == paths_by_side(all.take(i as int), root, separator, false),
                total_size == saturated(total_size_spec(all.take(i as int))),
            decreases self.files.len() - i,
        {
            let file = &self.files[i];
            let ghost hashed = string_texts(to_hash@);
            let ghost left_out = string_texts(skipped@);
            proof {
                assert(all.take(i + 1).drop_last() =~= all.take(i as int));
                assert(all.take(i + 1).last() == file.candidate());
            }
            match key_under(file.path.as_str(), &self.root, separator) {
                Ok(_) => {
                    to_hash.push(file.path.clone());
                    proof {
                        assert(string_texts(to_hash@) =~= hashed.push(file.path@));
                    }
                },
                Err(_) => {
                    skipped.push(file.path.clone());
                    proof {
                        assert(string_texts(skipped@) =~= left_out.push(file.path@));
                    }
                },
            }
            total_size = total_size.saturating_add(file.size);
            i = i + 1;
        }
        proof {
            assert(all.take(i as int) =~= all);
        }
        ui.end_prepare();
        let file_count = count_of(self.files.len());
        ui.begin_generate(file_count, total_size);
        proof {
            if phase_after(old(ui).sent()) == Some(Phase::Idle) {
                lemma_prepare_of_build_in_order(old(ui).sent(), file_count, total_size);
            }
        }
        BuildPlan { to_hash, skipped, file_count, total_size }
    }

    /// Assembles the checksum set from the candidates and the digests of
    /// their files, which `digests` holds by path.
    ///
    /// Each candidate under the root is recorded under its key, in the
    /// order of the candidates, so that of two with one key the later
    /// stays. A candidate outside the root is left out, so that every key
    /// of the set names a place under the root. Where a candidate under the
    /// root has no digest, nothing is built: the error names the first such
    /// candidate. A set that was built is announced to `ui`.
    pub fn build<U: UiHandler>(&self, digests: &PathMap<String>, ui: &mut Notifier<U>) -> (r:
        Result<ChecksumSet, BuildError>)
        requires
            digests.wf(),
        ensures
            final(ui).sent() == if r is Ok {
                old(ui).sent().push(Notification::EndGenerate)
            } else {
                old(ui).sent()
            },
            r is Ok && phase_after(old(ui).sent()) == Some(Phase::Hashing) ==> phase_after(
                final(ui).sent(),
            ) == Some(Phase::Done),
            match r {
                Ok(set) => {
                    &&& set.wf()
                    &&& set.hash_type == self.hash_type()
                    &&& set.records() == built_records(
                        self.candidates(),
                        self.root(),
                        self.separator(),
                        digests@,
                    )
                    &&& forall|i: int|
                        !lacks_digest(
                            self.candidates(),
                            self.root(),
                            self.separator(),
                            digests@,
                            i,
                        )
                    &&& forall|key: Seq<char>| #[trigger]
                        set.records().contains_key(key) ==> is_portable_key(
                            key,
                            self.separator(),
                        )
                },
                Err(BuildError::DigestMissing { path }) => exists|i: int|
                    {
                        &&& #[trigger] lacks_digest(
                            self.candidates(),
                            self.root(),
                            self.separator(),
                            digests@,
                            i,
                        )
                        &&& path@ == self.candidates()[i].path
                        &&& forall|j: int|
                            0 <= j < i ==> !lacks_digest(
                                self.candidates(),
                                self.root(),
                                self.separator(),
                                digests@,
                                j,
                            )
                    },
            },
    {
        let ghost all = self.candidates();
        let ghost root = self.root();
        let separator = self.separator;
        let mut set = ChecksumSet::new(self.hash_type);
        let mut i: usize = 0;
        proof {
            assert(all.take(0) =~= Seq::<Candidate>::empty());
        }
        while i < self.files.len()
            invariant
                i <= self.files.len(),
                digests.wf(),
                all == self.candidates(),
                root == self.root(),
                separator == self.separator(),
                set.wf(),
                set.hash_type == self.hash_type(),
                set.records() == built_records(all.take(i as int), root, separator, digests@),
                forall|j: int| 0 <= j < i ==> !lacks_digest(all, root, separator, digests@, j),
            decreases self.files.len() - i,
        {
            let file = &self.files[i];
            proof {
                assert(all.take(i + 1).drop_last() =~= all.take(i as int));
                assert(all.take(i + 1).last() == file.candidate());
                assert(all[i as int] == file.candidate());
            }
            match key_under(file.path.as_str(), &self.root, separator) {
                Ok(key) => {
                    match digests.get(file.path.as_str()) {
                        Some(digest) => {
                            set.insert(key, FileInfo { size: file.size, hash: digest.clone() });
                        },
                        None => {
                            proof {
                                assert(lacks_digest(all, root, separator, digests@, i as int));
                            }
                            return Err(BuildError::DigestMissing { path: file.path.clone() });
                        },
                    }
                },
                Err(_) => {},
            }
            i = i + 1;
        }
        proof {
            assert(all.take(i as int) =~= all);
            lemma_built_keys_are_portable(all, root, separator, digests@);
        }
        ui.end_generate();
        proof {
            if phase_after(old(ui).sent()) == Some(Phase::Hashing) {
                lemma_end_in_order(old(ui).sent());
            }
        }
        Ok(set)
    }
}

/// Whether `key` can stand in a set built under a root: it is made of plain
/// names joined by `/`, so that it names a place under the root and nothing
/// above it.
pub open spec fn is_portable_key(key: Seq<char>, separator: char) -> bool {
    exists|names: Seq<Seq<char>>|
        {
            &&& #[trigger] join_spec(names) == key
            &&& forall|i: int| 0 <= i < names.len() ==> is_plain_name(#[trigger] names[i], separator)
        }
}

/// Every key of a path under a root is portable.
pub proof fn lemma_key_is_portable(path: Seq<char>, root: Seq<Seq<char>>, separator: char)
    requires
        key_under_spec(path, root, separator) is Some,
    ensures
        is_portable_key(key_under_spec(path, root, separator)->0, separator),
{
    let all = components_spec(path, separator);
    let names = all.skip(root.len() as int);
    lemma_components_are_plain(path, separator);
    assert forall|i: int| 0 <= i < names.len() implies is_plain_name(
        #[trigger] names[i],
        separator,
    ) by {
        assert(names[i] == all[i + root.len()]);
    }
    assert(join_spec(names) == key_under_spec(path, root, separator)->0);
}

/// A set records files under portable keys only, whatever candidates it was
/// built from: no candidate brings a key into the set that leads out of the
/// root.
pub proof fn lemma_built_keys_are_portable(
    candidates: Seq<Candidate>,
    root: Seq<Seq<char>>,
    separator: char,
    digests: Map<Seq<char>, String>,
)
    ensures
        forall|key: Seq<char>| #[trigger]
            built_records(candidates, root, separator, digests).contains_key(key)
                ==> is_portable_key(key, separator),
    decreases candidates.len(),
{
    if candidates.len() > 0 {
        let before = built_records(candidates.drop_last(), root, separator, digests);
        let after = built_records(candidates, root, separator, digests);
        lemma_built_keys_are_portable(candidates.drop_last(), root, separator, digests);
        let path = candidates.last().path;
        if key_under_spec(path, root, separator) is Some {
            lemma_key_is_portable(path, root, separator);
        }
        assert forall|key: Seq<char>| #[trigger] after.contains_key(key) implies is_portable_key(
            key,
            separator,
        ) by {
            if !before.contains_key(key) {
                assert(key_under_spec(path, root, separator) == Some(key));
            }
        }
    }
}

/// A candidate outside the root leaves no trace in the set: the set is the
/// one built without it.
pub proof fn lemma_outside_candidate_is_left_out(
    candidates: Seq<Candidate>,
    outside: Candidate,
    root: Seq<Seq<char>>,
    separator: char,
    digests: Map<Seq<char>, String>,
)
    requires
        key_under_spec(outside.path, root, separator) is None,
    ensures
        built_records(candidates.push(outside), root, separator, digests) == built_records(
            candidates,
            root,
            separator,
            digests,
        ),
        forall|i: int|
            lacks_digest(candidates.push(outside), root, separator, digests, i) ==> lacks_digest(
                candidates,
                root,
                separator,
                digests,
                i,
            ),
{
    assert(candidates.push(outside).drop_last() =~= candidates);
    assert forall|i: int|
        lacks_digest(candidates.push(outside), root, separator, digests, i) implies lacks_digest(
        candidates,
        root,
        separator,
        digests,
        i,
    ) by {
        if i < candidates.len() {
            assert(candidates.push(outside)[i] == candidates[i]);
        }
    }
}

} // verus!
