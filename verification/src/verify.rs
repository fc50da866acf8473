//! Holding a checksum set against the files on disk.
//!
//! The caller looks on disk and says what it found: for each recorded path
//! that exists, its size. The set answers which files are to be hashed:
//! those whose size is the recorded one. A file of another size is known to
//! differ, and is never hashed. Given the digests of the files that were
//! hashed, the set draws up the diff. Files on disk that the set does not
//! record play no part: verification never reports an additional file.

use vstd::prelude::*;
use crate::amount::{count_of, saturated, saturated_count};
use crate::checksum_set::{ChecksumSet, FileRecord};
use crate::diff::{ChecksumSetDiff, DiffView};
use crate::path_map::{lemma_take_next, PathMap, PathSet};
use crate::text::{key_lt, lemma_key_lt_asymmetric};
use crate::phase::{
    lemma_end_in_order, lemma_prepare_of_verify_in_order, phase_after, Phase,
};
use crate::ui::{Notification, Notifier, UiHandler};

verus! {

/// Why a checksum set was not verified.
#[derive(Debug)]
pub enum VerifyError {
    /// No digest was given for the file at `path`, which is on disk with the
    /// recorded size.
    DigestMissing { path: String },
}

/// What is to be done before the diff can be drawn up.
#[derive(Debug)]
pub struct VerifyPlan {
    /// The recorded paths whose files are to be hashed.
    pub to_hash: PathSet,
    /// The number of recorded files.
    pub file_count: u32,
    /// The sizes of the files to hash added up, at most `u64::MAX`.
    pub total_size: u64,
}

/// Whether the file at `path` has to be hashed: it is recorded, and on disk
/// with the recorded size.
pub open spec fn needs_digest(
    records: Map<Seq<char>, FileRecord>,
    sizes: Map<Seq<char>, u64>,
    path: Seq<char>,
) -> bool {
    &&& records.contains_key(path)
    &&& sizes.contains_key(path)
    &&& sizes[path] == records[path].size
}

/// The sizes of the files to hash among `paths`, added up.
pub open spec fn bytes_to_hash(
    paths: Seq<Seq<char>>,
    records: Map<Seq<char>, FileRecord>,
    sizes: Map<Seq<char>, u64>,
) -> nat
    decreases paths.len(),
{
    if paths.len() == 0 {
        0
    } else {
        let before = bytes_to_hash(paths.drop_last(), records, sizes);
        if needs_digest(records, sizes, paths.last()) {
            before + sizes[paths.last()] as nat
        } else {
            before
        }
    }
}

/// What verification finds among the recorded paths in `seen`, where `sizes`
/// holds the sizes of the files on disk and `digests` their digests.
pub open spec fn verify_within(
    records: Map<Seq<char>, FileRecord>,
    sizes: Map<Seq<char>, u64>,
    digests: Map<Seq<char>, String>,
    seen: Seq<Seq<char>>,
) -> DiffView {
    DiffView {
        additional: Set::<Seq<char>>::empty(),
        missing: Set::new(
            |k: Seq<char>| seen.contains(k) && records.contains_key(k) && !sizes.contains_key(k),
        ),
        sizes: Map::new(
            |k: Seq<char>|
                seen.contains(k) && records.contains_key(k) && sizes.contains_key(k) && sizes[k]
                    != records[k].size,
            |k: Seq<char>| (records[k].size, sizes[k]),
        ),
        hashes: Map::new(
            |k: Seq<char>|
                seen.contains(k) && needs_digest(records, sizes, k) && digests.contains_key(k)
                    && digests[k]@ != records[k].hash,
            |k: Seq<char>| (records[k].hash, digests[k]@),
        ),
    }
}

/// What verification finds: a recorded path without a file is missing, one
/// whose file has another size has a differing size, and one whose file has
/// the recorded size and another digest has a differing hash.
pub open spec fn verify_spec(
    records: Map<Seq<char>, FileRecord>,
    sizes: Map<Seq<char>, u64>,
    digests: Map<Seq<char>, String>,
) -> DiffView {
    DiffView {
        additional: Set::<Seq<char>>::empty(),
        missing: Set::new(|k: Seq<char>| records.contains_key(k) && !sizes.contains_key(k)),
        sizes: Map::new(
            |k: Seq<char>|
                records.contains_key(k) && sizes.contains_key(k) && sizes[k] != records[k].size,
            |k: Seq<char>| (records[k].size, sizes[k]),
        ),
        hashes: Map::new(
            |k: Seq<char>|
                needs_digest(records, sizes, k) && digests.contains_key(k) && digests[k]@
                    != records[k].hash,
            |k: Seq<char>| (records[k].hash, digests[k]@),
        ),
    }
}

impl ChecksumSet {
    /// Says which recorded files are to be hashed, given in `sizes` the size
    /// of each recorded file that is on disk, and how many bytes they have in
    /// all. It tells `ui` that the sizes are added up, that the total is
    /// known, and then, with the count and the total, that the hashing
    /// begins.
    pub fn verify_plan<U: UiHandler>(&self, sizes: &PathMap<u64>, ui: &mut Notifier<U>) -> (plan:
        VerifyPlan)
        requires
            self.wf(),
            sizes.wf(),
        ensures
            final(ui).sent() == old(ui).sent().push(Notification::BeginPrepare).push(
                Notification::EndPrepare,
            ).push(
                Notification::BeginVerify {
                    file_count: plan.file_count,
                    total_size: plan.total_size,
                },
            ),
            phase_after(old(ui).sent()) == Some(Phase::Idle) ==> phase_after(final(ui).sent())
                == Some(Phase::Hashing),
            plan.to_hash.wf(),
            plan.to_hash@ == Set::new(|k: Seq<char>| needs_digest(self.records(), sizes@, k)),
            plan.file_count == saturated_count(self.files.keys().len()),
            plan.total_size == saturated(
                bytes_to_hash(self.files.keys(), self.records(), sizes@),
            ),
    {
        ui.begin_prepare();
        let ghost records = self.records();
        let ghost keys = self.files.keys();
        let mut to_hash = PathSet::new();
        let mut total_size: u64 = 0;
        let n = self.files.len();
        let mut i: usize = 0;
        proof {
            assert(keys.take(0) =~= Seq::<Seq<char>>::empty());
        }
        while i < n
            invariant
                self.wf(),
                sizes.wf(),
                records == self.records(),
                keys == self.files.keys(),
                n == keys.len(),
                i <= n,
                to_hash.wf(),
                to_hash@ == Set::new(
                    |k: Seq<char>| keys.take(i as int).contains(k) && needs_digest(records, sizes@, k),
                ),
                total_size == saturated(bytes_to_hash(keys.take(i as int), records, sizes@)),
            decreases n - i,
        {
            let path = self.files.key_at(i);
            let recorded = self.files.value_at(i);
            proof {
                self.files.lemma_view();
                lemma_take_next(keys, i as int);
                assert(records.contains_key(path@));
                assert(records[path@] == recorded@);
            }
            match sizes.get(path.as_str()) {
                Some(size) => {
                    if *size == recorded.size {
                        to_hash.insert(path.clone());
                        total_size = total_size.saturating_add(*size);
                    }
                },
                None => {},
            }
            proof {
                assert(to_hash@ =~= Set::new(
                    |k: Seq<char>| keys.take(i + 1).contains(k) && needs_digest(records, sizes@, k),
                ));
            }
            i = i + 1;
        }
        proof {
            assert(keys.take(n as int) =~= keys);
            self.files.lemma_view();
            assert(to_hash@ =~= Set::new(|k: Seq<char>| needs_digest(records, sizes@, k)));
        }
        ui.end_prepare();
        let file_count = count_of(n);
        ui.begin_verify(file_count, total_size);
        proof {
            if phase_after(old(ui).sent()) == Some(Phase::Idle) {
                lemma_prepare_of_verify_in_order(old(ui).sent(), file_count, total_size);
            }
        }
        VerifyPlan { to_hash, file_count, total_size }
    }

    /// Draws up the diff between the set and the files on disk, given in
    /// `sizes` the size of each recorded file that is on disk, and in
    /// `digests` the digest of each file that was hashed.
    ///
    /// Where a file that is to be hashed has no digest, no diff is drawn up:
    /// the error names the first such path in key order. A diff that was
    /// drawn up ends the verification, and `ui` is told so.
    pub fn verify<U: UiHandler>(
        &self,
        sizes: &PathMap<u64>,
        digests: &PathMap<String>,
        ui: &mut Notifier<U>,
    ) -> (r: Result<ChecksumSetDiff, VerifyError>)
        requires
            self.wf(),
            sizes.wf(),
            digests.wf(),
        ensures
            final(ui).sent() == if r is Ok {
                old(ui).sent().push(Notification::EndVerify)
            } else {
                old(ui).sent()
            },
            r is Ok && phase_after(old(ui).sent()) == Some(Phase::Hashing) ==> phase_after(
                final(ui).sent(),
            ) == Some(Phase::Done),
            match r {
                Ok(d) => {
                    &&& d.wf()
                    &&& d@ == verify_spec(self.records(), sizes@, digests@)
                    &&& forall|k: Seq<char>|
                        needs_digest(self.records(), sizes@, k) ==> digests@.contains_key(k)
                },
                Err(VerifyError::DigestMissing { path }) => {
                    &&& needs_digest(self.records(), sizes@, path@)
                    &&& !digests@.contains_key(path@)
                    &&& forall|k: Seq<char>|
                        key_lt(k, path@) && needs_digest(self.records(), sizes@, k)
                            ==> digests@.contains_key(k)
                },
            },
    {
        let ghost records = self.records();
        let ghost keys = self.files.keys();
        let mut d = ChecksumSetDiff::new();
        let n = self.files.len();
        let mut i: usize = 0;
        proof {
            assert(keys.take(0) =~= Seq::<Seq<char>>::empty());
            assert(d@ =~= verify_within(records, sizes@, digests@, keys.take(0)));
        }
        while i < n
            invariant
                self.wf(),
                sizes.wf(),
                digests.wf(),
                records == self.records(),
                keys == self.files.keys(),
                n == keys.len(),
                i <= n,
                d.wf(),
                d@ == verify_within(records, sizes@, digests@, keys.take(i as int)),
                forall|k: Seq<char>|
                    keys.take(i as int).contains(k) && needs_digest(records, sizes@, k)
                        ==> digests@.contains_key(k),
            decreases n - i,
        {
            let path = self.files.key_at(i);
            let recorded = self.files.value_at(i);
            proof {
                self.files.lemma_view();
                lemma_take_next(keys, i as int);
                assert(records.contains_key(path@));
                assert(records[path@] == recorded@);
            }
            match sizes.get(path.as_str()) {
                None => {
                    d.missing_files.insert(path.clone());
                },
                Some(size) => {
                    if *size != recorded.size {
                        d.differing_sizes.insert(path.clone(), (recorded.size, *size));
                    } else {
                        match digests.get(path.as_str()) {
                            Some(digest) => {
                                if !(*digest == recorded.hash) {
                                    d.record_hash_mismatch(
                                        path.clone(),
                                        recorded.hash.clone(),
                                        digest.clone(),
                                    );
                                }
                            },
                            None => {
                                proof {
                                    assert forall|k: Seq<char>|
                                        key_lt(k, path@) && needs_digest(records, sizes@, k)
                                        implies digests@.contains_key(k) by {
                                        let j = choose|j: int| 0 <= j < keys.len() && keys[j] == k;
                                        if j < i {
                                            assert(keys.take(i as int)[j] == k);
                                        } else if j == i {
                                            lemma_key_lt_asymmetric(k, path@);
                                        } else {
                                            assert(key_lt(keys[i as int], keys[j]));
                                            lemma_key_lt_asymmetric(k, path@);
                                        }
                                    }
                                }
                                return Err(VerifyError::DigestMissing { path: path.clone() });
                            },
                        }
                    }
                },
            }
            proof {
                assert(d@ =~= verify_within(records, sizes@, digests@, keys.take(i + 1)));
            }
            i = i + 1;
        }
        proof {
            assert(keys.take(n as int) =~= keys);
            self.files.lemma_view();
            assert(d@ =~= verify_spec(records, sizes@, digests@));
        }
        ui.end_verify();
        proof {
            if phase_after(old(ui).sent()) == Some(Phase::Hashing) {
                lemma_end_in_order(old(ui).sent());
            }
        }
        Ok(d)
    }
}

} // verus!
