//! Comparing two checksum sets.
//!
//! The set on which `diff` is called is the baseline, the other the
//! candidate. A path that only the baseline records is additional, a path
//! that only the candidate records is missing. A path in both is held by its
//! size first: where the sizes differ the digests are not looked at.

use vstd::prelude::*;
use crate::checksum_set::{ChecksumSet, FileRecord};
use crate::hash_type::HashType;
use crate::path_map::{lemma_take_next, PathMap, PathSet};
use crate::phase::{lemma_phase_after_push, phase_after};
use crate::ui::{Notification, Notifier, UiHandler};

verus! {

/// Why two checksum sets were not compared.
#[derive(Clone, Copy, Debug, PartialEq, Eq, Structural)]
pub enum DiffError {
    /// The sets were built with different algorithms, so their digests say
    /// nothing of each other.
    HashTypeMismatch { ours: HashType, theirs: HashType },
}

/// The differences between a checksum set and another set, or the files on disk.
#[derive(Debug)]
pub struct ChecksumSetDiff {
    /// The paths that only the baseline records.
    pub additional_files: PathSet,
    /// The paths that the baseline lacks.
    pub missing_files: PathSet,
    /// The paths that both sides have with different sizes: the size on
    /// either side, the baseline's first.
    pub differing_sizes: PathMap<(u64, u64)>,
    /// The paths that both sides have with one size and different digests:
    /// the digest on either side, the baseline's first.
    pub differing_hashes: PathMap<(String, String)>,
}

/// A diff as a mathematical value.
#[verifier::ext_equal]
pub struct DiffView {
    pub additional: Set<Seq<char>>,
    pub missing: Set<Seq<char>>,
    pub sizes: Map<Seq<char>, (u64, u64)>,
    pub hashes: Map<Seq<char>, (Seq<char>, Seq<char>)>,
}

impl DiffView {
    /// Whether the diff reports any difference.
    pub open spec fn is_different(self) -> bool {
        ||| self.additional != Set::<Seq<char>>::empty()
        ||| self.missing != Set::<Seq<char>>::empty()
        ||| self.sizes != Map::<Seq<char>, (u64, u64)>::empty()
        ||| self.hashes != Map::<Seq<char>, (Seq<char>, Seq<char>)>::empty()
    }
}

/// The texts of a pair of digests.
pub open spec fn hash_pair_view(p: (String, String)) -> (Seq<char>, Seq<char>) {
    (p.0@, p.1@)
}

/// The differences between the records `a` of a baseline and the records `b`
/// of a candidate.
pub open spec fn diff_spec(a: Map<Seq<char>, FileRecord>, b: Map<Seq<char>, FileRecord>) -> DiffView {
    DiffView {
        additional: Set::new(|k: Seq<char>| a.contains_key(k) && !b.contains_key(k)),
        missing: Set::new(|k: Seq<char>| b.contains_key(k) && !a.contains_key(k)),
        sizes: Map::new(
            |k: Seq<char>| a.contains_key(k) && b.contains_key(k) && a[k].size != b[k].size,
            |k: Seq<char>| (a[k].size, b[k].size),
        ),
        hashes: Map::new(
            |k: Seq<char>|
                a.contains_key(k) && b.contains_key(k) && a[k].size == b[k].size && a[k].hash
                    != b[k].hash,
            |k: Seq<char>| (a[k].hash, b[k].hash),
        ),
    }
}

/// The differences between the records `a` and `b` among the paths in `seen`.
pub open spec fn diff_within(
    a: Map<Seq<char>, FileRecord>,
    b: Map<Seq<char>, FileRecord>,
    seen: Seq<Seq<char>>,
) -> DiffView {
    DiffView {
        additional: Set::new(|k: Seq<char>| seen.contains(k) && a.contains_key(k) && !b.contains_key(k)),
        missing: Set::new(|k: Seq<char>| seen.contains(k) && b.contains_key(k) && !a.contains_key(k)),
        sizes: Map::new(
            |k: Seq<char>|
                seen.contains(k) && a.contains_key(k) && b.contains_key(k) && a[k].size
                    != b[k].size,
            |k: Seq<char>| (a[k].size, b[k].size),
        ),
        hashes: Map::new(
            |k: Seq<char>|
                seen.contains(k) && a.contains_key(k) && b.contains_key(k) && a[k].size
                    == b[k].size && a[k].hash != b[k].hash,
            |k: Seq<char>| (a[k].hash, b[k].hash),
        ),
    }
}

impl ChecksumSetDiff {
    /// The invariant of the type.
    pub open spec fn wf(&self) -> bool {
        &&& self.additional_files.wf()
        &&& self.missing_files.wf()
        &&& self.differing_sizes.wf()
        &&& self.differing_hashes.wf()
    }

    /// The diff as a mathematical value.
    pub open spec fn view(&self) -> DiffView {
        DiffView {
            additional: self.additional_files@,
            missing: self.missing_files@,
            sizes: self.differing_sizes@,
            hashes: self.differing_hashes@.map_values(|p: (String, String)| hash_pair_view(p)),
        }
    }

    /// A diff that reports no difference.
    pub fn new() -> (d: Self)
        ensures
            d.wf(),
            d@.additional == Set::<Seq<char>>::empty(),
            d@.missing == Set::<Seq<char>>::empty(),
            d@.sizes == Map::<Seq<char>, (u64, u64)>::empty(),
            d@.hashes == Map::<Seq<char>, (Seq<char>, Seq<char>)>::empty(),
            !d@.is_different(),
    {
        let d = ChecksumSetDiff {
            additional_files: PathSet::new(),
            missing_files: PathSet::new(),
            differing_sizes: PathMap::new(),
            differing_hashes: PathMap::new(),
        };
        proof {
            assert(d@.hashes =~= Map::<Seq<char>, (Seq<char>, Seq<char>)>::empty());
        }
        d
    }

    /// Whether the diff reports any difference: whether any of its four
    /// collections holds anything.
    pub fn is_different(&self) -> (b: bool)
        ensures
            b == self@.is_different(),
    {
        let hashes_empty = self.differing_hashes.is_empty();
        proof {
            let hashes = self.differing_hashes@;
            if hashes_empty {
                assert(self@.hashes =~= Map::<Seq<char>, (Seq<char>, Seq<char>)>::empty());
            } else {
                if self@.hashes == Map::<Seq<char>, (Seq<char>, Seq<char>)>::empty() {
                    assert forall|k: Seq<char>| !hashes.contains_key(k) by {
                        if hashes.contains_key(k) {
                            assert(self@.hashes.contains_key(k));
                        }
                    }
                    assert(hashes =~= Map::<Seq<char>, (String, String)>::empty());
                }
            }
        }
        !self.additional_files.is_empty() || !self.missing_files.is_empty()
            || !self.differing_sizes.is_empty() || !hashes_empty
    }

    /// Records that `path` has the digest `ours` in the baseline and `theirs`
    /// on the other side.
    pub fn record_hash_mismatch(&mut self, path: String, ours: String, theirs: String)
        requires
            old(self).wf(),
        ensures
            final(self).wf(),
            final(self)@ == (DiffView {
                hashes: old(self)@.hashes.insert(path@, (ours@, theirs@)),
                ..old(self)@
            }),
    {
        self.differing_hashes.insert(path, (ours, theirs));
        proof {
            assert(self@.hashes =~= old(self)@.hashes.insert(path@, (ours@, theirs@)));
        }
    }
}

impl ChecksumSet {
    /// Compares the set, as the baseline, with `other`, the candidate.
    ///
    /// Sets of different algorithms are not compared: the result is then the
    /// error, and no diff. A comparison is announced to `ui` when it begins
    /// and when it has ended.
    pub fn diff<U: UiHandler>(&self, other: &ChecksumSet, ui: &mut Notifier<U>) -> (r: Result<
        ChecksumSetDiff,
        DiffError,
    >)
        requires
            self.wf(),
            other.wf(),
        ensures
            phase_after(final(ui).sent()) == phase_after(old(ui).sent()),
            match r {
                Ok(d) => {
                    &&& self.hash_type == other.hash_type
                    &&& d.wf()
                    &&& d@ == diff_spec(self.records(), other.records())
                    &&& final(ui).sent() == old(ui).sent().push(Notification::BeginDiff).push(
                        Notification::EndDiff,
                    )
                },
                Err(e) => {
                    &&& self.hash_type != other.hash_type
                    &&& e == (DiffError::HashTypeMismatch {
                        ours: self.hash_type,
                        theirs: other.hash_type,
                    })
                    &&& final(ui).sent() == old(ui).sent()
                },
            },
    {
        if other.hash_type != self.hash_type {
            return Err(
                DiffError::HashTypeMismatch { ours: self.hash_type, theirs: other.hash_type },
            );
        }
        ui.begin_diff();

        let ghost a = self.records();
        let ghost b = other.records();
        let mut d = ChecksumSetDiff::new();
        proof {
            self.files.lemma_view();
            other.files.lemma_view();
        }

        let n = self.files.len();
        let mut i: usize = 0;
        while i < n
            invariant
                self.wf(),
                other.wf(),
                a == self.records(),
                b == other.records(),
                n == self.files.keys().len(),
                i <= n,
                d.wf(),
                d@.additional == diff_within(a, b, self.files.keys().take(i as int)).additional,
                d@.missing == Set::<Seq<char>>::empty(),
                d@.sizes == Map::<Seq<char>, (u64, u64)>::empty(),
                d@.hashes == Map::<Seq<char>, (Seq<char>, Seq<char>)>::empty(),
            decreases n - i,
        {
            let path = self.files.key_at(i);
            let ghost seen2 = self.files.keys().take(i + 1);
            proof {
                self.files.lemma_view();
                lemma_take_next(self.files.keys(), i as int);
                assert(a.contains_key(path@));
            }
            if !other.files.contains_key(path.as_str()) {
                d.additional_files.insert(path.clone());
            }
            proof {
                assert(d@.additional =~= diff_within(a, b, seen2).additional);
            }
            i = i + 1;
        }
        proof {
            assert(self.files.keys().take(n as int) =~= self.files.keys());
            assert(d@.additional =~= diff_spec(a, b).additional);
        }

        let m = other.files.len();
        let mut j: usize = 0;
        while j < m
            invariant
                self.wf(),
                other.wf(),
                a == self.records(),
                b == other.records(),
                m == other.files.keys().len(),
                j <= m,
                d.wf(),
                d@.additional == diff_spec(a, b).additional,
                d@.missing == diff_within(a, b, other.files.keys().take(j as int)).missing,
                d@.sizes == diff_within(a, b, other.files.keys().take(j as int)).sizes,
                d@.hashes == diff_within(a, b, other.files.keys().take(j as int)).hashes,
            decreases m - j,
        {
            let path = other.files.key_at(j);
            let theirs = other.files.value_at(j);
            let ghost seen2 = other.files.keys().take(j + 1);
            proof {
                other.files.lemma_view();
                lemma_take_next(other.files.keys(), j as int);
                assert(b.contains_key(path@));
                assert(b[path@] == theirs@);
            }
            match self.files.get(path.as_str()) {
                Some(ours) => {
                    if theirs.size != ours.size {
                        d.differing_sizes.insert(path.clone(), (ours.size, theirs.size));
                    } else if !(theirs.hash == ours.hash) {
                        d.record_hash_mismatch(path.clone(), ours.hash.clone(), theirs.hash.clone());
                    }
                },
                None => {
                    d.missing_files.insert(path.clone());
                },
            }
            proof {
                assert(d@.missing =~= diff_within(a, b, seen2).missing);
                assert(d@.sizes =~= diff_within(a, b, seen2).sizes);
                assert(d@.hashes =~= diff_within(a, b, seen2).hashes);
            }
            j = j + 1;
        }
        proof {
            assert(other.files.keys().take(m as int) =~= other.files.keys());
            assert(d@.missing =~= diff_spec(a, b).missing);
            assert(d@.sizes =~= diff_spec(a, b).sizes);
            assert(d@.hashes =~= diff_spec(a, b).hashes);
        }

        ui.end_diff();
        proof {
            let begun = old(ui).sent().push(Notification::BeginDiff);
            lemma_phase_after_push(old(ui).sent(), Notification::BeginDiff);
            lemma_phase_after_push(begun, Notification::EndDiff);
        }
        Ok(d)
    }
}

/// A checksum set compared with itself shows no difference.
pub proof fn lemma_diff_with_self_is_empty(a: ChecksumSet)
    requires
        a.wf(),
    ensures
        !diff_spec(a.records(), a.records()).is_different(),
{
    let d = diff_spec(a.records(), a.records());
    assert(d.additional =~= Set::<Seq<char>>::empty());
    assert(d.missing =~= Set::<Seq<char>>::empty());
    assert(d.sizes =~= Map::<Seq<char>, (u64, u64)>::empty());
    assert(d.hashes =~= Map::<Seq<char>, (Seq<char>, Seq<char>)>::empty());
}

/// What a comparison calls additional, the comparison the other way round
/// calls missing, and the reverse.
pub proof fn lemma_diff_swapped(a: ChecksumSet, b: ChecksumSet)
    requires
        a.wf(),
        b.wf(),
    ensures
        diff_spec(a.records(), b.records()).additional == diff_spec(
            b.records(),
            a.records(),
        ).missing,
        diff_spec(a.records(), b.records()).missing == diff_spec(
            b.records(),
            a.records(),
        ).additional,
{
    let ab = diff_spec(a.records(), b.records());
    let ba = diff_spec(b.records(), a.records());
    assert(ab.additional =~= ba.missing);
    assert(ab.missing =~= ba.additional);
}

/// A path that both sets record with different sizes has a differing size,
/// with the two sizes, and no differing hash, whatever the digests are.
pub proof fn lemma_size_mismatch_preempts_hash(a: ChecksumSet, b: ChecksumSet, path: Seq<char>)
    requires
        a.wf(),
        b.wf(),
        a.records().contains_key(path),
        b.records().contains_key(path),
        a.records()[path].size != b.records()[path].size,
    ensures
        diff_spec(a.records(), b.records()).sizes.contains_key(path),
        diff_spec(a.records(), b.records()).sizes[path] == (
            a.records()[path].size,
            b.records()[path].size,
        ),
        !diff_spec(a.records(), b.records()).hashes.contains_key(path),
{
}

/// No path is reported twice: the four collections of a diff share no path.
pub proof fn lemma_diff_collections_disjoint(a: ChecksumSet, b: ChecksumSet, path: Seq<char>)
    requires
        a.wf(),
        b.wf(),
    ensures
        ({
            let d = diff_spec(a.records(), b.records());
            (if d.additional.contains(path) { 1int } else { 0 })
                + (if d.missing.contains(path) { 1int } else { 0 })
                + (if d.sizes.contains_key(path) { 1int } else { 0 })
                + (if d.hashes.contains_key(path) { 1int } else { 0 }) <= 1
        }),
{
}

} // verus!
