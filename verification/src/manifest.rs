//! A checksum set in the shape in which it is written down.
//!
//! A manifest names the algorithm by its tag and lists the files in key
//! order, each with its path, size and digest. Reading a manifest back gives
//! the set that was written.

use vstd::prelude::*;
use crate::checksum_set::{ChecksumSet, FileInfo, FileRecord};
use crate::hash_type::HashType;
use crate::path_map::{lemma_sorted_index, lemma_take_next, seq_map, strictly_sorted};
use crate::text::{key_lt, lemma_key_lt_asymmetric};

verus! {

/// One file of a manifest.
#[derive(Debug)]
pub struct ManifestEntry {
    /// The path of the file, relative to the root.
    pub path: String,
    /// The size of the file in bytes.
    pub size: u64,
    /// The digest of the file's content, in hexadecimal.
    pub hash: String,
}

/// A checksum set as it is written down.
#[derive(Debug)]
pub struct Manifest {
    /// The tag of the algorithm.
    pub hash_type: String,
    /// The files, in the order in which they are listed.
    pub files: Vec<ManifestEntry>,
}

/// Why a manifest stands for no checksum set.
#[derive(Debug)]
pub enum ManifestError {
    /// The manifest names an algorithm that does not exist.
    UnknownHashType { name: String },
}

/// One file of a manifest, as a mathematical value.
pub struct EntryView {
    pub path: Seq<char>,
    pub size: u64,
    pub hash: Seq<char>,
}

impl View for ManifestEntry {
    type V = EntryView;

    open spec fn view(&self) -> EntryView {
        EntryView { path: self.path@, size: self.size, hash: self.hash@ }
    }
}

/// The entries of a manifest, as mathematical values.
pub open spec fn entry_views(files: Seq<ManifestEntry>) -> Seq<EntryView> {
    files.map_values(|e: ManifestEntry| e@)
}

/// The paths of entries, in their order.
pub open spec fn entry_paths(entries: Seq<EntryView>) -> Seq<Seq<char>> {
    entries.map_values(|e: EntryView| e.path)
}

/// What a set records once `entries` are read in their order: of two
/// entries with one path the later stays.
pub open spec fn records_of(entries: Seq<EntryView>) -> Map<Seq<char>, FileRecord>
    decreases entries.len(),
{
    if entries.len() == 0 {
        Map::<Seq<char>, FileRecord>::empty()
    } else {
        records_of(entries.drop_last()).insert(
            entries.last().path,
            FileRecord { size: entries.last().size, hash: entries.last().hash },
        )
    }
}

/// The entries that are written for the keys and values of a set.
pub open spec fn entries_of(keys: Seq<Seq<char>>, values: Seq<FileInfo>) -> Seq<EntryView> {
    Seq::new(
        keys.len(),
        |i: int| EntryView { path: keys[i], size: values[i].size, hash: values[i].hash@ },
    )
}

/// Reading the first `n` entries written for sorted keys gives the records
/// of the first `n` keys.
proof fn lemma_records_of_entries(keys: Seq<Seq<char>>, values: Seq<FileInfo>, n: int)
    requires
        strictly_sorted(keys),
        keys.len() == values.len(),
        0 <= n <= keys.len(),
    ensures
        records_of(entries_of(keys, values).take(n)) == seq_map(keys.take(n), values.take(n)).map_values(
            |f: FileInfo| f@,
        ),
    decreases n,
{
    let entries = entries_of(keys, values);
    let lhs = records_of(entries.take(n));
    let rhs = seq_map(keys.take(n), values.take(n)).map_values(|f: FileInfo| f@);
    if n == 0 {
        assert(entries.take(0) =~= Seq::<EntryView>::empty());
        assert(lhs =~= rhs);
    } else {
        lemma_records_of_entries(keys, values, n - 1);
        assert(entries.take(n).drop_last() =~= entries.take(n - 1));
        let before = seq_map(keys.take(n - 1), values.take(n - 1)).map_values(|f: FileInfo| f@);
        assert(lhs == before.insert(keys[n - 1], values[n - 1]@));
        let ks = keys.take(n);
        let vs = values.take(n);
        let ks1 = keys.take(n - 1);
        let vs1 = values.take(n - 1);
        lemma_take_next(keys, n - 1);
        assert forall|k: Seq<char>| rhs.contains_key(k) implies rhs[k] == lhs[k] by {
            let j = ks.index_of(k);
            assert(0 <= j < n && ks[j] == k);
            lemma_sorted_index(ks, j);
            if j < n - 1 {
                assert(ks1[j] == k);
                lemma_sorted_index(ks1, j);
                lemma_key_lt_asymmetric(keys[j], keys[n - 1]);
            }
        }
        assert(lhs =~= rhs);
    }
}

/// Sorted keys are determined by what they hold: two strictly ascending
/// sequences with the same elements are the same sequence.
pub proof fn lemma_sorted_keys_unique(a: Seq<Seq<char>>, b: Seq<Seq<char>>)
    requires
        strictly_sorted(a),
        strictly_sorted(b),
        forall|k: Seq<char>| a.contains(k) <==> b.contains(k),
    ensures
        a == b,
    decreases a.len(),
{
    if a.len() == 0 {
        if b.len() > 0 {
            assert(b.contains(b[0]));
        }
        assert(a =~= b);
    } else {
        assert(a.contains(a[0]));
        let j = b.index_of(a[0]);
        assert(0 <= j < b.len() && b[j] == a[0]);
        assert(b.contains(b[0]));
        let i = a.index_of(b[0]);
        assert(0 <= i < a.len() && a[i] == b[0]);
        if j > 0 {
            assert(key_lt(b[0], b[j]));
            if i > 0 {
                assert(key_lt(a[0], a[i]));
            }
            lemma_key_lt_asymmetric(b[0], a[0]);
        }
        let a1 = a.drop_first();
        let b1 = b.drop_first();
        assert forall|x: int, y: int| 0 <= x < y < a1.len() implies key_lt(
            #[trigger] a1[x],
            #[trigger] a1[y],
        ) by {
            assert(a1[x] == a[x + 1] && a1[y] == a[y + 1]);
        }
        assert forall|x: int, y: int| 0 <= x < y < b1.len() implies key_lt(
            #[trigger] b1[x],
            #[trigger] b1[y],
        ) by {
            assert(b1[x] == b[x + 1] && b1[y] == b[y + 1]);
        }
        assert forall|k: Seq<char>| a1.contains(k) <==> b1.contains(k) by {
            if a1.contains(k) {
                let x = a1.index_of(k);
                assert(a[x + 1] == k);
                assert(a.contains(k));
                lemma_key_lt_asymmetric(a[0], a[x + 1]);
                let y = b.index_of(k);
                assert(0 <= y < b.len() && b[y] == k);
                assert(b1[y - 1] == k);
            }
            if b1.contains(k) {
                let y = b1.index_of(k);
                assert(b[y + 1] == k);
                assert(b.contains(k));
                lemma_key_lt_asymmetric(b[0], b[y + 1]);
                let x = a.index_of(k);
                assert(0 <= x < a.len() && a[x] == k);
                assert(a1[x - 1] == k);
            }
        }
        lemma_sorted_keys_unique(a1, b1);
        assert(a =~= seq![a[0]] + a1);
        assert(b =~= seq![b[0]] + b1);
    }
}

impl Manifest {
    /// The tag of the algorithm, as text.
    pub open spec fn tag(&self) -> Seq<char> {
        self.hash_type@
    }

    /// The entries, as mathematical values.
    pub open spec fn entries(&self) -> Seq<EntryView> {
        entry_views(self.files@)
    }
}

impl ChecksumSet {
    /// The entries that are written for the set: one for each file, in key order.
    pub open spec fn manifest_entries(&self) -> Seq<EntryView> {
        entries_of(self.files.keys(), self.files.values())
    }

    /// The set in the shape in which it is written down: the tag of its
    /// algorithm, and its files in key order.
    pub fn to_manifest(&self) -> (m: Manifest)
        requires
            self.wf(),
        ensures
            m.tag() == self.hash_type.spec_name(),
            m.entries() == self.manifest_entries(),
    {
        let mut files: Vec<ManifestEntry> = Vec::new();
        let n = self.files.len();
        let mut i: usize = 0;
        while i < n
            invariant
                n == self.files.keys().len(),
                n == self.files.values().len(),
                i <= n,
                entry_views(files@) == self.manifest_entries().take(i as int),
            decreases n - i,
        {
            let path = self.files.key_at(i);
            let info = self.files.value_at(i);
            let ghost before = entry_views(files@);
            files.push(ManifestEntry { path: path.clone(), size: info.size, hash: info.hash.clone() });
            proof {
                assert(entry_views(files@) =~= before.push(self.manifest_entries()[i as int]));
                assert(self.manifest_entries().take(i + 1) =~= self.manifest_entries().take(
                    i as int,
                ).push(self.manifest_entries()[i as int]));
            }
            i = i + 1;
        }
        proof {
            assert(self.manifest_entries().take(n as int) =~= self.manifest_entries());
        }
        Manifest { hash_type: self.hash_type.name().to_owned(), files }
    }

    /// The set that a manifest stands for.
    ///
    /// The files are read in their order, so that of two entries with one
    /// path the later stays. A manifest whose tag names no algorithm stands
    /// for no set.
    pub fn from_manifest(m: &Manifest) -> (r: Result<ChecksumSet, ManifestError>)
        ensures
            match r {
                Ok(set) => {
                    &&& set.wf()
                    &&& HashType::spec_from_name(m.tag()) == Some(set.hash_type)
                    &&& set.records() == records_of(m.entries())
                },
                Err(ManifestError::UnknownHashType { name }) => {
                    &&& HashType::spec_from_name(m.tag()) is None
                    &&& name@ == m.tag()
                },
            },
    {
        let hash_type = match HashType::from_name(m.hash_type.as_str()) {
            Some(t) => t,
            None => {
                return Err(ManifestError::UnknownHashType { name: m.hash_type.clone() });
            },
        };
        let mut set = ChecksumSet::new(hash_type);
        let mut i: usize = 0;
        proof {
            assert(m.entries().take(0) =~= Seq::<EntryView>::empty());
        }
        while i < m.files.len()
            invariant
                i <= m.files.len(),
                set.wf(),
                set.hash_type == hash_type,
                set.records() == records_of(m.entries().take(i as int)),
            decreases m.files.len() - i,
        {
            let entry = &m.files[i];
            proof {
                assert(m.entries().take(i + 1).drop_last() =~= m.entries().take(i as int));
                assert(m.entries().take(i + 1).last() == entry@);
            }
            set.insert(entry.path.clone(), FileInfo { size: entry.size, hash: entry.hash.clone() });
            i = i + 1;
        }
        proof {
            assert(m.entries().take(i as int) =~= m.entries());
        }
        Ok(set)
    }
}

/// Writing a set down and reading it back gives the set: the tag names its
/// algorithm, the entries give its records, and they are listed in its key
/// order.
pub proof fn lemma_manifest_round_trip(set: ChecksumSet)
    requires
        set.wf(),
    ensures
        HashType::spec_from_name(set.hash_type.spec_name()) == Some(set.hash_type),
        records_of(set.manifest_entries()) == set.records(),
        entry_paths(set.manifest_entries()) == set.files.keys(),
        strictly_sorted(entry_paths(set.manifest_entries())),
{
    HashType::lemma_name_round_trip(set.hash_type);
    let keys = set.files.keys();
    let values = set.files.values();
    lemma_records_of_entries(keys, values, keys.len() as int);
    assert(set.manifest_entries().take(keys.len() as int) =~= set.manifest_entries());
    assert(keys.take(keys.len() as int) =~= keys);
    assert(values.take(keys.len() as int) =~= values);
    assert(entry_paths(set.manifest_entries()) =~= keys);
}

/// A set that was read back from what another set wrote lists its files in
/// the same order and with the same content: two sets with the same records
/// write the same entries.
pub proof fn lemma_same_records_same_entries(a: ChecksumSet, b: ChecksumSet)
    requires
        a.wf(),
        b.wf(),
        a.records() == b.records(),
    ensures
        a.manifest_entries() == b.manifest_entries(),
{
    a.files.lemma_view();
    b.files.lemma_view();
    let ka = a.files.keys();
    let kb = b.files.keys();
    assert forall|k: Seq<char>| ka.contains(k) <==> kb.contains(k) by {
        assert(a.records().contains_key(k) <==> ka.contains(k));
        assert(b.records().contains_key(k) <==> kb.contains(k));
    }
    lemma_sorted_keys_unique(ka, kb);
    assert forall|i: int| 0 <= i < ka.len() implies a.manifest_entries()[i]
        == b.manifest_entries()[i] by {
        assert(a.records()[ka[i]] == a.files.values()[i]@);
        assert(b.records()[kb[i]] == b.files.values()[i]@);
    }
    assert(a.manifest_entries() =~= b.manifest_entries());
}

} // verus!
