use kecs::checksum_set::{ChecksumSet, FileInfo};
use kecs::diff::ChecksumSetDiff;
use kecs::hash_type::HashType;
use kecs::path_map::{PathMap, PathSet};
use kecs::ui::{Notifier, UiHandler};
use kecs::verify::VerifyError;

#[derive(Default)]
struct Recorder {
    events: Vec<String>,
}

impl UiHandler for Recorder {
    fn begin_load(&mut self, filename: &str) {
        self.events.push(format!("begin_load {}", filename));
    }
    fn end_load(&mut self) {
        self.events.push("end_load".to_string());
    }
    fn begin_diff(&mut self) {
        self.events.push("begin_diff".to_string());
    }
    fn end_diff(&mut self) {
        self.events.push("end_diff".to_string());
    }
    fn begin_scan(&mut self) {
        self.events.push("begin_scan".to_string());
    }
    fn end_scan(&mut self) {
        self.events.push("end_scan".to_string());
    }
    fn begin_prepare(&mut self) {
        self.events.push("begin_prepare".to_string());
    }
    fn end_prepare(&mut self) {
        self.events.push("end_prepare".to_string());
    }
    fn begin_generate(&mut self, file_count: u32, total_size: u64) {
        self.events.push(format!("begin_generate {} {}", file_count, total_size));
    }
    fn end_generate(&mut self) {
        self.events.push("end_generate".to_string());
    }
    fn begin_verify(&mut self, file_count: u32, total_size: u64) {
        self.events.push(format!("begin_verify {} {}", file_count, total_size));
    }
    fn end_verify(&mut self) {
        self.events.push("end_verify".to_string());
    }
    fn begin_file(&mut self, filename: &str, size: u64) {
        self.events.push(format!("begin_file {} {}", filename, size));
    }
    fn file_progress(&mut self, bytes: u64) {
        self.events.push(format!("file_progress {}", bytes));
    }
    fn end_file(&mut self) {
        self.events.push("end_file".to_string());
    }
}

fn set_of(hash_type: HashType, files: &[(&str, u64, &str)]) -> ChecksumSet {
    let mut set = ChecksumSet::new(hash_type);
    for (path, size, hash) in files {
        set.insert(path.to_string(), FileInfo { size: *size, hash: hash.to_string() });
    }
    set
}

fn paths(set: &PathSet) -> Vec<String> {
    let mut paths = Vec::new();
    for i in 0..set.len() {
        paths.push(set.path_at(i).clone());
    }
    paths
}

fn sizes(map: &PathMap<(u64, u64)>) -> Vec<(String, u64, u64)> {
    let mut entries = Vec::new();
    for i in 0..map.len() {
        let (ours, theirs) = *map.value_at(i);
        entries.push((map.key_at(i).clone(), ours, theirs));
    }
    entries
}

fn hashes(map: &PathMap<(String, String)>) -> Vec<(String, String, String)> {
    let mut entries = Vec::new();
    for i in 0..map.len() {
        let (ours, theirs) = map.value_at(i).clone();
        entries.push((map.key_at(i).clone(), ours, theirs));
    }
    entries
}

fn none() -> Vec<String> {
    Vec::new()
}

fn on_disk(files: &[(&str, u64)]) -> PathMap<u64> {
    let mut sizes = PathMap::new();
    for (path, size) in files {
        sizes.insert(path.to_string(), *size);
    }
    sizes
}

fn digests_of(files: &[(&str, &str)]) -> PathMap<String> {
    let mut digests = PathMap::new();
    for (path, digest) in files {
        digests.insert(path.to_string(), digest.to_string());
    }
    digests
}

fn verify(set: &ChecksumSet, sizes: &PathMap<u64>, digests: &PathMap<String>) -> ChecksumSetDiff {
    let mut ui = Notifier::new(Recorder::default());
    match set.verify(sizes, digests, &mut ui) {
        Ok(d) => d,
        Err(e) => panic!("no diff was drawn up: {:?}", e),
    }
}

fn hash_of(t: HashType, data: &[u8]) -> String {
    let mut ui = Notifier::new(Recorder::default());
    t.hash(data, &mut ui)
}

#[test]
fn a_recorded_file_that_is_absent_is_missing() {
    let h = hash_of(HashType::Sha256, b"hello");
    let set = set_of(HashType::Sha256, &[("a.txt", 5, &h)]);
    let sizes = on_disk(&[]);
    let mut ui = Notifier::new(Recorder::default());
    let plan = set.verify_plan(&sizes, &mut ui);
    assert!(plan.to_hash.is_empty());
    assert_eq!(plan.total_size, 0);
    let d = verify(&set, &sizes, &digests_of(&[]));
    assert_eq!(paths(&d.missing_files), vec!["a.txt"]);
    assert!(d.differing_sizes.is_empty());
    assert!(d.differing_hashes.is_empty());
    assert!(d.additional_files.is_empty());
    assert!(d.is_different());
}

#[test]
fn a_file_of_the_recorded_size_and_other_content_has_a_differing_hash() {
    let h = hash_of(HashType::Sha256, b"hello");
    let other = hash_of(HashType::Sha256, b"hallo");
    assert_eq!(h, "2cf24dba5fb0a30e26e83b2ac5b9e29e1b161e5c1fa7425e73043362938b9824");
    assert_eq!(other, "d3751d33f9cd5049c4af2b462735457e4d3baf130bcbb87f389e349fbaeb20b9");
    let set = set_of(HashType::Sha256, &[("a.txt", 5, &h)]);
    let sizes = on_disk(&[("a.txt", 5)]);
    let mut ui = Notifier::new(Recorder::default());
    let plan = set.verify_plan(&sizes, &mut ui);
    assert_eq!(paths(&plan.to_hash), vec!["a.txt"]);
    assert_eq!(plan.total_size, 5);
    let d = verify(&set, &sizes, &digests_of(&[("a.txt", &other)]));
    assert_eq!(hashes(&d.differing_hashes), vec![("a.txt".to_string(), h.clone(), other.clone())]);
    assert!(d.missing_files.is_empty());
    assert!(d.differing_sizes.is_empty());
    assert!(d.additional_files.is_empty());
    assert!(d.is_different());
}

#[test]
fn a_truncated_file_has_a_differing_size_and_is_never_hashed() {
    let h = hash_of(HashType::Sha256, b"hello");
    let set = set_of(HashType::Sha256, &[("a.txt", 5, &h)]);
    let sizes = on_disk(&[("a.txt", 3)]);
    let mut ui = Notifier::new(Recorder::default());
    let plan = set.verify_plan(&sizes, &mut ui);
    assert!(plan.to_hash.is_empty());
    assert_eq!(plan.total_size, 0);
    let d = verify(&set, &sizes, &digests_of(&[]));
    assert_eq!(sizes_of(&d), vec![("a.txt".to_string(), 5, 3)]);
    assert!(d.differing_hashes.is_empty());
    assert!(d.missing_files.is_empty());
    assert!(d.additional_files.is_empty());
}

fn sizes_of(d: &ChecksumSetDiff) -> Vec<(String, u64, u64)> {
    sizes(&d.differing_sizes)
}

#[test]
fn a_digest_given_for_a_file_of_another_size_is_not_looked_at() {
    let set = set_of(HashType::Sha256, &[("a.txt", 5, "aaaa")]);
    let d = verify(&set, &on_disk(&[("a.txt", 3)]), &digests_of(&[("a.txt", "bbbb")]));
    assert_eq!(sizes_of(&d), vec![("a.txt".to_string(), 5, 3)]);
    assert!(d.differing_hashes.is_empty());
}

#[test]
fn an_unchanged_file_is_not_reported() {
    let h = hash_of(HashType::Md5, b"hello");
    let set = set_of(HashType::Md5, &[("a.txt", 5, &h)]);
    let d = verify(&set, &on_disk(&[("a.txt", 5)]), &digests_of(&[("a.txt", &h)]));
    assert!(!d.is_different());
}

#[test]
fn files_that_the_set_does_not_record_are_never_reported() {
    let set = set_of(HashType::Sha256, &[("a.txt", 5, "aaaa")]);
    let sizes = on_disk(&[("a.txt", 5), ("extra.txt", 9), ("dir/more.bin", 1)]);
    let digests = digests_of(&[("a.txt", "aaaa"), ("extra.txt", "eeee")]);
    let mut ui = Notifier::new(Recorder::default());
    let plan = set.verify_plan(&sizes, &mut ui);
    assert_eq!(paths(&plan.to_hash), vec!["a.txt"]);
    assert_eq!(plan.total_size, 5);
    let d = verify(&set, &sizes, &digests);
    assert!(d.additional_files.is_empty());
    assert!(!d.is_different());
}

fn mixed_set() -> ChecksumSet {
    set_of(
        HashType::Sha256,
        &[
            ("gone.txt", 4, "1111"),
            ("grown.txt", 10, "2222"),
            ("kept.txt", 20, "3333"),
            ("changed.txt", 30, "4444"),
            ("dir/kept.bin", 40, "5555"),
        ],
    )
}

fn mixed_disk() -> PathMap<u64> {
    on_disk(&[("grown.txt", 11), ("kept.txt", 20), ("changed.txt", 30), ("dir/kept.bin", 40)])
}

#[test]
fn the_plan_names_the_files_of_the_recorded_size_and_adds_them_up() {
    let mut ui = Notifier::new(Recorder::default());
    let plan = mixed_set().verify_plan(&mixed_disk(), &mut ui);
    assert_eq!(paths(&plan.to_hash), vec!["changed.txt", "dir/kept.bin", "kept.txt"]);
    assert_eq!(plan.total_size, 90);
    assert_eq!(plan.file_count, 5);
    assert_eq!(ui.handler().events, vec!["begin_prepare", "end_prepare", "begin_verify 5 90"]);
}

#[test]
fn every_recorded_path_falls_into_its_category() {
    let digests = digests_of(&[("kept.txt", "3333"), ("changed.txt", "ffff"), ("dir/kept.bin", "5555")]);
    let mut ui = Notifier::new(Recorder::default());
    let d = match mixed_set().verify(&mixed_disk(), &digests, &mut ui) {
        Ok(d) => d,
        Err(e) => panic!("no diff was drawn up: {:?}", e),
    };
    assert_eq!(ui.handler().events, vec!["end_verify"]);
    assert_eq!(paths(&d.missing_files), vec!["gone.txt"]);
    assert_eq!(sizes_of(&d), vec![("grown.txt".to_string(), 10, 11)]);
    assert_eq!(
        hashes(&d.differing_hashes),
        vec![("changed.txt".to_string(), "4444".to_string(), "ffff".to_string())]
    );
    assert_eq!(paths(&d.additional_files), none());
}

#[test]
fn a_file_that_was_to_be_hashed_and_has_no_digest_stops_the_verification() {
    let digests = digests_of(&[("kept.txt", "3333")]);
    let mut ui = Notifier::new(Recorder::default());
    match mixed_set().verify(&mixed_disk(), &digests, &mut ui) {
        Ok(_) => panic!("a diff was drawn up"),
        Err(VerifyError::DigestMissing { path }) => assert_eq!(path, "changed.txt"),
    }
    assert_eq!(ui.handler().events, none());
}

#[test]
fn the_total_stops_at_the_largest_number() {
    let set = set_of(HashType::Crc32, &[("a", u64::MAX, "00"), ("b", 7, "00"), ("c", 1, "00")]);
    let sizes = on_disk(&[("a", u64::MAX), ("b", 7), ("c", 2)]);
    let mut ui = Notifier::new(Recorder::default());
    let plan = set.verify_plan(&sizes, &mut ui);
    assert_eq!(plan.total_size, u64::MAX);
    assert_eq!(paths(&plan.to_hash), vec!["a", "b"]);
}

#[test]
fn verifying_an_empty_set_finds_nothing() {
    let set = ChecksumSet::new(HashType::Sha1);
    let mut ui = Notifier::new(Recorder::default());
    let plan = set.verify_plan(&on_disk(&[("x", 1)]), &mut ui);
    assert!(plan.to_hash.is_empty());
    assert_eq!(plan.file_count, 0);
    assert!(!verify(&set, &on_disk(&[("x", 1)]), &digests_of(&[])).is_different());
}
