use kecs::digest::{StreamHasher, BUFFER_SIZE};
use kecs::hash_type::HashType;
use kecs::hashers::MAX_INPUT_LEN;
use kecs::ui::{Notifier, UiHandler};

const ALL: [HashType; 8] = [
    HashType::Blake2b512,
    HashType::Blake2s256,
    HashType::Blake3,
    HashType::Crc32,
    HashType::Md5,
    HashType::Sha1,
    HashType::Sha256,
    HashType::Sha3_256,
];

#[derive(Default)]
struct Recorder {
    events: Vec<String>,
}

impl UiHandler for Recorder {
    fn begin_load(&mut self, filename: &str) {
        self.events.push(format!("begin_load {}", filename));
    }
    fn end_load(&mut self) {
        self.events.push("end_load".to_string());
    }
    fn begin_diff(&mut self) {
        self.events.push("begin_diff".to_string());
    }
    fn end_diff(&mut self) {
        self.events.push("end_diff".to_string());
    }
    fn begin_scan(&mut self) {
        self.events.push("begin_scan".to_string());
    }
    fn end_scan(&mut self) {
        self.events.push("end_scan".to_string());
    }
    fn begin_prepare(&mut self) {
        self.events.push("begin_prepare".to_string());
    }
    fn end_prepare(&mut self) {
        self.events.push("end_prepare".to_string());
    }
    fn begin_generate(&mut self, file_count: u32, total_size: u64) {
        self.events.push(format!("begin_generate {} {}", file_count, total_size));
    }
    fn end_generate(&mut self) {
        self.events.push("end_generate".to_string());
    }
    fn begin_verify(&mut self, file_count: u32, total_size: u64) {
        self.events.push(format!("begin_verify {} {}", file_count, total_size));
    }
    fn end_verify(&mut self) {
        self.events.push("end_verify".to_string());
    }
    fn begin_file(&mut self, filename: &str, size: u64) {
        self.events.push(format!("begin_file {} {}", filename, size));
    }
    fn file_progress(&mut self, bytes: u64) {
        self.events.push(format!("file_progress {}", bytes));
    }
    fn end_file(&mut self) {
        self.events.push("end_file".to_string());
    }
}

fn hash(t: HashType, data: &[u8]) -> String {
    let mut ui = Notifier::new(Recorder::default());
    t.hash(data, &mut ui)
}

fn sample(len: usize) -> Vec<u8> {
    let mut data = Vec::new();
    let mut x: u32 = 12345;
    for _ in 0..len {
        x = x.wrapping_mul(1103515245).wrapping_add(12345);
        data.push((x >> 16) as u8);
    }
    data
}

#[test]
fn sha256_of_known_inputs() {
    assert_eq!(
        hash(HashType::Sha256, b""),
        "e3b0c44298fc1c149afbf4c8996fb92427ae41e4649b934ca495991b7852b855"
    );
    assert_eq!(
        hash(HashType::Sha256, b"abc"),
        "ba7816bf8f01cfea414140de5dae2223b00361a396177a9cb410ff61f20015ad"
    );
    assert_eq!(
        hash(HashType::Sha256, b"The quick brown fox jumps over the lazy dog"),
        "d7a8fbb307d7809469ca9abcb0082e4f8d5651e46d3cdb762d02d0bf37c9e592"
    );
}

#[test]
fn sha1_of_known_inputs() {
    assert_eq!(hash(HashType::Sha1, b""), "da39a3ee5e6b4b0d3255bfef95601890afd80709");
    assert_eq!(hash(HashType::Sha1, b"abc"), "a9993e364706816aba3e25717850c26c9cd0d89d");
}

#[test]
fn md5_of_known_inputs() {
    assert_eq!(hash(HashType::Md5, b""), "d41d8cd98f00b204e9800998ecf8427e");
    assert_eq!(hash(HashType::Md5, b"abc"), "900150983cd24fb0d6963f7d28e17f72");
}

#[test]
fn sha3_256_of_known_inputs() {
    assert_eq!(
        hash(HashType::Sha3_256, b""),
        "a7ffc6f8bf1ed76651c14756a061d662f580ff4de43b49fa82d80a4b80f8434a"
    );
    assert_eq!(
        hash(HashType::Sha3_256, b"abc"),
        "3a985da74fe225b2045c172d6bd390bd855f086e3e9d525b46bfe24511431532"
    );
}

#[test]
fn blake2b512_of_known_inputs() {
    assert_eq!(
        hash(HashType::Blake2b512, b""),
        "786a02f742015903c6c6fd852552d272912f4740e15847618a86e217f71f5419d25e1031afee585313896444934eb04b903a685b1448b755d56f701afe9be2ce"
    );
    assert_eq!(
        hash(HashType::Blake2b512, b"abc"),
        "ba80a53f981c4d0d6a2797b69f12f6e94c212f14685ac4b74b12bb6fdbffa2d17d87c5392aab792dc252d5de4533cc9518d38aa8dbf1925ab92386edd4009923"
    );
}

#[test]
fn blake2s256_of_known_inputs() {
    assert_eq!(
        hash(HashType::Blake2s256, b""),
        "69217a3079908094e11121d042354a7c1f55b6482ca1a51e1b250dfd1ed0eef9"
    );
    assert_eq!(
        hash(HashType::Blake2s256, b"abc"),
        "508c5e8c327c14e2e1a72ba34eeb452f37458b209ed63a294d999b4c86675982"
    );
}

#[test]
fn blake3_of_known_inputs() {
    assert_eq!(
        hash(HashType::Blake3, b""),
        "af1349b9f5f9a1a6a0404dea36dcc9499bcb25c9adc112b7cc9a93cae41f3262"
    );
    assert_eq!(
        hash(HashType::Blake3, b"abc"),
        "6437b3ac38465133ffb63b75273a8db548c558465d79db03fd359c6cd5bd9d85"
    );
}

#[test]
fn crc32_is_four_bytes_most_significant_first() {
    assert_eq!(hash(HashType::Crc32, b""), "00000000");
    assert_eq!(hash(HashType::Crc32, b"abc"), "352441c2");
    assert_eq!(hash(HashType::Crc32, b"123456789"), "cbf43926");
    assert_eq!(hash(HashType::Crc32, b"The quick brown fox jumps over the lazy dog"), "414fa339");
}

#[test]
fn digests_are_lower_case_hex_of_the_native_length() {
    let data = sample(1000);
    for t in ALL {
        let digest = hash(t, &data);
        assert_eq!(digest.len(), 2 * t.digest_len());
        assert!(digest.chars().all(|c| c.is_ascii_digit() || ('a'..='f').contains(&c)));
    }
}

#[test]
fn hashing_twice_gives_the_same_digest() {
    let data = sample(4096);
    for t in ALL {
        assert_eq!(hash(t, &data), hash(t, &data));
    }
}

#[test]
fn the_chunk_size_leaves_no_trace_in_the_digest() {
    let data = sample(70_000);
    for t in ALL {
        let whole = hash(t, &data);
        for chunk_size in [1usize, 7, 64, 4096, 65_536, 69_999, 70_000, 70_001, BUFFER_SIZE] {
            let mut ui = Notifier::new(Recorder::default());
            assert_eq!(t.hash_in_chunks(&data, chunk_size, &mut ui), whole);
        }
    }
}

#[test]
fn the_algorithms_disagree() {
    let data = sample(100);
    for a in ALL {
        for b in ALL {
            if a != b {
                assert_ne!(hash(a, &data), hash(b, &data));
            }
        }
    }
}

#[test]
fn every_chunk_is_reported_with_its_length() {
    let data = sample(25);
    let mut ui = Notifier::new(Recorder::default());
    HashType::Sha256.hash_in_chunks(&data, 10, &mut ui);
    assert_eq!(ui.handler().events, vec!["file_progress 10", "file_progress 10", "file_progress 5"]);

    let mut ui = Notifier::new(Recorder::default());
    HashType::Sha256.hash_in_chunks(&data, 25, &mut ui);
    assert_eq!(ui.handler().events, vec!["file_progress 25"]);

    let mut ui = Notifier::new(Recorder::default());
    HashType::Sha256.hash(&[], &mut ui);
    assert!(ui.handler().events.is_empty());
}

#[test]
fn hash_feeds_buffer_sized_chunks() {
    let data = sample(BUFFER_SIZE + 3);
    let mut ui = Notifier::new(Recorder::default());
    HashType::Crc32.hash(&data, &mut ui);
    assert_eq!(
        ui.handler().events,
        vec![format!("file_progress {}", BUFFER_SIZE), "file_progress 3".to_string()]
    );
    assert!(BUFFER_SIZE >= 64 * 1024);
}

#[test]
fn a_stream_hasher_yields_the_digest_of_what_it_was_fed() {
    let data = sample(1000);
    for t in ALL {
        let mut hasher = StreamHasher::new(t);
        assert_eq!(hasher.len(), 0);
        hasher.update(&data[..1]);
        hasher.update(&data[1..1]);
        hasher.update(&data[1..400]);
        assert_eq!(hasher.len(), 400);
        assert!(hasher.try_update(&data[400..]));
        assert_eq!(hasher.len(), 1000);
        assert_eq!(hasher.finalize(), hash(t, &data));
    }
}

#[test]
fn a_stream_hasher_fed_nothing_yields_the_digest_of_nothing() {
    for t in ALL {
        assert_eq!(StreamHasher::new(t).finalize(), hash(t, b""));
    }
}

#[test]
fn a_stream_hasher_knows_its_room() {
    let mut hasher = StreamHasher::new(HashType::Md5);
    assert!(hasher.has_room_for(0));
    assert!(hasher.has_room_for(1 << 20));
    hasher.update(b"abc");
    assert!(hasher.has_room_for((MAX_INPUT_LEN - 3) as usize));
    assert!(!hasher.has_room_for((MAX_INPUT_LEN - 2) as usize));
    assert_eq!(MAX_INPUT_LEN, (1u64 << 61) - 1);
}

#[test]
fn hashing_a_file_reports_its_course() {
    let data = sample(300);
    let mut ui = Notifier::new(Recorder::default());
    let mut job = HashType::Sha1.hash_file("notes.txt", 300, &mut ui);
    assert!(job.update(&data[..128], &mut ui));
    assert!(job.update(&data[128..256], &mut ui));
    assert!(job.update(&data[256..], &mut ui));
    let digest = job.finish(&mut ui);
    assert_eq!(digest, hash(HashType::Sha1, &data));
    assert_eq!(
        ui.handler().events,
        vec![
            "begin_file notes.txt 300",
            "file_progress 128",
            "file_progress 128",
            "file_progress 44",
            "end_file",
        ]
    );
}

#[test]
fn what_the_handler_does_never_reaches_the_digest() {
    struct Noisy(u64);
    impl UiHandler for Noisy {
        fn begin_load(&mut self, _: &str) {}
        fn end_load(&mut self) {}
        fn begin_diff(&mut self) {}
        fn end_diff(&mut self) {}
        fn begin_scan(&mut self) {}
        fn end_scan(&mut self) {}
        fn begin_prepare(&mut self) {}
        fn end_prepare(&mut self) {}
        fn begin_generate(&mut self, _: u32, _: u64) {}
        fn end_generate(&mut self) {}
        fn begin_verify(&mut self, _: u32, _: u64) {}
        fn end_verify(&mut self) {}
        fn begin_file(&mut self, _: &str, _: u64) {}
        fn file_progress(&mut self, bytes: u64) {
            self.0 = self.0.wrapping_mul(31).wrapping_add(bytes);
        }
        fn end_file(&mut self) {}
    }
    let data = sample(5000);
    let mut noisy = Notifier::new(Noisy(7));
    let digest = HashType::Blake3.hash_in_chunks(&data, 100, &mut noisy);
    assert_eq!(digest, hash(HashType::Blake3, &data));
    assert_ne!(noisy.handler().0, 7);
}
