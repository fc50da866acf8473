use kecs::hash_type::HashType;

const ALL: [HashType; 8] = [
    HashType::Blake2b512,
    HashType::Blake2s256,
    HashType::Blake3,
    HashType::Crc32,
    HashType::Md5,
    HashType::Sha1,
    HashType::Sha256,
    HashType::Sha3_256,
];

#[test]
fn names_are_the_manifest_tags() {
    assert_eq!(HashType::Blake2b512.name(), "blake2b512");
    assert_eq!(HashType::Blake2s256.name(), "blake2s256");
    assert_eq!(HashType::Blake3.name(), "blake3");
    assert_eq!(HashType::Crc32.name(), "crc32");
    assert_eq!(HashType::Md5.name(), "md5");
    assert_eq!(HashType::Sha1.name(), "sha1");
    assert_eq!(HashType::Sha256.name(), "sha256");
    assert_eq!(HashType::Sha3_256.name(), "sha3_256");
}

#[test]
fn every_name_reads_back_as_its_algorithm() {
    for t in ALL {
        assert_eq!(HashType::from_name(t.name()), Some(t));
    }
}

#[test]
fn names_are_pairwise_different() {
    for a in ALL {
        for b in ALL {
            assert_eq!(a.name() == b.name(), a == b);
        }
    }
}

#[test]
fn unknown_names_read_as_nothing() {
    assert_eq!(HashType::from_name(""), None);
    assert_eq!(HashType::from_name("sha512"), None);
    assert_eq!(HashType::from_name("SHA256"), None);
    assert_eq!(HashType::from_name("sha256 "), None);
    assert_eq!(HashType::from_name("sha3-256"), None);
    assert_eq!(HashType::from_name("blake2b"), None);
}

#[test]
fn digest_lengths_are_the_native_ones() {
    assert_eq!(HashType::Blake2b512.digest_len(), 64);
    assert_eq!(HashType::Blake2s256.digest_len(), 32);
    assert_eq!(HashType::Blake3.digest_len(), 32);
    assert_eq!(HashType::Crc32.digest_len(), 4);
    assert_eq!(HashType::Md5.digest_len(), 16);
    assert_eq!(HashType::Sha1.digest_len(), 20);
    assert_eq!(HashType::Sha256.digest_len(), 32);
    assert_eq!(HashType::Sha3_256.digest_len(), 32);
}
