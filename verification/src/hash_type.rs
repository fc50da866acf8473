//! The hash algorithms that a checksum set can be built with.

use vstd::prelude::*;
use crate::text::same_text;

verus! {

/// A hash algorithm. A checksum set is built with one of them and keeps it.
#[derive(Copy, Clone, Debug, PartialEq, Eq, Structural)]
pub enum HashType {
    Blake2b512,
    Blake2s256,
    Blake3,
    Crc32,
    Md5,
    Sha1,
    Sha256,
    Sha3_256,
}

impl HashType {
    /// The tag under which a manifest names the algorithm.
    pub open spec fn spec_name(self) -> Seq<char> {
        match self {
            HashType::Blake2b512 => "blake2b512"@,
            HashType::Blake2s256 => "blake2s256"@,
            HashType::Blake3 => "blake3"@,
            HashType::Crc32 => "crc32"@,
            HashType::Md5 => "md5"@,
            HashType::Sha1 => "sha1"@,
            HashType::Sha256 => "sha256"@,
            HashType::Sha3_256 => "sha3_256"@,
        }
    }

    /// The number of bytes in a digest of the algorithm.
    pub open spec fn spec_digest_len(self) -> nat {
        match self {
            HashType::Blake2b512 => 64,
            HashType::Blake2s256 => 32,
            HashType::Blake3 => 32,
            HashType::Crc32 => 4,
            HashType::Md5 => 16,
            HashType::Sha1 => 20,
            HashType::Sha256 => 32,
            HashType::Sha3_256 => 32,
        }
    }

    /// The tag under which a manifest names the algorithm.
    pub fn name(&self) -> (s: &'static str)
        ensures
            s@ == self.spec_name(),
    {
        match self {
            HashType::Blake2b512 => "blake2b512",
            HashType::Blake2s256 => "blake2s256",
            HashType::Blake3 => "blake3",
            HashType::Crc32 => "crc32",
            HashType::Md5 => "md5",
            HashType::Sha1 => "sha1",
            HashType::Sha256 => "sha256",
            HashType::Sha3_256 => "sha3_256",
        }
    }

    /// The number of bytes in a digest of the algorithm.
    pub fn digest_len(&self) -> (n: usize)
        ensures
            n == self.spec_digest_len(),
    {
        match self {
            HashType::Blake2b512 => 64,
            HashType::Blake2s256 => 32,
            HashType::Blake3 => 32,
            HashType::Crc32 => 4,
            HashType::Md5 => 16,
            HashType::Sha1 => 20,
            HashType::Sha256 => 32,
            HashType::Sha3_256 => 32,
        }
    }

    /// The algorithm that a manifest names by `tag`, if any does.
    pub open spec fn spec_from_name(tag: Seq<char>) -> Option<HashType> {
        if tag == "blake2b512"@ {
            Some(HashType::Blake2b512)
        } else if tag == "blake2s256"@ {
            Some(HashType::Blake2s256)
        } else if tag == "blake3"@ {
            Some(HashType::Blake3)
        } else if tag == "crc32"@ {
            Some(HashType::Crc32)
        } else if tag == "md5"@ {
            Some(HashType::Md5)
        } else if tag == "sha1"@ {
            Some(HashType::Sha1)
        } else if tag == "sha256"@ {
            Some(HashType::Sha256)
        } else if tag == "sha3_256"@ {
            Some(HashType::Sha3_256)
        } else {
            None
        }
    }

    /// The algorithm that a manifest names by `tag`: `None` where no
    /// algorithm has that tag.
    pub fn from_name(tag: &str) -> (r: Option<HashType>)
        ensures
            r == Self::spec_from_name(tag@),
    {
        if same_text(tag, "blake2b512") {
            Some(HashType::Blake2b512)
        } else if same_text(tag, "blake2s256") {
            Some(HashType::Blake2s256)
        } else if same_text(tag, "blake3") {
            Some(HashType::Blake3)
        } else if same_text(tag, "crc32") {
            Some(HashType::Crc32)
        } else if same_text(tag, "md5") {
            Some(HashType::Md5)
        } else if same_text(tag, "sha1") {
            Some(HashType::Sha1)
        } else if same_text(tag, "sha256") {
            Some(HashType::Sha256)
        } else if same_text(tag, "sha3_256") {
            Some(HashType::Sha3_256)
        } else {
            None
        }
    }

    /// No two algorithms share a tag.
    pub proof fn lemma_names_distinct(a: HashType, b: HashType)
        requires
            a.spec_name() == b.spec_name(),
        ensures
            a == b,
    {
        reveal_strlit("blake2b512");
        reveal_strlit("blake2s256");
        reveal_strlit("blake3");
        reveal_strlit("crc32");
        reveal_strlit("md5");
        reveal_strlit("sha1");
        reveal_strlit("sha256");
        reveal_strlit("sha3_256");
        assert("blake2b512"@.len() == 10 && "blake2s256"@.len() == 10);
        assert("blake3"@.len() == 6 && "sha256"@.len() == 6);
        assert("crc32"@.len() == 5 && "md5"@.len() == 3);
        assert("sha1"@.len() == 4 && "sha3_256"@.len() == 8);
        assert("blake2b512"@[6] == 'b' && "blake2s256"@[6] == 's');
        assert("blake3"@[0] == 'b' && "sha256"@[0] == 's');
    }

    /// A tag names the algorithm whose tag it is, and no other string names
    /// an algorithm: reading an algorithm's own tag gives the algorithm back.
    pub proof fn lemma_name_round_trip(t: HashType)
        ensures
            Self::spec_from_name(t.spec_name()) == Some(t),
    {
        match Self::spec_from_name(t.spec_name()) {
            Some(u) => {
                Self::lemma_names_distinct(u, t);
            },
            None => {},
        }
    }

    /// What a tag names has that tag.
    pub proof fn lemma_from_name_sound(tag: Seq<char>)
        ensures
            match Self::spec_from_name(tag) {
                Some(t) => t.spec_name() == tag,
                None => forall|t: HashType| #[trigger] t.spec_name() != tag,
            },
    {
    }
}

} // verus!
