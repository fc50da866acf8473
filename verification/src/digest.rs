//! The digest engine: hashing a stream of bytes, chunk by chunk, with any of
//! the algorithms.
//!
//! A [`StreamHasher`] is fed the bytes of a source in chunks of any size and yields
//! the digest of their concatenation. How the source was cut into chunks
//! leaves no trace in the digest: it is a function of the algorithm and of
//! the bytes alone.

use vstd::prelude::*;
use vstd::slice::slice_subrange;
use crate::hash_type::HashType;
use crate::hashers::{
    big_endian_bytes, big_endian_u32, blake2b512_absorbed, blake2b512_digest,
    blake2b512_finalize, blake2b512_new, blake2b512_update, blake2s256_absorbed,
    blake2s256_digest, blake2s256_finalize, blake2s256_new, blake2s256_update, blake3_absorbed,
    blake3_digest, blake3_finalize_hex, blake3_new, blake3_update, crc32_absorbed,
    crc32_checksum, crc32_finalize, crc32_new, crc32_update, hex_encode, hex_lower,
    md5_absorbed, md5_digest, md5_finalize, md5_new, md5_update, sha1_absorbed, sha1_digest,
    sha1_finalize, sha1_new, sha1_update, sha256_absorbed, sha256_digest, sha256_finalize,
    sha256_new, sha256_update, sha3_256_absorbed, sha3_256_digest, sha3_256_finalize,
    sha3_256_new, sha3_256_update, Blake2b512State, Blake2s256State, Md5State, Sha1State,
    Sha256State, Sha3_256State, MAX_INPUT_LEN,
};
use crate::phase::{
    lemma_phase_after_push, lemma_progress_in_order, phase_after, progress_of_chunks, Phase,
};
use crate::ui::{Notification, Notifier, UiHandler};

verus! {

/// The number of bytes that [`HashType::hash`] feeds to the hasher at a time,
/// and a fitting size for the buffer of a caller that reads a file.
pub const BUFFER_SIZE: usize = 524288;

/// The bytes of the digest of `data` under `hash_type`. The checksum of
/// CRC-32 is taken as its four bytes, the most significant first.
pub open spec fn digest_bytes(hash_type: HashType, data: Seq<u8>) -> Seq<u8> {
    match hash_type {
        HashType::Blake2b512 => blake2b512_digest(data),
        HashType::Blake2s256 => blake2s256_digest(data),
        HashType::Blake3 => blake3_digest(data),
        HashType::Crc32 => big_endian_bytes(crc32_checksum(data)),
        HashType::Md5 => md5_digest(data),
        HashType::Sha1 => sha1_digest(data),
        HashType::Sha256 => sha256_digest(data),
        HashType::Sha3_256 => sha3_256_digest(data),
    }
}

/// The digest of `data` under `hash_type` as a manifest records it: in
/// lower-case hexadecimal.
pub open spec fn digest_hex(hash_type: HashType, data: Seq<u8>) -> Seq<char> {
    hex_lower(digest_bytes(hash_type, data))
}

enum HasherState {
    Blake2b512(Blake2b512State),
    Blake2s256(Blake2s256State),
    Blake3(blake3::Hasher),
    Crc32(crc32fast::Hasher),
    Md5(Md5State),
    Sha1(Sha1State),
    Sha256(Sha256State),
    Sha3_256(Sha3_256State),
}

/// A digest computation in progress.
pub struct StreamHasher {
    state: HasherState,
    length: u64,
}

impl StreamHasher {
    /// The algorithm of the computation.
    pub closed spec fn hash_type(&self) -> HashType {
        match self.state {
            HasherState::Blake2b512(_) => HashType::Blake2b512,
            HasherState::Blake2s256(_) => HashType::Blake2s256,
            HasherState::Blake3(_) => HashType::Blake3,
            HasherState::Crc32(_) => HashType::Crc32,
            HasherState::Md5(_) => HashType::Md5,
            HasherState::Sha1(_) => HashType::Sha1,
            HasherState::Sha256(_) => HashType::Sha256,
            HasherState::Sha3_256(_) => HashType::Sha3_256,
        }
    }

    /// The bytes that the hasher has been fed so far, in order.
    pub closed spec fn absorbed(&self) -> Seq<u8> {
        match self.state {
            HasherState::Blake2b512(h) => blake2b512_absorbed(h),
            HasherState::Blake2s256(h) => blake2s256_absorbed(h),
            HasherState::Blake3(h) => blake3_absorbed(h),
            HasherState::Crc32(h) => crc32_absorbed(h),
            HasherState::Md5(h) => md5_absorbed(h),
            HasherState::Sha1(h) => sha1_absorbed(h),
            HasherState::Sha256(h) => sha256_absorbed(h),
            HasherState::Sha3_256(h) => sha3_256_absorbed(h),
        }
    }

    /// The number of bytes fed so far, as the hasher counts them.
    pub closed spec fn spec_len(&self) -> u64 {
        self.length
    }

    /// The invariant of the type: the count is that of the bytes fed, and
    /// within the limit.
    pub open spec fn wf(&self) -> bool {
        &&& self.spec_len() == self.absorbed().len()
        &&& self.spec_len() <= MAX_INPUT_LEN
    }

    /// A hasher for `hash_type` that has been fed nothing.
    pub fn new(hash_type: HashType) -> (h: StreamHasher)
        ensures
            h.wf(),
            h.hash_type() == hash_type,
            h.absorbed() == Seq::<u8>::empty(),
    {
        let state = match hash_type {
            HashType::Blake2b512 => HasherState::Blake2b512(blake2b512_new()),
            HashType::Blake2s256 => HasherState::Blake2s256(blake2s256_new()),
            HashType::Blake3 => HasherState::Blake3(blake3_new()),
            HashType::Crc32 => HasherState::Crc32(crc32_new()),
            HashType::Md5 => HasherState::Md5(md5_new()),
            HashType::Sha1 => HasherState::Sha1(sha1_new()),
            HashType::Sha256 => HasherState::Sha256(sha256_new()),
            HashType::Sha3_256 => HasherState::Sha3_256(sha3_256_new()),
        };
        StreamHasher { state, length: 0 }
    }

    /// The number of bytes fed so far.
    pub fn len(&self) -> (n: u64)
        ensures
            n == self.spec_len(),
    {
        self.length
    }

    /// Whether the hasher can take another `additional` bytes.
    pub fn has_room_for(&self, additional: usize) -> (b: bool)
        requires
            self.wf(),
        ensures
            b == (self.absorbed().len() + additional <= MAX_INPUT_LEN),
    {
        additional as u64 <= MAX_INPUT_LEN - self.length
    }

    /// Feeds `chunk` to the hasher if it has room for it, and says whether
    /// it did. A hasher without room for the chunk is left as it was.
    pub fn try_update(&mut self, chunk: &[u8]) -> (fed: bool)
        requires
            old(self).wf(),
        ensures
            final(self).wf(),
            final(self).hash_type() == old(self).hash_type(),
            fed == (old(self).absorbed().len() + chunk@.len() <= MAX_INPUT_LEN),
            final(self).absorbed() == if fed {
                old(self).absorbed() + chunk@
            } else {
                old(self).absorbed()
            },
    {
        if self.has_room_for(chunk.len()) {
            self.update(chunk);
            true
        } else {
            false
        }
    }

    /// Feeds `chunk` to the hasher.
    pub fn update(&mut self, chunk: &[u8])
        requires
            old(self).wf(),
            old(self).absorbed().len() + chunk@.len() <= MAX_INPUT_LEN,
        ensures
            final(self).wf(),
            final(self).hash_type() == old(self).hash_type(),
            final(self).absorbed() == old(self).absorbed() + chunk@,
    {
        match &mut self.state {
            HasherState::Blake2b512(h) => blake2b512_update(h, chunk),
            HasherState::Blake2s256(h) => blake2s256_update(h, chunk),
            HasherState::Blake3(h) => blake3_update(h, chunk),
            HasherState::Crc32(h) => crc32_update(h, chunk),
            HasherState::Md5(h) => md5_update(h, chunk),
            HasherState::Sha1(h) => sha1_update(h, chunk),
            HasherState::Sha256(h) => sha256_update(h, chunk),
            HasherState::Sha3_256(h) => sha3_256_update(h, chunk),
        }
        self.length = self.length + chunk.len() as u64;
    }

    /// Ends the computation: the digest, in lower-case hexadecimal, of all
    /// the bytes that the hasher has been fed.
    pub fn finalize(self) -> (digest: String)
        requires
            self.wf(),
        ensures
            digest@ == digest_hex(self.hash_type(), self.absorbed()),
            digest@.len() == 2 * self.hash_type().spec_digest_len(),
    {
        match self.state {
            HasherState::Blake2b512(h) => hex_encode(blake2b512_finalize(h).as_slice()),
            HasherState::Blake2s256(h) => hex_encode(blake2s256_finalize(h).as_slice()),
            HasherState::Blake3(h) => blake3_finalize_hex(&h),
            HasherState::Crc32(h) => hex_encode(big_endian_u32(crc32_finalize(h)).as_slice()),
            HasherState::Md5(h) => hex_encode(md5_finalize(h).as_slice()),
            HasherState::Sha1(h) => hex_encode(sha1_finalize(h).as_slice()),
            HasherState::Sha256(h) => hex_encode(sha256_finalize(h).as_slice()),
            HasherState::Sha3_256(h) => hex_encode(sha3_256_finalize(h).as_slice()),
        }
    }
}

/// The hashing of one file, from its announcement to its digest.
pub struct FileHash {
    hasher: StreamHasher,
}

impl FileHash {
    /// The algorithm of the digest.
    pub closed spec fn hash_type(&self) -> HashType {
        self.hasher.hash_type()
    }

    /// The bytes of the file that have been fed so far, in order.
    pub closed spec fn absorbed(&self) -> Seq<u8> {
        self.hasher.absorbed()
    }

    /// The invariant of the type.
    pub closed spec fn wf(&self) -> bool {
        self.hasher.wf()
    }

    /// Feeds the next `chunk` of the file and reports its length to `ui`.
    /// A file that goes beyond [`MAX_INPUT_LEN`] is not hashed: the chunk
    /// that would go beyond it is refused, nothing is reported, and the
    /// result is `false`.
    pub fn update<U: UiHandler>(&mut self, chunk: &[u8], ui: &mut Notifier<U>) -> (fed: bool)
        requires
            old(self).wf(),
        ensures
            final(self).wf(),
            final(self).hash_type() == old(self).hash_type(),
            fed == (old(self).absorbed().len() + chunk@.len() <= MAX_INPUT_LEN),
            final(self).absorbed() == if fed {
                old(self).absorbed() + chunk@
            } else {
                old(self).absorbed()
            },
            final(ui).sent() == if fed {
                old(ui).sent().push(Notification::FileProgress { bytes: chunk@.len() as u64 })
            } else {
                old(ui).sent()
            },
            phase_after(old(ui).sent()) == Some(Phase::InFile) ==> phase_after(final(ui).sent())
                == Some(Phase::InFile),
    {
        let fed = self.hasher.try_update(chunk);
        if fed {
            ui.file_progress(chunk.len() as u64);
            proof {
                lemma_phase_after_push(
                    old(ui).sent(),
                    Notification::FileProgress { bytes: chunk@.len() as u64 },
                );
            }
        }
        fed
    }

    /// Ends the hashing of the file and tells `ui` so: the digest, in
    /// lower-case hexadecimal, of all the bytes that were fed.
    pub fn finish<U: UiHandler>(self, ui: &mut Notifier<U>) -> (digest: String)
        requires
            self.wf(),
        ensures
            digest@ == digest_hex(self.hash_type(), self.absorbed()),
            digest@.len() == 2 * self.hash_type().spec_digest_len(),
            final(ui).sent() == old(ui).sent().push(Notification::EndFile),
            phase_after(old(ui).sent()) == Some(Phase::InFile) ==> phase_after(final(ui).sent())
                == Some(Phase::Hashing),
    {
        let digest = self.hasher.finalize();
        ui.end_file();
        proof {
            lemma_phase_after_push(old(ui).sent(), Notification::EndFile);
        }
        digest
    }
}

impl HashType {
    /// Begins the hashing of the file named `filename`, of `size` bytes, and
    /// announces it to `ui`. The caller reads the file and feeds what it
    /// reads, chunk by chunk.
    pub fn hash_file<U: UiHandler>(&self, filename: &str, size: u64, ui: &mut Notifier<U>) -> (job:
        FileHash)
        ensures
            job.wf(),
            job.hash_type() == *self,
            job.absorbed() == Seq::<u8>::empty(),
            final(ui).sent() == old(ui).sent().push(
                Notification::BeginFile { filename: filename@, size },
            ),
            phase_after(old(ui).sent()) == Some(Phase::Hashing) ==> phase_after(final(ui).sent())
                == Some(Phase::InFile),
    {
        ui.begin_file(filename, size);
        proof {
            lemma_phase_after_push(
                old(ui).sent(),
                Notification::BeginFile { filename: filename@, size },
            );
        }
        FileHash { hasher: StreamHasher::new(*self) }
    }

    /// Hashes `data`, feeding it to the hasher [`BUFFER_SIZE`] bytes at a
    /// time and reporting each chunk to `ui`.
    pub fn hash<U: UiHandler>(&self, data: &[u8], ui: &mut Notifier<U>) -> (digest: String)
        requires
            data@.len() <= MAX_INPUT_LEN,
        ensures
            digest@ == digest_hex(*self, data@),
            digest@.len() == 2 * self.spec_digest_len(),
            final(ui).sent() == old(ui).sent() + progress_of_chunks(
                data@.len(),
                BUFFER_SIZE as nat,
            ),
            phase_after(old(ui).sent()) == Some(Phase::InFile) ==> phase_after(final(ui).sent())
                == Some(Phase::InFile),
    {
        self.hash_in_chunks(data, BUFFER_SIZE, ui)
    }

    /// Hashes `data`, feeding it to the hasher `chunk_size` bytes at a time
    /// and reporting each chunk to `ui`. The digest is that of `data`,
    /// whatever the chunk size and whatever `ui` does.
    pub fn hash_in_chunks<U: UiHandler>(
        &self,
        data: &[u8],
        chunk_size: usize,
        ui: &mut Notifier<U>,
    ) -> (digest: String)
        requires
            data@.len() <= MAX_INPUT_LEN,
            chunk_size > 0,
        ensures
            digest@ == digest_hex(*self, data@),
            digest@.len() == 2 * self.spec_digest_len(),
            final(ui).sent() == old(ui).sent() + progress_of_chunks(
                data@.len(),
                chunk_size as nat,
            ),
            phase_after(old(ui).sent()) == Some(Phase::InFile) ==> phase_after(final(ui).sent())
                == Some(Phase::InFile),
    {
        let mut hasher = StreamHasher::new(*self);
        let mut pos: usize = 0;
        let ghost expected = old(ui).sent() + progress_of_chunks(data@.len(), chunk_size as nat);
        proof {
            assert(data@.subrange(0, 0) =~= Seq::<u8>::empty());
        }
        while pos < data.len()
            invariant
                pos <= data.len(),
                chunk_size > 0,
                data@.len() <= MAX_INPUT_LEN,
                hasher.wf(),
                hasher.hash_type() == *self,
                hasher.absorbed() == data@.subrange(0, pos as int),
                expected == ui.sent() + progress_of_chunks(
                    (data@.len() - pos) as nat,
                    chunk_size as nat,
                ),
            decreases data.len() - pos,
        {
            let rest = data.len() - pos;
            let n = if rest < chunk_size {
                rest
            } else {
                chunk_size
            };
            let chunk = slice_subrange(data, pos, pos + n);
            let ghost told = ui.sent();
            proof {
                assert(data@.subrange(0, pos as int) + data@.subrange(pos as int, pos + n)
                    =~= data@.subrange(0, pos + n));
            }
            hasher.update(chunk);
            ui.file_progress(n as u64);
            proof {
                let step = Notification::FileProgress { bytes: n as u64 };
                let after = progress_of_chunks((rest - n) as nat, chunk_size as nat);
                assert(progress_of_chunks(rest as nat, chunk_size as nat) =~= seq![step] + after);
                assert(told + (seq![step] + after) =~= told.push(step) + after);
            }
            pos = pos + n;
        }
        proof {
            assert(data@.subrange(0, pos as int) =~= data@);
            assert(ui.sent() + Seq::<Notification>::empty() =~= ui.sent());
            if phase_after(old(ui).sent()) == Some(Phase::InFile) {
                lemma_progress_in_order(old(ui).sent(), data@.len(), chunk_size as nat);
            }
        }
        hasher.finalize()
    }
}

} // verus!
