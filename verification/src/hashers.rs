//! The hash implementations that the digest engine rests on.
//!
//! Nothing in this file is proved. Each function hands one call on to the
//! crate that implements the algorithm, and its contract records what that
//! crate documents: a hasher stands for the bytes it has been fed, feeding
//! appends to them, and finalizing yields the algorithm's digest of them all.
//! Which bytes a digest consists of is not stated: each algorithm's digest is
//! a function that has a name and no definition here.

use vstd::prelude::*;
use byteorder::ByteOrder;
use sha2::Digest;

verus! {

/// The largest number of bytes that a hasher is fed. Below it none of the
/// counters that the implementations keep (of bytes, of blocks, of bits)
/// leaves its range.
pub const MAX_INPUT_LEN: u64 = 0x1fff_ffff_ffff_ffff;

/// A computation of BLAKE2b-512 in progress: a `blake2::Blake2b512`, held here and kept
/// opaque. The type is an alias of a generic type bounded by type-level
/// numbers, which Verus does not take as a declared outside type.
#[verifier::external_body]
pub struct Blake2b512State {
    inner: blake2::Blake2b512,
}

/// The bytes that a hasher of BLAKE2b-512 has been fed so far, in order.
pub uninterp spec fn blake2b512_absorbed(h: Blake2b512State) -> Seq<u8>;

/// The BLAKE2b-512 digest of `data`, as `blake2::Blake2b512` computes it.
pub uninterp spec fn blake2b512_digest(data: Seq<u8>) -> Seq<u8>;

/// `Digest::new` of `blake2::Blake2b512`: a hasher that has been fed nothing.
#[verifier::external_body]
pub(crate) fn blake2b512_new() -> (h: Blake2b512State)
    ensures
        blake2b512_absorbed(h) == Seq::<u8>::empty(),
{
    Blake2b512State { inner: blake2::Blake2b512::new() }
}

/// `Digest::update` of `blake2::Blake2b512`: the hasher has then been fed `data` after
/// what it had been fed before.
#[verifier::external_body]
pub(crate) fn blake2b512_update(h: &mut Blake2b512State, data: &[u8])
    requires
        blake2b512_absorbed(*old(h)).len() + data@.len() <= MAX_INPUT_LEN,
    ensures
        blake2b512_absorbed(*final(h)) == blake2b512_absorbed(*old(h)) + data@,
{
    h.inner.update(data);
}

/// `Digest::finalize` of `blake2::Blake2b512`: the 64 bytes of the BLAKE2b-512 digest of
/// all that the hasher has been fed.
#[verifier::external_body]
pub(crate) fn blake2b512_finalize(h: Blake2b512State) -> (out: Vec<u8>)
    requires
        blake2b512_absorbed(h).len() <= MAX_INPUT_LEN,
    ensures
        out@ == blake2b512_digest(blake2b512_absorbed(h)),
        out@.len() == 64,
{
    h.inner.finalize().to_vec()
}

/// A computation of BLAKE2s-256 in progress: a `blake2::Blake2s256`, held here and kept
/// opaque. The type is an alias of a generic type bounded by type-level
/// numbers, which Verus does not take as a declared outside type.
#[verifier::external_body]
pub struct Blake2s256State {
    inner: blake2::Blake2s256,
}

/// The bytes that a hasher of BLAKE2s-256 has been fed so far, in order.
pub uninterp spec fn blake2s256_absorbed(h: Blake2s256State) -> Seq<u8>;

/// The BLAKE2s-256 digest of `data`, as `blake2::Blake2s256` computes it.
pub uninterp spec fn blake2s256_digest(data: Seq<u8>) -> Seq<u8>;

/// `Digest::new` of `blake2::Blake2s256`: a hasher that has been fed nothing.
#[verifier::external_body]
pub(crate) fn blake2s256_new() -> (h: Blake2s256State)
    ensures
        blake2s256_absorbed(h) == Seq::<u8>::empty(),
{
    Blake2s256State { inner: blake2::Blake2s256::new() }
}

/// `Digest::update` of `blake2::Blake2s256`: the hasher has then been fed `data` after
/// what it had been fed before.
#[verifier::external_body]
pub(crate) fn blake2s256_update(h: &mut Blake2s256State, data: &[u8])
    requires
        blake2s256_absorbed(*old(h)).len() + data@.len() <= MAX_INPUT_LEN,
    ensures
        blake2s256_absorbed(*final(h)) == blake2s256_absorbed(*old(h)) + data@,
{
    h.inner.update(data);
}

/// `Digest::finalize` of `blake2::Blake2s256`: the 32 bytes of the BLAKE2s-256 digest of
/// all that the hasher has been fed.
#[verifier::external_body]
pub(crate) fn blake2s256_finalize(h: Blake2s256State) -> (out: Vec<u8>)
    requires
        blake2s256_absorbed(h).len() <= MAX_INPUT_LEN,
    ensures
        out@ == blake2s256_digest(blake2s256_absorbed(h)),
        out@.len() == 32,
{
    h.inner.finalize().to_vec()
}

/// A computation of MD5 in progress: a `md5::Md5`, held here and kept
/// opaque. The type is an alias of a generic type bounded by type-level
/// numbers, which Verus does not take as a declared outside type.
#[verifier::external_body]
pub struct Md5State {
    inner: md5::Md5,
}

/// The bytes that a hasher of MD5 has been fed so far, in order.
pub uninterp spec fn md5_absorbed(h: Md5State) -> Seq<u8>;

/// The MD5 digest of `data`, as `md5::Md5` computes it.
pub uninterp spec fn md5_digest(data: Seq<u8>) -> Seq<u8>;

/// `Digest::new` of `md5::Md5`: a hasher that has been fed nothing.
#[verifier::external_body]
pub(crate) fn md5_new() -> (h: Md5State)
    ensures
        md5_absorbed(h) == Seq::<u8>::empty(),
{
    Md5State { inner: md5::Md5::new() }
}

/// `Digest::update` of `md5::Md5`: the hasher has then been fed `data` after
/// what it had been fed before.
#[verifier::external_body]
pub(crate) fn md5_update(h: &mut Md5State, data: &[u8])
    requires
        md5_absorbed(*old(h)).len() + data@.len() <= MAX_INPUT_LEN,
    ensures
        md5_absorbed(*final(h)) == md5_absorbed(*old(h)) + data@,
{
    h.inner.update(data);
}

/// `Digest::finalize` of `md5::Md5`: the 16 bytes of the MD5 digest of
/// all that the hasher has been fed.
#[verifier::external_body]
pub(crate) fn md5_finalize(h: Md5State) -> (out: Vec<u8>)
    requires
        md5_absorbed(h).len() <= MAX_INPUT_LEN,
    ensures
        out@ == md5_digest(md5_absorbed(h)),
        out@.len() == 16,
{
    h.inner.finalize().to_vec()
}

/// A computation of SHA-1 in progress: a `sha1::Sha1`, held here and kept
/// opaque. The type is an alias of a generic type bounded by type-level
/// numbers, which Verus does not take as a declared outside type.
#[verifier::external_body]
pub struct Sha1State {
    inner: sha1::Sha1,
}

/// The bytes that a hasher of SHA-1 has been fed so far, in order.
pub uninterp spec fn sha1_absorbed(h: Sha1State) -> Seq<u8>;

/// The SHA-1 digest of `data`, as `sha1::Sha1` computes it.
pub uninterp spec fn sha1_digest(data: Seq<u8>) -> Seq<u8>;

/// `Digest::new` of `sha1::Sha1`: a hasher that has been fed nothing.
#[verifier::external_body]
pub(crate) fn sha1_new() -> (h: Sha1State)
    ensures
        sha1_absorbed(h) == Seq::<u8>::empty(),
{
    Sha1State { inner: sha1::Sha1::new() }
}

/// `Digest::update` of `sha1::Sha1`: the hasher has then been fed `data` after
/// what it had been fed before.
#[verifier::external_body]
pub(crate) fn sha1_update(h: &mut Sha1State, data: &[u8])
    requires
        sha1_absorbed(*old(h)).len() + data@.len() <= MAX_INPUT_LEN,
    ensures
        sha1_absorbed(*final(h)) == sha1_absorbed(*old(h)) + data@,
{
    h.inner.update(data);
}

/// `Digest::finalize` of `sha1::Sha1`: the 20 bytes of the SHA-1 digest of
/// all that the hasher has been fed.
#[verifier::external_body]
pub(crate) fn sha1_finalize(h: Sha1State) -> (out: Vec<u8>)
    requires
        sha1_absorbed(h).len() <= MAX_INPUT_LEN,
    ensures
        out@ == sha1_digest(sha1_absorbed(h)),
        out@.len() == 20,
{
    h.inner.finalize().to_vec()
}

/// A computation of SHA-256 in progress: a `sha2::Sha256`, held here and kept
/// opaque. The type is an alias of a generic type bounded by type-level
/// numbers, which Verus does not take as a declared outside type.
#[verifier::external_body]
pub struct Sha256State {
    inner: sha2::Sha256,
}

/// The bytes that a hasher of SHA-256 has been fed so far, in order.
pub uninterp spec fn sha256_absorbed(h: Sha256State) -> Seq<u8>;

/// The SHA-256 digest of `data`, as `sha2::Sha256` computes it.
pub uninterp spec fn sha256_digest(data: Seq<u8>) -> Seq<u8>;

/// `Digest::new` of `sha2::Sha256`: a hasher that has been fed nothing.
#[verifier::external_body]
pub(crate) fn sha256_new() -> (h: Sha256State)
    ensures
        sha256_absorbed(h) == Seq::<u8>::empty(),
{
    Sha256State { inner: sha2::Sha256::new() }
}

/// `Digest::update` of `sha2::Sha256`: the hasher has then been fed `data` after
/// what it had been fed before.
#[verifier::external_body]
pub(crate) fn sha256_update(h: &mut Sha256State, data: &[u8])
    requires
        sha256_absorbed(*old(h)).len() + data@.len() <= MAX_INPUT_LEN,
    ensures
        sha256_absorbed(*final(h)) == sha256_absorbed(*old(h)) + data@,
{
    h.inner.update(data);
}

/// `Digest::finalize` of `sha2::Sha256`: the 32 bytes of the SHA-256 digest of
/// all that the hasher has been fed.
#[verifier::external_body]
pub(crate) fn sha256_finalize(h: Sha256State) -> (out: Vec<u8>)
    requires
        sha256_absorbed(h).len() <= MAX_INPUT_LEN,
    ensures
        out@ == sha256_digest(sha256_absorbed(h)),
        out@.len() == 32,
{
    h.inner.finalize().to_vec()
}

/// A computation of SHA3-256 in progress: a `sha3::Sha3_256`, held here and kept
/// opaque. The type is an alias of a generic type bounded by type-level
/// numbers, which Verus does not take as a declared outside type.
#[verifier::external_body]
pub struct Sha3_256State {
    inner: sha3::Sha3_256,
}

/// The bytes that a hasher of SHA3-256 has been fed so far, in order.
pub uninterp spec fn sha3_256_absorbed(h: Sha3_256State) -> Seq<u8>;

/// The SHA3-256 digest of `data`, as `sha3::Sha3_256` computes it.
pub uninterp spec fn sha3_256_digest(data: Seq<u8>) -> Seq<u8>;

/// `Digest::new` of `sha3::Sha3_256`: a hasher that has been fed nothing.
#[verifier::external_body]
pub(crate) fn sha3_256_new() -> (h: Sha3_256State)
    ensures
        sha3_256_absorbed(h) == Seq::<u8>::empty(),
{
    Sha3_256State { inner: sha3::Sha3_256::new() }
}

/// `Digest::update` of `sha3::Sha3_256`: the hasher has then been fed `data` after
/// what it had been fed before.
#[verifier::external_body]
pub(crate) fn sha3_256_update(h: &mut Sha3_256State, data: &[u8])
    requires
        sha3_256_absorbed(*old(h)).len() + data@.len() <= MAX_INPUT_LEN,
    ensures
        sha3_256_absorbed(*final(h)) == sha3_256_absorbed(*old(h)) + data@,
{
    h.inner.update(data);
}

/// `Digest::finalize` of `sha3::Sha3_256`: the 32 bytes of the SHA3-256 digest of
/// all that the hasher has been fed.
#[verifier::external_body]
pub(crate) fn sha3_256_finalize(h: Sha3_256State) -> (out: Vec<u8>)
    requires
        sha3_256_absorbed(h).len() <= MAX_INPUT_LEN,
    ensures
        out@ == sha3_256_digest(sha3_256_absorbed(h)),
        out@.len() == 32,
{
    h.inner.finalize().to_vec()
}

/// A computation of BLAKE3 in progress: `blake3::Hasher`, kept opaque.
#[verifier::external_type_specification]
#[verifier::external_body]
pub struct ExBlake3Hasher(blake3::Hasher);

/// The bytes that a hasher of BLAKE3 has been fed so far, in order.
pub uninterp spec fn blake3_absorbed(h: blake3::Hasher) -> Seq<u8>;

/// The BLAKE3 digest of `data`, as `blake3::Hasher` computes it.
pub uninterp spec fn blake3_digest(data: Seq<u8>) -> Seq<u8>;

/// `blake3::Hasher::new`: a hasher for the regular hash function that has
/// been fed nothing.
#[verifier::external_body]
pub(crate) fn blake3_new() -> (h: blake3::Hasher)
    ensures
        blake3_absorbed(h) == Seq::<u8>::empty(),
{
    blake3::Hasher::new()
}

/// `blake3::Hasher::update`: the hasher has then been fed `data` after what
/// it had been fed before.
#[verifier::external_body]
pub(crate) fn blake3_update(h: &mut blake3::Hasher, data: &[u8])
    requires
        blake3_absorbed(*old(h)).len() + data@.len() <= MAX_INPUT_LEN,
    ensures
        blake3_absorbed(*final(h)) == blake3_absorbed(*old(h)) + data@,
{
    h.update(data);
}

/// `blake3::Hasher::finalize`, then `blake3::Hash::to_hex`: the BLAKE3 digest
/// of all that the hasher has been fed, 32 bytes, written as 64 lower-case
/// hexadecimal digits.
#[verifier::external_body]
pub(crate) fn blake3_finalize_hex(h: &blake3::Hasher) -> (hex: String)
    requires
        blake3_absorbed(*h).len() <= MAX_INPUT_LEN,
    ensures
        hex@ == hex_lower(blake3_digest(blake3_absorbed(*h))),
        hex@.len() == 64,
{
    h.finalize().to_hex().to_string()
}

/// A computation of CRC-32 in progress: `crc32fast::Hasher`, kept opaque.
#[verifier::external_type_specification]
#[verifier::external_body]
pub struct ExCrc32Hasher(crc32fast::Hasher);

/// The bytes that a hasher of CRC-32 has been fed so far, in order.
pub uninterp spec fn crc32_absorbed(h: crc32fast::Hasher) -> Seq<u8>;

/// The CRC-32 checksum of `data`, as `crc32fast::Hasher` computes it.
pub uninterp spec fn crc32_checksum(data: Seq<u8>) -> u32;

/// `crc32fast::Hasher::new`: a hasher that has been fed nothing.
#[verifier::external_body]
pub(crate) fn crc32_new() -> (h: crc32fast::Hasher)
    ensures
        crc32_absorbed(h) == Seq::<u8>::empty(),
{
    crc32fast::Hasher::new()
}

/// `crc32fast::Hasher::update`: the hasher has then been fed `data` after
/// what it had been fed before. It counts the bytes in a `u64`, which the
/// bound keeps in range.
#[verifier::external_body]
pub(crate) fn crc32_update(h: &mut crc32fast::Hasher, data: &[u8])
    requires
        crc32_absorbed(*old(h)).len() + data@.len() <= MAX_INPUT_LEN,
    ensures
        crc32_absorbed(*final(h)) == crc32_absorbed(*old(h)) + data@,
{
    h.update(data);
}

/// `crc32fast::Hasher::finalize`: the CRC-32 checksum of all that the hasher
/// has been fed.
#[verifier::external_body]
pub(crate) fn crc32_finalize(h: crc32fast::Hasher) -> (sum: u32)
    ensures
        sum == crc32_checksum(crc32_absorbed(h)),
{
    h.finalize()
}

/// The four bytes of `n`, the most significant first.
pub open spec fn big_endian_bytes(n: u32) -> Seq<u8> {
    seq![
        (n / 0x100_0000) as u8,
        (n / 0x1_0000 % 0x100) as u8,
        (n / 0x100 % 0x100) as u8,
        (n % 0x100) as u8,
    ]
}

/// `byteorder::BigEndian::write_u32` into a buffer of four bytes: the bytes
/// of `n`, the most significant first.
#[verifier::external_body]
pub(crate) fn big_endian_u32(n: u32) -> (out: Vec<u8>)
    ensures
        out@ == big_endian_bytes(n),
{
    let mut buf = [0u8; 4];
    byteorder::BigEndian::write_u32(&mut buf, n);
    buf.to_vec()
}

/// The lower-case hexadecimal digit of a value below sixteen.
pub open spec fn hex_digit(n: int) -> char {
    seq!['0', '1', '2', '3', '4', '5', '6', '7', '8', '9', 'a', 'b', 'c', 'd', 'e', 'f'][n]
}

/// The bytes of `data` written as lower-case hexadecimal, two digits to a
/// byte, the high half first.
pub open spec fn hex_lower(data: Seq<u8>) -> Seq<char> {
    Seq::new(
        2 * data.len(),
        |i: int|
            if i % 2 == 0 {
                hex_digit(data[i / 2] as int / 16)
            } else {
                hex_digit(data[i / 2] as int % 16)
            },
    )
}

/// `hex::encode`: `data` written as lower-case hexadecimal.
#[verifier::external_body]
pub(crate) fn hex_encode(data: &[u8]) -> (s: String)
    ensures
        s@ == hex_lower(data@),
{
    hex::encode(data)
}

} // verus!
