//! Strings: their order, and putting them together.
//!
//! Manifest keys are ordered as Rust orders strings: lexicographically by
//! their UTF-8 bytes. The order is stated over that encoding, so the order
//! of two keys is decided by the first byte in which they differ.
//!
//! Text is put together char by char, numbers in decimal.

use vstd::prelude::*;
use vstd::utf8::{encode_utf8, decode_utf8, encode_utf8_decode_utf8};

verus! {

/// How one key stands to another in the key order.
#[derive(Clone, Copy, Debug, PartialEq, Eq)]
pub enum KeyOrder {
    Less,
    Equal,
    Greater,
}

/// Strict lexicographic order on byte strings.
pub open spec fn bytes_lt(a: Seq<u8>, b: Seq<u8>) -> bool
    decreases a.len(),
{
    if b.len() == 0 {
        false
    } else if a.len() == 0 {
        true
    } else if a[0] != b[0] {
        a[0] < b[0]
    } else {
        bytes_lt(a.drop_first(), b.drop_first())
    }
}

/// Strict order on keys: the byte order of their UTF-8 encodings.
pub open spec fn key_lt(a: Seq<char>, b: Seq<char>) -> bool {
    bytes_lt(encode_utf8(a), encode_utf8(b))
}

/// No byte string precedes itself.
pub proof fn lemma_bytes_lt_irreflexive(a: Seq<u8>)
    ensures
        !bytes_lt(a, a),
    decreases a.len(),
{
    if a.len() > 0 {
        lemma_bytes_lt_irreflexive(a.drop_first());
    }
}

/// Of two byte strings at most one precedes the other.
pub proof fn lemma_bytes_lt_asymmetric(a: Seq<u8>, b: Seq<u8>)
    requires
        bytes_lt(a, b),
    ensures
        !bytes_lt(b, a),
        a != b,
    decreases a.len(),
{
    lemma_bytes_lt_irreflexive(a);
    if a.len() > 0 && b.len() > 0 && a[0] == b[0] {
        lemma_bytes_lt_asymmetric(a.drop_first(), b.drop_first());
    }
}

/// The byte order is transitive.
pub proof fn lemma_bytes_lt_transitive(a: Seq<u8>, b: Seq<u8>, c: Seq<u8>)
    requires
        bytes_lt(a, b),
        bytes_lt(b, c),
    ensures
        bytes_lt(a, c),
    decreases a.len(),
{
    if a.len() > 0 && b.len() > 0 && c.len() > 0 && a[0] == b[0] && b[0] == c[0] {
        lemma_bytes_lt_transitive(a.drop_first(), b.drop_first(), c.drop_first());
    }
}

/// Two different byte strings are ordered one way or the other.
pub proof fn lemma_bytes_lt_total(a: Seq<u8>, b: Seq<u8>)
    ensures
        bytes_lt(a, b) || a == b || bytes_lt(b, a),
    decreases a.len(),
{
    if a.len() == 0 || b.len() == 0 {
        if a.len() == 0 && b.len() == 0 {
            assert(a =~= b);
        }
    } else if a[0] == b[0] {
        lemma_bytes_lt_total(a.drop_first(), b.drop_first());
        if a.drop_first() == b.drop_first() {
            assert(a =~= seq![a[0]] + a.drop_first());
            assert(b =~= seq![b[0]] + b.drop_first());
        }
    }
}

/// Keys with the same encoding are the same key.
pub proof fn lemma_encoding_injective(a: Seq<char>, b: Seq<char>)
    requires
        encode_utf8(a) == encode_utf8(b),
    ensures
        a == b,
{
    encode_utf8_decode_utf8(a);
    encode_utf8_decode_utf8(b);
    assert(decode_utf8(encode_utf8(a)) == a);
    assert(decode_utf8(encode_utf8(b)) == b);
}

/// No key precedes itself.
pub proof fn lemma_key_lt_irreflexive(a: Seq<char>)
    ensures
        !key_lt(a, a),
{
    lemma_bytes_lt_irreflexive(encode_utf8(a));
}

/// Of two keys at most one precedes the other, and then they differ.
pub proof fn lemma_key_lt_asymmetric(a: Seq<char>, b: Seq<char>)
    requires
        key_lt(a, b),
    ensures
        !key_lt(b, a),
        a != b,
{
    lemma_bytes_lt_asymmetric(encode_utf8(a), encode_utf8(b));
}

/// The key order is transitive.
pub proof fn lemma_key_lt_transitive(a: Seq<char>, b: Seq<char>, c: Seq<char>)
    requires
        key_lt(a, b),
        key_lt(b, c),
    ensures
        key_lt(a, c),
{
    lemma_bytes_lt_transitive(encode_utf8(a), encode_utf8(b), encode_utf8(c));
}

/// Two different keys are ordered one way or the other.
pub proof fn lemma_key_lt_total(a: Seq<char>, b: Seq<char>)
    ensures
        key_lt(a, b) || a == b || key_lt(b, a),
{
    lemma_bytes_lt_total(encode_utf8(a), encode_utf8(b));
    if encode_utf8(a) == encode_utf8(b) {
        lemma_encoding_injective(a, b);
    }
}

/// Compares two byte strings lexicographically.
pub fn compare_bytes(a: &[u8], b: &[u8]) -> (r: KeyOrder)
    ensures
        r == KeyOrder::Less <==> bytes_lt(a@, b@),
        r == KeyOrder::Equal <==> a@ == b@,
        r == KeyOrder::Greater <==> bytes_lt(b@, a@),
{
    let mut i: usize = 0;
    proof {
        assert(a@.skip(0) =~= a@);
        assert(b@.skip(0) =~= b@);
    }
    while i < a.len() && i < b.len()
        invariant
            i <= a.len(),
            i <= b.len(),
            a@.take(i as int) == b@.take(i as int),
            bytes_lt(a@, b@) == bytes_lt(a@.skip(i as int), b@.skip(i as int)),
            bytes_lt(b@, a@) == bytes_lt(b@.skip(i as int), a@.skip(i as int)),
        decreases a.len() - i,
    {
        let x = a[i];
        let y = b[i];
        proof {
            assert(a@.skip(i as int).drop_first() =~= a@.skip(i as int + 1));
            assert(b@.skip(i as int).drop_first() =~= b@.skip(i as int + 1));
            assert(a@.skip(i as int)[0] == x);
            assert(b@.skip(i as int)[0] == y);
        }
        if x < y {
            proof {
                lemma_bytes_lt_asymmetric(a@, b@);
            }
            return KeyOrder::Less;
        }
        if x > y {
            proof {
                lemma_bytes_lt_asymmetric(b@, a@);
            }
            return KeyOrder::Greater;
        }
        proof {
            assert(a@.take(i as int + 1) =~= a@.take(i as int).push(x));
            assert(b@.take(i as int + 1) =~= b@.take(i as int).push(y));
        }
        i += 1;
    }
    if a.len() < b.len() {
        proof {
            lemma_bytes_lt_asymmetric(a@, b@);
        }
        KeyOrder::Less
    } else if a.len() > b.len() {
        proof {
            lemma_bytes_lt_asymmetric(b@, a@);
        }
        KeyOrder::Greater
    } else {
        proof {
            assert(a@.take(i as int) =~= a@);
            assert(b@.take(i as int) =~= b@);
            lemma_bytes_lt_irreflexive(a@);
        }
        KeyOrder::Equal
    }
}

/// Compares two keys in the key order.
pub fn compare_keys(a: &str, b: &str) -> (r: KeyOrder)
    ensures
        r == KeyOrder::Less <==> key_lt(a@, b@),
        r == KeyOrder::Equal <==> a@ == b@,
        r == KeyOrder::Greater <==> key_lt(b@, a@),
{
    let r = compare_bytes(a.as_bytes(), b.as_bytes());
    proof {
        if encode_utf8(a@) == encode_utf8(b@) {
            lemma_encoding_injective(a@, b@);
        }
    }
    r
}

/// Whether two strings hold the same text.
pub fn same_text(a: &str, b: &str) -> (r: bool)
    ensures
        r == (a@ == b@),
{
    match compare_keys(a, b) {
        KeyOrder::Equal => true,
        _ => false,
    }
}

/// The texts of a run of strings.
pub open spec fn string_texts(strings: Seq<String>) -> Seq<Seq<char>> {
    strings.map_values(|s: String| s@)
}

/// `String::push`: the string then ends with `c` after what it held.
#[verifier::external_body]
pub(crate) fn push_char(s: &mut String, c: char)
    ensures
        final(s)@ == old(s)@.push(c),
{
    s.push(c);
}

/// Appends the chars of `run` to `s`.
pub fn push_chars(s: &mut String, run: &Vec<char>)
    ensures
        final(s)@ == old(s)@ + run@,
{
    let mut i: usize = 0;
    proof {
        assert(run@.take(0) =~= Seq::<char>::empty());
        assert(s@ =~= old(s)@ + run@.take(0));
    }
    while i < run.len()
        invariant
            i <= run.len(),
            s@ == old(s)@ + run@.take(i as int),
        decreases run.len() - i,
    {
        push_char(s, run[i]);
        proof {
            assert(run@.take(i + 1) =~= run@.take(i as int).push(run@[i as int]));
            assert(s@ =~= old(s)@ + run@.take(i + 1));
        }
        i = i + 1;
    }
    proof {
        assert(run@.take(i as int) =~= run@);
    }
}

/// The decimal digit of a value below ten.
pub open spec fn digit_char(d: nat) -> char {
    seq!['0', '1', '2', '3', '4', '5', '6', '7', '8', '9'][d as int]
}

/// `n` written in decimal, without leading zeros.
pub open spec fn decimal(n: nat) -> Seq<char>
    decreases n,
{
    if n < 10 {
        seq![digit_char(n)]
    } else {
        decimal(n / 10).push(digit_char(n % 10))
    }
}

/// The decimal digit of `d`.
fn digit_of(d: u64) -> (c: char)
    requires
        d < 10,
    ensures
        c == digit_char(d as nat),
{
    if d == 0 {
        '0'
    } else if d == 1 {
        '1'
    } else if d == 2 {
        '2'
    } else if d == 3 {
        '3'
    } else if d == 4 {
        '4'
    } else if d == 5 {
        '5'
    } else if d == 6 {
        '6'
    } else if d == 7 {
        '7'
    } else if d == 8 {
        '8'
    } else {
        '9'
    }
}

/// Appends `n`, written in decimal, to `s`.
pub fn push_decimal(s: &mut String, n: u64)
    ensures
        final(s)@ == old(s)@ + decimal(n as nat),
    decreases n,
{
    if n >= 10 {
        push_decimal(s, n / 10);
    }
    push_char(s, digit_of(n % 10));
    proof {
        if n >= 10 {
            assert(s@ =~= old(s)@ + decimal(n as nat));
        } else {
            assert(s@ =~= old(s)@ + decimal(n as nat));
        }
    }
}

/// `n` written in decimal.
pub fn decimal_string(n: u64) -> (s: String)
    ensures
        s@ == decimal(n as nat),
{
    let mut s = String::new();
    push_decimal(&mut s, n);
    proof {
        assert(Seq::<char>::empty() + decimal(n as nat) =~= decimal(n as nat));
    }
    s
}

} // verus!
