//! Content addresses: the SHA-256 digest of a text, written in hex.

use sha2::Digest;
use vstd::prelude::*;

verus! {

/// The SHA-256 digest of the UTF-8 encoding of a text, as `sha2` computes it.
pub uninterp spec fn sha256_of(s: Seq<char>) -> Seq<u8>;

/// Relies on `sha2::Sha256::digest`: the digest of the text's bytes, which
/// is 32 bytes long.
#[verifier::external_body]
fn sha256(s: &str) -> (r: Vec<u8>)
    ensures
        r@ == sha256_of(s@),
        r@.len() == 32,
{
    sha2::Sha256::digest(s.as_bytes()).to_vec()
}

/// The lower-case hex digit of a value below 16.
pub open spec fn hex_digit_spec(n: u8) -> char {
    if n < 10 {
        (48 + n) as char
    } else {
        (87 + n) as char
    }
}

/// Two lower-case hex digits per byte, most significant first.
pub open spec fn hex_spec(b: Seq<u8>) -> Seq<char>
    decreases b.len(),
{
    if b.len() == 0 {
        Seq::empty()
    } else {
        hex_spec(b.drop_last()).push(hex_digit_spec(b.last() / 16)).push(
            hex_digit_spec(b.last() % 16),
        )
    }
}

fn hex_digit(n: u8) -> (r: char)
    requires
        n < 16,
    ensures
        r == hex_digit_spec(n),
{
    if n < 10 {
        (48u8 + n) as char
    } else {
        (87u8 + n) as char
    }
}

/// The lower-case hex form of `b`.
pub fn hex(b: &Vec<u8>) -> (r: String)
    ensures
        r@ == hex_spec(b@),
{
    let mut r = String::new();
    let mut i: usize = 0;
    while i < b.len()
        invariant
            i <= b@.len(),
            r@ == hex_spec(b@.take(i as int)),
        decreases b@.len() - i,
    {
        let x = b[i];
        r.push(hex_digit(x / 16));
        r.push(hex_digit(x % 16));
        assert(b@.take(i + 1).drop_last() == b@.take(i as int));
        i += 1;
    }
    assert(b@.take(b@.len() as int) == b@);
    r
}

/// The hex SHA-256 digest of `input`: the name of a record file.
pub fn hash(input: &str) -> (r: String)
    ensures
        r@ == hex_spec(sha256_of(input@)),
        r@.len() == 64,
{
    let d = sha256(input);
    proof {
        lemma_hex_len(d@);
    }
    hex(&d)
}

proof fn lemma_hex_len(b: Seq<u8>)
    ensures
        hex_spec(b).len() == 2 * b.len(),
    decreases b.len(),
{
    if b.len() > 0 {
        lemma_hex_len(b.drop_last());
    }
}

} // verus!
