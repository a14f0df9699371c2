use vstd::prelude::*;

use sha2::Digest;

use crate::text::string_from_chars;

verus! {

/// The SHA-256 digest of `data`.
pub uninterp spec fn sha256_spec(data: Seq<u8>) -> Seq<u8>;

/// Hashes `data` with `sha2::Sha256::digest`; the digest is 32 bytes, as
/// the hasher's output size says.
#[verifier::external_body]
fn sha256_digest(data: &[u8]) -> (res: Vec<u8>)
    ensures
        res@ == sha256_spec(data@),
        res@.len() == 32,
{
    sha2::Sha256::digest(data).to_vec()
}

/// The lower-case hexadecimal digit of `n` (`0 <= n < 16`).
pub open spec fn hex_digit(n: int) -> char {
    if n < 10 {
        (48 + n) as char
    } else {
        (87 + n) as char
    }
}

/// Each byte as two lower-case hexadecimal digits, high half first.
pub open spec fn hex_text(bytes: Seq<u8>) -> Seq<char>
    decreases bytes.len(),
{
    if bytes.len() == 0 {
        seq![]
    } else {
        hex_text(bytes.drop_last()) + seq![hex_digit(bytes.last() as int / 16), hex_digit(bytes.last() as int % 16)]
    }
}

fn hex_digit_char(n: u8) -> (c: char)
    requires
        n < 16,
    ensures
        c == hex_digit(n as int),
{
    let digits: [char; 16] = ['0', '1', '2', '3', '4', '5', '6', '7', '8', '9', 'a', 'b', 'c', 'd', 'e', 'f'];
    let c = digits[n as usize];
    assert(c == hex_digit(n as int)) by {
        assert(digits@[n as int] == c);
        assert('0' as int == 48 && 'a' as int == 97 && 'f' as int == 102 && '9' as int == 57);
        assert(digits@ =~= seq!['0', '1', '2', '3', '4', '5', '6', '7', '8', '9', 'a', 'b', 'c', 'd', 'e', 'f']);
    }
    c
}

/// The bytes written in lower-case hexadecimal, as `{:x}` writes a digest.
pub fn hex_lower(bytes: &[u8]) -> (res: String)
    ensures
        res@ == hex_text(bytes@),
{
    let mut chars: Vec<char> = Vec::new();
    let mut i: usize = 0;
    while i < bytes.len()
        invariant
            i <= bytes@.len(),
            chars@ == hex_text(bytes@.take(i as int)),
        decreases bytes@.len() - i,
    {
        let b = bytes[i];
        chars.push(hex_digit_char(b / 16));
        chars.push(hex_digit_char(b % 16));
        assert(bytes@.take(i as int + 1).drop_last() =~= bytes@.take(i as int));
        i = i + 1;
    }
    assert(bytes@.take(bytes@.len() as int) =~= bytes@);
    string_from_chars(&chars)
}

/// The checksum and size recorded for an artifact's contents: the SHA-256
/// digest in lower-case hexadecimal, and the number of bytes.
pub fn recompute_artifact_metadata(bytes: &[u8]) -> (res: (String, u64))
    ensures
        res.0@ == hex_text(sha256_spec(bytes@)),
        res.0@.len() == 64,
        res.1 == bytes@.len(),
{
    let digest = sha256_digest(bytes);
    let text = hex_lower(digest.as_slice());
    proof {
        lemma_hex_text_len(digest@);
    }
    (text, bytes.len() as u64)
}

/// Two digits per byte.
pub proof fn lemma_hex_text_len(bytes: Seq<u8>)
    ensures
        hex_text(bytes).len() == 2 * bytes.len(),
    decreases bytes.len(),
{
    if bytes.len() > 0 {
        lemma_hex_text_len(bytes.drop_last());
    }
}

} // verus!
