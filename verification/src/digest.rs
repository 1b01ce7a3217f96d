//! SHA-256 digests, hexadecimal text and random key material.

use sha2::Digest;
use vstd::prelude::*;

verus! {

/// The SHA-256 digest of `data`, as `sha2::Sha256` computes it.
pub uninterp spec fn sha256_digest(data: Seq<u8>) -> Seq<u8>;

/// SHA-256 of `data` through `sha2::Sha256::digest`.
/// Trusted: the result is the SHA-256 digest of `data` (named, not restated)
/// and is 32 bytes long, the output size `sha2` declares for `Sha256`.
#[verifier::external_body]
pub fn sha256(data: &[u8]) -> (digest: Vec<u8>)
    ensures
        digest@ == sha256_digest(data@),
        digest@.len() == 32,
{
    sha2::Sha256::digest(data).to_vec()
}

/// The lowercase hexadecimal digit for a value below 16.
pub open spec fn hex_digit(d: u8) -> char {
    if d < 10 {
        ((48 + d) as u8) as char
    } else {
        ((87 + d) as u8) as char
    }
}

/// Lowercase hexadecimal text of `bytes`: two digits per byte, high nibble first.
pub open spec fn hex_text(bytes: Seq<u8>) -> Seq<char>
    decreases bytes.len(),
{
    if bytes.len() == 0 {
        Seq::empty()
    } else {
        hex_text(bytes.drop_last()) + seq![hex_digit(bytes.last() / 16), hex_digit(bytes.last() % 16)]
    }
}

/// Hex text writes every byte, in order, as exactly two lowercase digits,
/// high nibble first: the text is twice as long as the bytes, and the two
/// characters at `2 * i` and `2 * i + 1` are `0`-`9` or `a`-`f` for the high
/// and the low four bits of byte `i`.
pub proof fn lemma_hex_text_two_digits_per_byte(bytes: Seq<u8>)
    ensures
        hex_text(bytes).len() == 2 * bytes.len(),
        forall|i: int|
            0 <= i < bytes.len() ==> {
                let hi = (#[trigger] bytes[i]) / 16;
                let lo = bytes[i] % 16;
                &&& hex_text(bytes)[2 * i] as u32 == (if hi < 10 { 48 + hi } else { 87 + hi })
                &&& hex_text(bytes)[2 * i + 1] as u32 == (if lo < 10 { 48 + lo } else { 87 + lo })
            },
    decreases bytes.len(),
{
    if bytes.len() > 0 {
        let rest = bytes.drop_last();
        lemma_hex_text_two_digits_per_byte(rest);
        let b = bytes.last();
        assert(hex_digit(b / 16) as u32 == (if b / 16 < 10 { 48 + b / 16 } else { 87 + b / 16 }));
        assert(hex_digit(b % 16) as u32 == (if b % 16 < 10 { 48 + b % 16 } else { 87 + b % 16 }));
        assert forall|i: int| 0 <= i < bytes.len() implies {
            let hi = (#[trigger] bytes[i]) / 16;
            let lo = bytes[i] % 16;
            &&& hex_text(bytes)[2 * i] as u32 == (if hi < 10 { 48 + hi } else { 87 + hi })
            &&& hex_text(bytes)[2 * i + 1] as u32 == (if lo < 10 { 48 + lo } else { 87 + lo })
        } by {
            if i < rest.len() {
                assert(bytes[i] == rest[i]);
                assert(hex_text(bytes)[2 * i] == hex_text(rest)[2 * i]);
                assert(hex_text(bytes)[2 * i + 1] == hex_text(rest)[2 * i + 1]);
            } else {
                assert(bytes[i] == b);
            }
        }
    }
}

/// Hex text of `data` through `hex::encode`.
/// Trusted: the text is `hex_text(data)`, which is how `hex::encode` writes
/// each byte with its lowercase table.
#[verifier::external_body]
pub fn hex_encode(data: &[u8]) -> (text: String)
    ensures
        text@ == hex_text(data@),
{
    hex::encode(data)
}

/// An ASCII letter or digit.
pub open spec fn is_ascii_alphanumeric_spec(c: char) -> bool {
    ||| ('a' <= c && c <= 'z')
    ||| ('A' <= c && c <= 'Z')
    ||| ('0' <= c && c <= '9')
}

/// `len` characters drawn by `rand::thread_rng().sample_iter(&Alphanumeric)`.
/// Trusted: exactly `len` characters, each an ASCII letter or digit, which is
/// the set `Alphanumeric` samples from. Which characters come is left unsaid: it is chance.
#[verifier::external_body]
pub fn random_alphanumeric(len: usize) -> (secret: String)
    ensures
        secret@.len() == len,
        forall|i: int| 0 <= i < len ==> is_ascii_alphanumeric_spec(#[trigger] secret@[i]),
{
    rand::Rng::sample_iter(rand::thread_rng(), &rand::distributions::Alphanumeric).take(len).map(
        char::from,
    ).collect()
}

} // verus!
