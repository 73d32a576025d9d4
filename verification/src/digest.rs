//! SHA-256 digests of byte strings, written as `sha256:` followed by the
//! digest in lowercase hexadecimal.

use vstd::prelude::*;
use sha2::Digest;
use crate::calibration::{is_lower_hex_digit, is_sha256_text};
use crate::text::push_char;

verus! {

/// The SHA-256 digest (FIPS 180-4) of a byte string.
pub uninterp spec fn sha256_of(bytes: Seq<u8>) -> Seq<u8>;

/// Trusted: `sha2::Sha256::digest`, which returns the 32-byte SHA-256
/// digest of its input.
#[verifier::external_body]
fn sha256_bytes(bytes: &[u8]) -> (r: Vec<u8>)
    ensures
        r@ == sha256_of(bytes@),
        r@.len() == 32,
{
    sha2::Sha256::digest(bytes).to_vec()
}

/// The lowercase hexadecimal digit of a nibble.
pub open spec fn hex_digit(nibble: u8) -> char
    recommends
        nibble < 16,
{
    if nibble < 10 {
        (nibble + 48) as char
    } else {
        (nibble + 87) as char
    }
}

/// Two lowercase hexadecimal digits per byte, high nibble first.
pub open spec fn hex_lower(bytes: Seq<u8>) -> Seq<char>
    decreases bytes.len(),
{
    if bytes.len() == 0 {
        Seq::empty()
    } else {
        let b = bytes.last();
        hex_lower(bytes.drop_last()) + seq![hex_digit(b / 16), hex_digit(b % 16)]
    }
}

/// `sha256:` followed by the lowercase hexadecimal SHA-256 digest.
pub open spec fn digest_text(bytes: Seq<u8>) -> Seq<char> {
    "sha256:"@ + hex_lower(sha256_of(bytes))
}

fn nibble_digit(nibble: u8) -> (r: char)
    requires
        nibble < 16,
    ensures
        r == hex_digit(nibble),
{
    if nibble < 10 {
        (nibble + 48) as char
    } else {
        (nibble + 87) as char
    }
}

/// Appends the lowercase hexadecimal form of `bytes` to `out`.
fn push_hex(out: &mut String, bytes: &[u8])
    ensures
        final(out)@ == old(out)@ + hex_lower(bytes@),
{
    let n = bytes.len();
    let mut i: usize = 0;
    let ghost start = out@;
    while i < n
        invariant
            n == bytes@.len(),
            i <= n,
            out@ == start + hex_lower(bytes@.subrange(0, i as int)),
        decreases n - i,
    {
        let b = bytes[i];
        let ghost before = out@;
        push_char(out, nibble_digit(b / 16));
        push_char(out, nibble_digit(b % 16));
        proof {
            let prefix = bytes@.subrange(0, i + 1);
            assert(prefix.drop_last() =~= bytes@.subrange(0, i as int));
            assert(prefix.last() == b);
            assert(out@ =~= start + hex_lower(prefix));
        }
        i = i + 1;
    }
    assert(bytes@.subrange(0, n as int) =~= bytes@);
}

/// Lowercase hexadecimal encoding, two digits per byte.
pub fn hex_encode(bytes: &[u8]) -> (r: String)
    ensures
        r@ == hex_lower(bytes@),
{
    let mut out = String::new();
    push_hex(&mut out, bytes);
    assert(out@ =~= hex_lower(bytes@));
    out
}

/// The `sha256:`-prefixed lowercase hexadecimal digest of `bytes`.
pub fn sha256_text(bytes: &[u8]) -> (r: String)
    ensures
        r@ == digest_text(bytes@),
        is_sha256_text(r@),
{
    let digest = sha256_bytes(bytes);
    let mut out = "sha256:".to_owned();
    push_hex(&mut out, digest.as_slice());
    proof {
        lemma_digest_text_is_sha256_text(digest@);
    }
    out
}

/// Every hex digit is a lowercase hexadecimal digit.
proof fn lemma_hex_digits(bytes: Seq<u8>)
    ensures
        forall|k: int| 0 <= k < hex_lower(bytes).len() ==> is_lower_hex_digit(#[trigger] hex_lower(bytes)[k]),
    decreases bytes.len(),
{
    if bytes.len() > 0 {
        let b = bytes.last();
        lemma_hex_digits(bytes.drop_last());
        lemma_hex_len(bytes.drop_last());
        let earlier = hex_lower(bytes.drop_last());
        let pair = seq![hex_digit(b / 16), hex_digit(b % 16)];
        assert(hex_lower(bytes) == earlier + pair);
        assert(is_lower_hex_digit(hex_digit(b / 16)));
        assert(is_lower_hex_digit(hex_digit(b % 16)));
        assert forall|k: int| 0 <= k < hex_lower(bytes).len() implies is_lower_hex_digit(
            #[trigger] hex_lower(bytes)[k],
        ) by {
            if k < earlier.len() {
                assert(hex_lower(bytes)[k] == earlier[k]);
            } else {
                assert(hex_lower(bytes)[k] == pair[k - earlier.len()]);
            }
        }
    }
}

/// The digest text of a 32-byte digest is `sha256:` followed by 64
/// lowercase hexadecimal digits, the form that custody checks accept.
pub proof fn lemma_digest_text_is_sha256_text(digest: Seq<u8>)
    requires
        digest.len() == 32,
    ensures
        is_sha256_text("sha256:"@ + hex_lower(digest)),
{
    reveal_strlit("sha256:");
    lemma_hex_len(digest);
    lemma_hex_digits(digest);
    let text = "sha256:"@ + hex_lower(digest);
    assert(text.subrange(0, 7) =~= "sha256:"@);
    assert forall|k: int| 7 <= k < 71 implies is_lower_hex_digit(#[trigger] text[k]) by {
        assert(text[k] == hex_lower(digest)[k - 7]);
    }
}

/// Hex encoding doubles the length.
pub proof fn lemma_hex_len(bytes: Seq<u8>)
    ensures
        hex_lower(bytes).len() == 2 * bytes.len(),
    decreases bytes.len(),
{
    if bytes.len() > 0 {
        lemma_hex_len(bytes.drop_last());
    }
}

} // verus!
