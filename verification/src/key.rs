//! Cache keys: a namespace prefix, a colon, and the SHA-256 digest of the
//! request's JSON text in lower-case hexadecimal.

use sha2::Digest;
use sha2::Sha256;
use vstd::prelude::*;
use vstd::utf8::encode_utf8;

use crate::text::digit_char;

verus! {

/// The SHA-256 digest of `data`.
pub uninterp spec fn sha256(data: Seq<u8>) -> Seq<u8>;

/// The lower-case hexadecimal digit that stands for `n`, for `n` below sixteen.
pub open spec fn hex_digit(n: nat) -> char {
    if n < 10 {
        digit_char(n)
    } else if n == 10 {
        'a'
    } else if n == 11 {
        'b'
    } else if n == 12 {
        'c'
    } else if n == 13 {
        'd'
    } else if n == 14 {
        'e'
    } else {
        'f'
    }
}

/// `data` in lower-case hexadecimal: two digits for each byte, the high
/// four bits first.
pub open spec fn hex_lower(data: Seq<u8>) -> Seq<char> {
    Seq::new(
        2 * data.len(),
        |i: int|
            if i % 2 == 0 {
                hex_digit((data[i / 2] / 16) as nat)
            } else {
                hex_digit((data[i / 2] % 16) as nat)
            },
    )
}

/// The key that a prefix and a digest make: the prefix, a colon, and the
/// digest in lower-case hexadecimal.
pub open spec fn key_of_digest(prefix: Seq<char>, digest: Seq<u8>) -> Seq<char> {
    prefix + seq![':'] + hex_lower(digest)
}

/// The cache key of a request under a prefix: the key that the prefix makes
/// with the SHA-256 digest of the request's JSON text.
pub open spec fn cache_key(prefix: Seq<char>, request: Seq<char>) -> Seq<char> {
    key_of_digest(prefix, sha256(encode_utf8(request)))
}

/// Calls `Sha256::new`, `update` and `finalize` of the crate sha2. Trusted:
/// the bytes returned are the SHA-256 digest of `data`, which is 32 bytes long.
#[verifier::external_body]
pub(crate) fn sha256_digest(data: &[u8]) -> (digest: Vec<u8>)
    ensures
        digest@ == sha256(data@),
        digest@.len() == 32,
{
    let mut hasher = Sha256::new();
    hasher.update(data);
    hasher.finalize().to_vec()
}

/// Calls `hex::encode`. Trusted: the text returned holds two lower-case
/// hexadecimal digits for each byte of `data`, in order, high half first.
#[verifier::external_body]
fn hex_encode(data: &[u8]) -> (text: String)
    ensures
        text@ == hex_lower(data@),
{
    hex::encode(data)
}

/// Writes the key that `prefix` and `digest` make.
pub fn compose_key(prefix: &str, digest: &[u8]) -> (key: String)
    ensures
        key@ == key_of_digest(prefix@, digest@),
        key@.len() == prefix@.len() + 1 + 2 * digest@.len(),
{
    let hash = hex_encode(digest);
    let mut key = prefix.to_owned();
    key.append(":");
    key.append(hash.as_str());
    proof {
        reveal_strlit(":");
        assert(key@ =~= key_of_digest(prefix@, digest@));
    }
    key
}

/// Two different values below sixteen have different hexadecimal digits.
pub proof fn lemma_hex_digit_injective(a: nat, b: nat)
    requires
        a < 16,
        b < 16,
        hex_digit(a) == hex_digit(b),
    ensures
        a == b,
{
}

/// Two byte strings with the same hexadecimal text are the same.
pub proof fn lemma_hex_lower_injective(a: Seq<u8>, b: Seq<u8>)
    requires
        hex_lower(a) == hex_lower(b),
    ensures
        a == b,
{
    assert(hex_lower(a).len() == 2 * a.len());
    assert(hex_lower(b).len() == 2 * b.len());
    assert forall|k: int| 0 <= k < a.len() implies a[k] == b[k] by {
        let ha = hex_lower(a);
        let hb = hex_lower(b);
        assert(ha[2 * k] == hb[2 * k]);
        assert(ha[2 * k + 1] == hb[2 * k + 1]);
        assert(ha[2 * k] == hex_digit((a[(2 * k) / 2] / 16) as nat));
        assert(hb[2 * k] == hex_digit((b[(2 * k) / 2] / 16) as nat));
        assert(ha[2 * k + 1] == hex_digit((a[(2 * k + 1) / 2] % 16) as nat));
        assert(hb[2 * k + 1] == hex_digit((b[(2 * k + 1) / 2] % 16) as nat));
        lemma_hex_digit_injective((a[k] / 16) as nat, (b[k] / 16) as nat);
        lemma_hex_digit_injective((a[k] % 16) as nat, (b[k] % 16) as nat);
    }
    assert(a =~= b);
}

/// Two requests with the same JSON text, character for character and so
/// with their fields in the same order, have one key under one prefix.
pub proof fn lemma_equal_requests_share_key(prefix: Seq<char>, first: Seq<char>, second: Seq<char>)
    requires
        first == second,
    ensures
        cache_key(prefix, first) == cache_key(prefix, second),
{
}

/// Under one prefix two requests have the same key exactly when the JSON
/// texts of both have the same SHA-256 digest.
pub proof fn lemma_keys_equal_iff_digests_equal(
    prefix: Seq<char>,
    first: Seq<char>,
    second: Seq<char>,
)
    ensures
        cache_key(prefix, first) == cache_key(prefix, second) <==> sha256(encode_utf8(first))
            == sha256(encode_utf8(second)),
{
    let head = prefix + seq![':'];
    let a = hex_lower(sha256(encode_utf8(first)));
    let b = hex_lower(sha256(encode_utf8(second)));
    if cache_key(prefix, first) == cache_key(prefix, second) {
        assert((head + a).skip(head.len() as int) =~= a);
        assert((head + b).skip(head.len() as int) =~= b);
        lemma_hex_lower_injective(sha256(encode_utf8(first)), sha256(encode_utf8(second)));
    }
}

} // verus!
