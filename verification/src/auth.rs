//! Service secrets and the proofs that a peer holds one.

use rand::RngCore;
use sha2::Digest;
use subtle::ConstantTimeEq;
use vstd::prelude::*;
use vstd::utf8::*;

use crate::text;

verus! {

/// The error of a proof that does not belong to the secret.
#[derive(Debug, Clone, Copy, PartialEq, Eq, Structural)]
pub struct InvalidSecretProof;

/// How many bytes a secret is made of.
pub const SECRET_LEN: usize = 32;

/// The character of a hexadecimal digit, in lower case.
pub open spec fn hex_digit(d: int) -> char {
    if d < 10 {
        ('0' as u32 + d) as char
    } else {
        ('a' as u32 + (d - 10)) as char
    }
}

/// Bytes in lower-case hexadecimal, two digits each, high digit first.
pub open spec fn hex_text(bytes: Seq<u8>) -> Seq<char> {
    Seq::new(
        2 * bytes.len(),
        |i: int|
            if i % 2 == 0 {
                hex_digit(bytes[i / 2] as int / 16)
            } else {
                hex_digit(bytes[i / 2] as int % 16)
            },
    )
}

/// Whether a text is made of lower-case hexadecimal digits alone.
pub open spec fn is_hex_text(s: Seq<char>) -> bool {
    forall|i: int|
        0 <= i < s.len() ==> ('0' <= #[trigger] s[i] && s[i] <= '9') || ('a' <= s[i] && s[i] <= 'f')
}

proof fn lemma_hex_text(bytes: Seq<u8>)
    ensures
        hex_text(bytes).len() == 2 * bytes.len(),
        is_hex_text(hex_text(bytes)),
{
    let s = hex_text(bytes);
    assert forall|i: int| 0 <= i < s.len() implies ('0' <= #[trigger] s[i] && s[i] <= '9') || ('a'
        <= s[i] && s[i] <= 'f') by {
        let b = bytes[i / 2] as int;
        assert(0 <= b / 16 < 16 && 0 <= b % 16 < 16);
    }
}

/// The SHA-256 digest of some bytes.
pub uninterp spec fn sha256(data: Seq<u8>) -> Seq<u8>;

/// `sha2::Sha256`, over the whole input: the digest, which is 32 bytes long.
#[verifier::external_body]
fn sha256_digest(data: &[u8]) -> (digest: Vec<u8>)
    ensures
        digest@ == sha256(data@),
        digest@.len() == 32,
{
    let mut hasher = sha2::Sha256::new();
    hasher.update(data);
    hasher.finalize().to_vec()
}

/// `hex::encode`: two lower-case digits for each byte.
#[verifier::external_body]
fn hex_encode(bytes: &[u8]) -> (s: String)
    ensures
        s@ == hex_text(bytes@),
{
    hex::encode(bytes)
}

/// `rand`'s thread-local generator filling 32 bytes. Nothing is claimed of
/// what the bytes are.
#[verifier::external_body]
fn random_bytes() -> (bytes: [u8; 32]) {
    let mut bytes = [0u8; 32];
    rand::rng().fill_bytes(&mut bytes);
    bytes
}

/// `subtle`'s comparison of two byte slices: true exactly when they have the
/// same length and the same bytes. That its time does not depend on the bytes
/// is not part of the contract.
#[verifier::external_body]
fn same_in_constant_time(a: &[u8], b: &[u8]) -> (r: bool)
    ensures
        r == (a@ == b@),
{
    a.ct_eq(b).into()
}

/// The text of the secret made of the given bytes.
pub fn secret_from_bytes(bytes: &[u8; 32]) -> (secret: String)
    ensures
        secret@ == hex_text(bytes@),
        secret@.len() == 64,
        is_hex_text(secret@),
{
    proof {
        lemma_hex_text(bytes@);
    }
    hex_encode(bytes.as_slice())
}

/// A fresh random secret: 32 bytes in hexadecimal.
pub fn generate_secret() -> (secret: String)
    ensures
        exists|bytes: Seq<u8>| bytes.len() == SECRET_LEN && secret@ == #[trigger] hex_text(bytes),
        secret@.len() == 64,
        is_hex_text(secret@),
{
    let bytes = random_bytes();
    let secret = secret_from_bytes(&bytes);
    assert(bytes@.len() == SECRET_LEN && secret@ == hex_text(bytes@));
    secret
}

/// The secret that some bytes and a number make together.
spec fn numbered(bytes: Seq<u8>, n: u64) -> Seq<char> {
    hex_text(vstd::bytes::spec_u64_to_le_bytes(n) + bytes.skip(8))
}

proof fn lemma_numbered(bytes: Seq<u8>, a: u64, b: u64)
    requires
        numbered(bytes, a) == numbered(bytes, b),
    ensures
        a == b,
{
    vstd::bytes::lemma_auto_spec_u64_to_from_le_bytes();
    let x = vstd::bytes::spec_u64_to_le_bytes(a) + bytes.skip(8);
    let y = vstd::bytes::spec_u64_to_le_bytes(b) + bytes.skip(8);
    law_hex_text_is_unique(x, y);
    assert(vstd::bytes::spec_u64_to_le_bytes(a) =~= x.take(8));
    assert(vstd::bytes::spec_u64_to_le_bytes(b) =~= y.take(8));
}

fn number_bytes(bytes: &[u8; 32], n: u64) -> (out: [u8; 32])
    ensures
        hex_text(out@) == numbered(bytes@, n),
{
    proof {
        vstd::bytes::lemma_auto_spec_u64_to_from_le_bytes();
    }
    let front = vstd::bytes::u64_to_le_bytes(n);
    let mut out: [u8; 32] = *bytes;
    for i in 0..8usize
        invariant
            front@.len() == 8,
            forall|j: int| 0 <= j < i ==> out@[j] == front@[j],
            forall|j: int| i <= j < 32 ==> out@[j] == bytes@[j],
    {
        out[i] = front[i];
    }
    assert(out@ =~= front@ + bytes@.skip(8));
    out
}

/// A fresh random secret that is none of those in a list. Should the first one
/// be taken, the front of another is counted up until it is not.
pub fn generate_secret_unlike(taken: &Vec<String>) -> (secret: String)
    ensures
        forall|i: int| 0 <= i < taken@.len() ==> (#[trigger] taken@[i])@ != secret@,
        exists|bytes: Seq<u8>| bytes.len() == SECRET_LEN && secret@ == #[trigger] hex_text(bytes),
        secret@.len() == 64,
        is_hex_text(secret@),
{
    let secret = generate_secret();
    if text::find_text(taken, secret.as_str()).is_none() {
        return secret;
    }
    let bytes = random_bytes();
    let mut count: u64 = 0;
    let ghost mut open = vstd::set_lib::set_int_range(0, taken@.len() as int);
    proof {
        vstd::set_lib::lemma_int_range(0, taken@.len() as int);
    }
    assert(taken.len() <= usize::MAX);
    loop
        invariant
            taken@.len() <= usize::MAX,
            open.finite(),
            open.len() + count == taken@.len(),
            forall|i: int|
                0 <= i < taken@.len() && !open.contains(i) ==> exists|k: u64|
                    k < count && (#[trigger] taken@[i])@ == #[trigger] numbered(bytes@, k),
            forall|i: int| open.contains(i) ==> 0 <= i < taken@.len(),
        decreases open.len(),
    {
        let next = number_bytes(&bytes, count);
        let secret = secret_from_bytes(&next);
        match text::find_text(taken, secret.as_str()) {
            None => {
                assert(next@.len() == SECRET_LEN && secret@ == hex_text(next@));
                return secret;
            },
            Some(i) => {
                proof {
                    assert(taken@[i as int]@ == numbered(bytes@, count));
                    if !open.contains(i as int) {
                        let k = choose|k: u64|
                            k < count && taken@[i as int]@ == #[trigger] numbered(bytes@, k);
                        lemma_numbered(bytes@, k, count);
                    }
                    let before = open;
                    open = open.remove(i as int);
                    assert forall|j: int|
                        0 <= j < taken@.len() && !open.contains(j) implies exists|k: u64|
                        k < count + 1 && (#[trigger] taken@[j])@ == #[trigger] numbered(
                            bytes@,
                            k,
                        ) by {
                        if !before.contains(j) {
                            let k = choose|k: u64|
                                k < count && taken@[j]@ == #[trigger] numbered(bytes@, k);
                            assert(k < count + 1 && taken@[j]@ == numbered(bytes@, k));
                        } else {
                            assert(j == i);
                            assert(count < count + 1 && taken@[j]@ == numbered(bytes@, count));
                        }
                    }
                }
                count = count + 1;
            },
        }
    }
}

/// The proof that belongs to a secret: the digest of the secret behind a
/// fixed label, in hexadecimal.
pub open spec fn proof_text(secret: Seq<char>) -> Seq<char> {
    hex_text(sha256(encode_utf8("locho-v1:"@ + secret)))
}

/// The proof that the holder of `secret` presents.
pub fn secret_proof(secret: &str) -> (out: String)
    ensures
        out@ == proof_text(secret@),
        out@.len() == 64,
        is_hex_text(out@),
{
    let labelled = String::from_str("locho-v1:").concat(secret);
    let digest = sha256_digest(labelled.as_str().as_bytes());
    proof {
        lemma_hex_text(digest@);
    }
    hex_encode(digest.as_slice())
}

/// Accepts exactly the proof that belongs to `secret`.
pub fn verify_secret_proof(secret: &str, presented: &str) -> (out: Result<(), InvalidSecretProof>)
    ensures
        out is Ok <==> presented@ == proof_text(secret@),
        presented@.len() != 64 || !is_hex_text(presented@) ==> out is Err,
{
    let expected = secret_proof(secret);
    proof {
        encode_utf8_decode_utf8(expected@);
        encode_utf8_decode_utf8(presented@);
    }
    if same_in_constant_time(expected.as_str().as_bytes(), presented.as_bytes()) {
        Ok(())
    } else {
        Err(InvalidSecretProof)
    }
}

/// Hexadecimal text tells bytes apart: each has one spelling, and no two have
/// the same.
pub proof fn law_hex_text_is_unique(a: Seq<u8>, b: Seq<u8>)
    ensures
        hex_text(a) == hex_text(b) <==> a == b,
{
    if hex_text(a) == hex_text(b) {
        assert(hex_text(a).len() == 2 * a.len());
        assert(hex_text(b).len() == 2 * b.len());
        assert forall|i: int| 0 <= i < a.len() implies a[i] == b[i] by {
            let x = a[i] as int;
            let y = b[i] as int;
            assert((2 * i) / 2 == i && (2 * i) % 2 == 0);
            assert((2 * i + 1) / 2 == i && (2 * i + 1) % 2 == 1);
            assert(hex_text(a)[2 * i] == hex_digit(x / 16));
            assert(hex_text(b)[2 * i] == hex_digit(y / 16));
            assert(hex_text(a)[2 * i + 1] == hex_digit(x % 16));
            assert(hex_text(b)[2 * i + 1] == hex_digit(y % 16));
            lemma_hex_digit(x / 16, y / 16);
            lemma_hex_digit(x % 16, y % 16);
        }
        assert(a =~= b);
    }
}

proof fn lemma_hex_digit(a: int, b: int)
    requires
        0 <= a < 16,
        0 <= b < 16,
        hex_digit(a) == hex_digit(b),
    ensures
        a == b,
{
}

/// A proof is the hexadecimal text of a digest over the label and the whole
/// secret: two secrets have the same proof only if those digests are the same.
pub proof fn law_proofs_tell_secrets_apart(a: Seq<char>, b: Seq<char>)
    ensures
        proof_text(a) == proof_text(b) <==> sha256(encode_utf8("locho-v1:"@ + a)) == sha256(
            encode_utf8("locho-v1:"@ + b),
        ),
{
    law_hex_text_is_unique(
        sha256(encode_utf8("locho-v1:"@ + a)),
        sha256(encode_utf8("locho-v1:"@ + b)),
    );
}

/// A secret is never blank, so it is never taken for a missing one.
pub proof fn law_secret_is_not_blank(secret: Seq<char>)
    requires
        secret.len() > 0,
        is_hex_text(secret),
    ensures
        !text::blank(secret),
{
    assert(!text::white(secret[0]));
}

} // verus!
