//! Hash commitments: a player binds itself to a secret (card number, random
//! tag) by publishing the Blake2b-128 digest of the secret's message bytes —
//! the decimal digits of the number followed by the tag, with no separator.

use vstd::prelude::*;

use crate::bytes::{bytes_eq, copy_bytes, spec_decimal, u32_to_decimal};
use rand::Rng;

verus! {

/// A player's secret: a card number below 52 and a random alphanumeric tag,
/// held as ASCII bytes.
#[derive(Debug)]
pub struct Secret {
    pub number: u32,
    pub text: Vec<u8>,
}

/// The mathematical content of a secret.
#[verifier::ext_equal]
pub struct SecretView {
    pub number: u32,
    pub text: Seq<u8>,
}

impl View for Secret {
    type V = SecretView;

    open spec fn view(&self) -> SecretView {
        SecretView { number: self.number, text: self.text@ }
    }
}

impl Secret {
    /// Copy a secret field by field.
    pub fn duplicate(&self) -> (r: Secret)
        ensures
            r@ == self@,
    {
        let r = Secret { number: self.number, text: copy_bytes(&self.text) };
        proof {
            assert(r@ =~= self@);
        }
        r
    }
}

/// The exact byte string a secret is hashed over: the decimal digits of its
/// number followed by its tag bytes, with no separator.
pub open spec fn secret_message(s: SecretView) -> Seq<u8> {
    spec_decimal(s.number as nat) + s.text
}

/// What `blake2_128` returns on a given input: a 16-byte Blake2b digest,
/// a function of the input bytes alone.
pub uninterp spec fn blake2_of(data: Seq<u8>) -> Seq<u8>;

/// Relies on sp_crypto_hashing::blake2_128: the 16-byte Blake2b digest of the
/// input, deterministic in the input bytes.
#[verifier::external_body]
fn blake2_128(data: &Vec<u8>) -> (r: Vec<u8>)
    ensures
        r@ == blake2_of(data@),
        r@.len() == 16,
{
    sp_crypto_hashing::blake2_128(data.as_slice()).to_vec()
}

/// The digest a secret commits to.
pub open spec fn spec_commit(s: SecretView) -> Seq<u8> {
    blake2_of(secret_message(s))
}

/// Whether a digest verifies against a revealed secret: it must equal that
/// secret's digest exactly.
pub open spec fn spec_commit_ok(digest: Seq<u8>, s: SecretView) -> bool {
    digest == spec_commit(s)
}

/// Commit to a secret: hash its message bytes.
pub fn commit_secret(s: &Secret) -> (r: Vec<u8>)
    ensures
        r@ == spec_commit(s@),
        r@.len() == 16,
{
    let mut msg = u32_to_decimal(s.number);
    let mut i: usize = 0;
    while i < s.text.len()
        invariant
            i <= s.text.len(),
            msg@ == spec_decimal(s.number as nat) + s.text@.subrange(0, i as int),
        decreases s.text.len() - i,
    {
        msg.push(s.text[i]);
        i += 1;
        proof {
            assert(msg@ =~= spec_decimal(s.number as nat) + s.text@.subrange(0, i as int));
        }
    }
    proof {
        assert(msg@ =~= secret_message(s@));
    }
    blake2_128(&msg)
}

/// Check a revealed secret against a commitment digest.
pub fn verify_commitment(digest: &Vec<u8>, s: &Secret) -> (r: bool)
    ensures
        r == spec_commit_ok(digest@, s@),
{
    let h = commit_secret(s);
    bytes_eq(digest, &h)
}

/// Commitment binding: the digest computed from a secret verifies against
/// that same secret, and no other digest verifies against it.
pub proof fn lemma_commitment_binding(digest: Seq<u8>, s: SecretView)
    ensures
        spec_commit_ok(spec_commit(s), s),
        digest != spec_commit(s) ==> !spec_commit_ok(digest, s),
{
}

/// An ASCII alphanumeric byte: a digit or a letter of either case.
pub open spec fn is_alnum_byte(b: u8) -> bool {
    (48 <= b <= 57) || (65 <= b <= 90) || (97 <= b <= 122)
}

/// Relies on rand::Rng::gen_range over 0..52: a number drawn below 52.
#[verifier::external_body]
pub(crate) fn random_card_number() -> (r: u32)
    ensures
        r < 52,
{
    rand::thread_rng().gen_range(0..52u32)
}

/// Relies on rand's Alphanumeric distribution: every sampled byte is an ASCII
/// digit or letter.
#[verifier::external_body]
pub(crate) fn random_alnum_bytes(len: usize) -> (r: Vec<u8>)
    ensures
        r@.len() == len,
        forall|i: int| 0 <= i < r@.len() ==> is_alnum_byte(#[trigger] r@[i]),
{
    rand::thread_rng().sample_iter(&rand::distributions::Alphanumeric).take(len).collect()
}

/// A freshly drawn secret: a card number below 52 and a 64-byte alphanumeric
/// tag.
pub fn random_secret() -> (r: Secret)
    ensures
        r.number < 52,
        r.text@.len() == 64,
        forall|i: int| 0 <= i < r.text@.len() ==> is_alnum_byte(#[trigger] r.text@[i]),
{
    Secret { number: random_card_number(), text: random_alnum_bytes(64) }
}

} // verus!
