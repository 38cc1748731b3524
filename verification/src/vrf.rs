//! The VRF primitive behind card draws: per-player Ristretto Schnorr
//! keypairs, proof generation over a round's context bytes, and public proof
//! verification, all carried as plain byte strings.

use vstd::prelude::*;

verus! {

/// Whether schnorrkel VRF verification accepts this public key, context
/// message, pre-output and proof (each as bytes); verification is a pure
/// computation over these four byte strings.
pub uninterp spec fn vrf_accepts(pk: Seq<u8>, msg: Seq<u8>, out: Seq<u8>, proof: Seq<u8>) -> bool;

/// Whether schnorrkel::Keypair::from_bytes accepts these bytes as a keypair;
/// a function of the bytes alone.
pub uninterp spec fn keypair_decodes(kp: Seq<u8>) -> bool;

/// Whether these bytes are a consistent keypair encoding: what
/// schnorrkel::Keypair::to_bytes lays out for a keypair whose public half is
/// derived from its secret half. Keypair::from_bytes checks the two halves
/// only separately, never their correspondence, and proofs signed with an
/// inconsistent pair do not verify — so acceptance is promised only under
/// this predicate.
pub uninterp spec fn keypair_consistent(kp: Seq<u8>) -> bool;

/// The public half of an encoded keypair: schnorrkel::Keypair::to_bytes lays
/// out the 64 secret bytes first, then the 32 public-key bytes.
pub open spec fn public_part(kp: Seq<u8>) -> Seq<u8> {
    kp.subrange(64, 96)
}

/// Relies on schnorrkel::Keypair::generate and to_bytes: a fresh keypair as
/// 96 bytes (64 secret, then 32 public) together with its public-key bytes.
/// The encoding is consistent (generate derives the public key from the
/// secret one) and round-trips through Keypair::from_bytes, as the crate's
/// own doc examples show.
#[verifier::external_body]
pub(crate) fn generate_keypair() -> (r: (Vec<u8>, Vec<u8>))
    ensures
        r.0@.len() == 96,
        r.1@.len() == 32,
        r.1@ == public_part(r.0@),
        keypair_decodes(r.0@),
        keypair_consistent(r.0@),
{
    let kp = schnorrkel::Keypair::generate();
    (kp.to_bytes().to_vec(), kp.public.to_bytes().to_vec())
}

/// Relies on schnorrkel::Keypair::vrf_sign over signing_context("").bytes(msg):
/// a 32-byte VRF pre-output and a 64-byte proof, or nothing when the keypair
/// bytes do not decode. Only for a consistent keypair encoding is the signed
/// pair promised to pass vrf_verify under the same public key and message
/// (the crate's vrf tests show it); from_bytes also accepts mismatched
/// halves, whose proofs do not verify.
#[verifier::external_body]
pub(crate) fn vrf_sign(kp: &Vec<u8>, msg: &Vec<u8>) -> (r: Option<(Vec<u8>, Vec<u8>)>)
    ensures
        keypair_decodes(kp@) ==> r is Some,
        r matches Some((out, proof)) ==> out@.len() == 32 && proof@.len() == 64,
        keypair_consistent(kp@) ==> (r matches Some((out, proof)) ==> vrf_accepts(
            public_part(kp@),
            msg@,
            out@,
            proof@,
        )),
{
    let keypair = match schnorrkel::Keypair::from_bytes(kp.as_slice()) {
        Ok(keypair) => keypair,
        Err(_) => return None,
    };
    let ctx = schnorrkel::signing_context(b"");
    let (io, proof, _) = keypair.vrf_sign(ctx.bytes(msg.as_slice()));
    Some((io.as_output_bytes().to_vec(), proof.to_bytes().to_vec()))
}

/// Relies on schnorrkel::PublicKey::vrf_verify over
/// signing_context("").bytes(msg), with the key, pre-output and proof decoded
/// from their byte forms; deterministic in the four byte strings, false when
/// any of them fails to decode.
#[verifier::external_body]
pub(crate) fn vrf_verify(pk: &Vec<u8>, msg: &Vec<u8>, out: &Vec<u8>, proof: &Vec<u8>) -> (r: bool)
    ensures
        r == vrf_accepts(pk@, msg@, out@, proof@),
{
    let public = match schnorrkel::PublicKey::from_bytes(pk.as_slice()) {
        Ok(public) => public,
        Err(_) => return false,
    };
    let preout = match schnorrkel::vrf::VRFPreOut::from_bytes(out.as_slice()) {
        Ok(preout) => preout,
        Err(_) => return false,
    };
    let prf = match schnorrkel::vrf::VRFProof::from_bytes(proof.as_slice()) {
        Ok(prf) => prf,
        Err(_) => return false,
    };
    let ctx = schnorrkel::signing_context(b"");
    public.vrf_verify(ctx.bytes(msg.as_slice()), &preout, &prf).is_ok()
}

/// The card a VRF output maps to: its first byte reduced modulo 52. The
/// reduction of a uniform byte onto 52 values carries a small bias; the
/// protocol fixes this mapping regardless.
pub open spec fn spec_card(out: Seq<u8>) -> u8 {
    (out[0] % 52) as u8
}

/// Derive the card value from a VRF output.
pub fn card_from_output(out: &Vec<u8>) -> (r: u8)
    requires
        out@.len() >= 1,
    ensures
        r == spec_card(out@),
        r < 52,
{
    out[0] % 52
}

} // verus!
