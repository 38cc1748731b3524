//! A player of the fair draw: one keypair, one committed secret, and the
//! running best of its VRF card draws. The player moves through commit,
//! reveal and draw in order; out-of-order calls fail with a protocol
//! violation instead of doing anything.

use vstd::prelude::*;

use crate::ProtocolError;
use crate::bytes::{spec_u32_le, u32_le_bytes};
use crate::commitment::{Secret, SecretView, commit_secret, is_alnum_byte, random_secret, spec_commit};
use crate::vrf::{
    card_from_output, generate_keypair, keypair_consistent, keypair_decodes, public_part,
    spec_card, vrf_accepts, vrf_sign, vrf_verify,
};

verus! {

/// One VRF draw kept by a player: the global round index it was drawn at, the
/// card derived from the VRF output, and the output and proof that let anyone
/// verify it later.
pub struct DrawRecord {
    pub round_index: u32,
    pub card_value: u8,
    pub vrf_output: Vec<u8>,
    pub vrf_proof: Vec<u8>,
}

/// The mathematical content of a draw record.
#[verifier::ext_equal]
pub struct RecordView {
    pub round_index: u32,
    pub card_value: u8,
    pub vrf_output: Seq<u8>,
    pub vrf_proof: Seq<u8>,
}

impl View for DrawRecord {
    type V = RecordView;

    open spec fn view(&self) -> RecordView {
        RecordView {
            round_index: self.round_index,
            card_value: self.card_value,
            vrf_output: self.vrf_output@,
            vrf_proof: self.vrf_proof@,
        }
    }
}

/// VRF acceptance of one draw record against a public key: the proof must
/// attest the output under the record's round index as context bytes.
pub open spec fn record_accepted(pk: Seq<u8>, r: RecordView) -> bool {
    vrf_accepts(pk, spec_u32_le(r.round_index), r.vrf_output, r.vrf_proof)
}

/// Structural soundness of a draw record: sizes as the VRF produces them, and
/// the card derived from the output by the fixed mapping.
pub open spec fn record_wf(r: RecordView) -> bool {
    &&& r.vrf_output.len() == 32
    &&& r.vrf_proof.len() == 64
    &&& r.card_value == spec_card(r.vrf_output)
    &&& r.card_value < 52
}

/// How a new draw updates the best record: replace only on a strictly greater
/// card, so ties keep the earlier record.
pub open spec fn spec_update_best(best: Option<RecordView>, rec: RecordView) -> Option<
    RecordView,
> {
    match best {
        Some(b) => if rec.card_value > b.card_value {
            Some(rec)
        } else {
            Some(b)
        },
        None => Some(rec),
    }
}

/// The best record left after a sequence of draws, folded oldest first.
pub open spec fn spec_best_of(recs: Seq<RecordView>) -> Option<RecordView>
    decreases recs.len(),
{
    if recs.len() == 0 {
        None
    } else {
        spec_update_best(spec_best_of(recs.drop_last()), recs.last())
    }
}

/// Drawing is monotone and exact: after any sequence of draws the best record
/// holds the maximum card value seen so far, and is the earliest record that
/// attains it (a tie never replaces it).
pub proof fn lemma_best_is_max(recs: Seq<RecordView>)
    requires
        recs.len() > 0,
    ensures
        spec_best_of(recs) matches Some(b) && {
            &&& forall|i: int| 0 <= i < recs.len() ==> (#[trigger] recs[i]).card_value <= b.card_value
            &&& exists|i: int|
                {
                    &&& 0 <= i < recs.len()
                    &&& #[trigger] recs[i] == b
                    &&& forall|j: int| 0 <= j < i ==> (#[trigger] recs[j]).card_value < b.card_value
                }
        },
    decreases recs.len(),
{
    let b = spec_best_of(recs)->Some_0;
    if recs.len() == 1 {
        assert(recs[0] == b);
        assert(0 <= 0 < recs.len() && recs[0] == b && forall|j: int|
            0 <= j < 0 ==> (#[trigger] recs[j]).card_value < b.card_value);
    } else {
        let pre = recs.drop_last();
        let last = recs.last();
        lemma_best_is_max(pre);
        let b1 = spec_best_of(pre)->Some_0;
        let i1 = choose|i: int|
            {
                &&& 0 <= i < pre.len()
                &&& #[trigger] pre[i] == b1
                &&& forall|j: int| 0 <= j < i ==> (#[trigger] pre[j]).card_value < b1.card_value
            };
        assert(forall|i: int| 0 <= i < pre.len() ==> recs[i] == pre[i]);
        if last.card_value > b1.card_value {
            assert(b == last);
            let iw = recs.len() - 1;
            assert(recs[iw] == b);
            assert(forall|j: int| 0 <= j < iw ==> (#[trigger] recs[j]).card_value < b.card_value);
        } else {
            assert(b == b1);
            assert(recs[i1] == b);
            assert(forall|j: int| 0 <= j < i1 ==> (#[trigger] recs[j]).card_value < b.card_value);
        }
    }
}

/// A player: its keypair (the secret half never leaves it), its committed
/// secret once it has one, and the best draw kept so far.
pub struct Player {
    keypair: Vec<u8>,
    public_key: Vec<u8>,
    secret: Option<Secret>,
    best: Option<DrawRecord>,
}

impl Player {
    /// The encoded keypair.
    pub closed spec fn spec_keypair(self) -> Seq<u8> {
        self.keypair@
    }

    /// The public-key bytes other parties verify against.
    pub closed spec fn spec_public_key(self) -> Seq<u8> {
        self.public_key@
    }

    /// Whether the player has committed to a secret.
    pub closed spec fn committed(self) -> bool {
        self.secret is Some
    }

    /// The committed secret.
    pub closed spec fn spec_secret(self) -> SecretView {
        self.secret->Some_0@
    }

    /// The best draw so far, if any draw happened.
    pub closed spec fn spec_best(self) -> Option<RecordView> {
        match self.best {
            Some(b) => Some(b@),
            None => None,
        }
    }

    /// Well-formedness: the keypair is a decodable, consistent 96-byte
    /// encoding whose public half is the stored public key; a draw implies a
    /// commitment; a kept record is structurally sound.
    pub open spec fn wf(self) -> bool {
        &&& self.spec_keypair().len() == 96
        &&& self.spec_public_key() == public_part(self.spec_keypair())
        &&& keypair_decodes(self.spec_keypair())
        &&& keypair_consistent(self.spec_keypair())
        &&& (self.spec_best() is Some ==> self.committed())
        &&& (self.spec_best() matches Some(b) ==> record_wf(b))
    }

    /// Whether the kept best record (if any) passes VRF verification against
    /// this player's public key. Honest draws keep this true; it is what the
    /// final phase checks.
    pub open spec fn best_accepted(self) -> bool {
        self.spec_best() matches Some(b) ==> record_accepted(self.spec_public_key(), b)
    }

    /// A new player with a fresh keypair, not yet committed.
    pub fn new() -> (p: Player)
        ensures
            p.wf(),
            !p.committed(),
            p.spec_best() is None,
            p.best_accepted(),
    {
        let (keypair, public_key) = generate_keypair();
        Player { keypair, public_key, secret: None, best: None }
    }

    /// Read the player's public key.
    pub fn public_key(&self) -> (r: &Vec<u8>)
        ensures
            r@ == self.spec_public_key(),
    {
        &self.public_key
    }

    /// Bind the player to the given secret and return the commitment digest.
    /// Committing twice is a protocol violation and changes nothing.
    pub fn commit_with(&mut self, secret: Secret) -> (r: Result<Vec<u8>, ProtocolError>)
        ensures
            old(self).committed() ==> r is Err && r->Err_0 == ProtocolError::ProtocolViolation
                && *final(self) == *old(self),
            !old(self).committed() ==> {
                &&& r is Ok
                &&& r->Ok_0@ == spec_commit(secret@)
                &&& final(self).committed()
                &&& final(self).spec_secret() == secret@
            },
            final(self).spec_keypair() == old(self).spec_keypair(),
            final(self).spec_public_key() == old(self).spec_public_key(),
            final(self).spec_best() == old(self).spec_best(),
            final(self).best_accepted() == old(self).best_accepted(),
            old(self).wf() ==> final(self).wf(),
    {
        if self.secret.is_some() {
            return Err(ProtocolError::ProtocolViolation);
        }
        let digest = commit_secret(&secret);
        self.secret = Some(secret);
        Ok(digest)
    }

    /// Draw a fresh random secret, bind to it, and return the digest.
    /// Committing twice is a protocol violation and changes nothing.
    pub fn commit(&mut self) -> (r: Result<Vec<u8>, ProtocolError>)
        ensures
            old(self).committed() ==> r is Err && r->Err_0 == ProtocolError::ProtocolViolation
                && *final(self) == *old(self),
            !old(self).committed() ==> {
                &&& r is Ok
                &&& final(self).committed()
                &&& final(self).spec_secret().number < 52
                &&& final(self).spec_secret().text.len() == 64
                &&& forall|i: int| 0 <= i < final(self).spec_secret().text.len()
                    ==> is_alnum_byte(#[trigger] final(self).spec_secret().text[i])
                &&& r->Ok_0@ == spec_commit(final(self).spec_secret())
            },
            final(self).spec_keypair() == old(self).spec_keypair(),
            final(self).spec_public_key() == old(self).spec_public_key(),
            final(self).spec_best() == old(self).spec_best(),
            final(self).best_accepted() == old(self).best_accepted(),
            old(self).wf() ==> final(self).wf(),
    {
        let secret = random_secret();
        self.commit_with(secret)
    }

    /// Reveal the committed secret for public checking. Read-only: the player
    /// is never changed, and every call returns the same secret.
    pub fn reveal_secret(&self) -> (r: Result<Secret, ProtocolError>)
        ensures
            self.committed() ==> r is Ok && r->Ok_0@ == self.spec_secret(),
            !self.committed() ==> r is Err && r->Err_0 == ProtocolError::ProtocolViolation,
    {
        match &self.secret {
            Some(s) => Ok(s.duplicate()),
            None => Err(ProtocolError::ProtocolViolation),
        }
    }

    /// Record the outcome of one VRF draw: derive the card from the output
    /// and keep the record only if its card strictly beats the current best.
    /// Drawing before committing is a protocol violation.
    pub fn apply_draw(
        &mut self,
        round_index: u32,
        vrf_output: Vec<u8>,
        vrf_proof: Vec<u8>,
    ) -> (r: Result<(), ProtocolError>)
        requires
            vrf_output@.len() == 32,
            vrf_proof@.len() == 64,
        ensures
            !old(self).committed() ==> r is Err && r->Err_0 == ProtocolError::ProtocolViolation
                && *final(self) == *old(self),
            old(self).committed() ==> r is Ok && final(self).spec_best() == spec_update_best(
                old(self).spec_best(),
                (RecordView {
                    round_index,
                    card_value: spec_card(vrf_output@),
                    vrf_output: vrf_output@,
                    vrf_proof: vrf_proof@,
                }),
            ),
            final(self).spec_keypair() == old(self).spec_keypair(),
            final(self).spec_public_key() == old(self).spec_public_key(),
            final(self).committed() == old(self).committed(),
            old(self).committed() ==> final(self).spec_secret() == old(self).spec_secret(),
            old(self).wf() ==> final(self).wf(),
    {
        if self.secret.is_none() {
            return Err(ProtocolError::ProtocolViolation);
        }
        let card = card_from_output(&vrf_output);
        let replace = match &self.best {
            Some(b) => card > b.card_value,
            None => true,
        };
        if replace {
            self.best = Some(DrawRecord { round_index, card_value: card, vrf_output, vrf_proof });
        }
        Ok(())
    }

    /// Perform one VRF draw at this round index: sign the index's
    /// little-endian bytes, derive the card, and update the best record.
    /// Drawing before committing is a protocol violation.
    pub fn draw(&mut self, round_index: u32) -> (r: Result<(), ProtocolError>)
        requires
            old(self).wf(),
        ensures
            final(self).wf(),
            !old(self).committed() ==> r is Err && r->Err_0 == ProtocolError::ProtocolViolation
                && *final(self) == *old(self),
            old(self).committed() ==> {
                &&& r is Ok
                &&& (exists|rec: RecordView|
                    #![trigger spec_update_best(old(self).spec_best(), rec)]
                    {
                        &&& record_wf(rec)
                        &&& rec.round_index == round_index
                        &&& record_accepted(old(self).spec_public_key(), rec)
                        &&& final(self).spec_best() == spec_update_best(
                            old(self).spec_best(),
                            rec,
                        )
                    })
                &&& final(self).spec_best() is Some
                &&& (old(self).spec_best() matches Some(b) ==> ({
                    let b2 = final(self).spec_best()->Some_0;
                    b2.card_value >= b.card_value && (b2 == b || (b2.round_index == round_index
                        && record_accepted(old(self).spec_public_key(), b2)))
                }))
                &&& (old(self).spec_best() is None ==> ({
                    let b2 = final(self).spec_best()->Some_0;
                    b2.round_index == round_index && record_accepted(
                        old(self).spec_public_key(),
                        b2,
                    )
                }))
                &&& (old(self).best_accepted() ==> final(self).best_accepted())
            },
            final(self).committed() == old(self).committed(),
            old(self).committed() ==> final(self).spec_secret() == old(self).spec_secret(),
            final(self).spec_keypair() == old(self).spec_keypair(),
            final(self).spec_public_key() == old(self).spec_public_key(),
    {
        if self.secret.is_none() {
            return Err(ProtocolError::ProtocolViolation);
        }
        let msg = u32_le_bytes(round_index);
        match vrf_sign(&self.keypair, &msg) {
            Some((out, proof)) => {
                let ghost o = out@;
                let ghost pf = proof@;
                let r = self.apply_draw(round_index, out, proof);
                proof {
                    let rec = RecordView {
                        round_index,
                        card_value: spec_card(o),
                        vrf_output: o,
                        vrf_proof: pf,
                    };
                    assert(record_wf(rec));
                    assert(record_accepted(old(self).spec_public_key(), rec));
                    assert(self.spec_best() == spec_update_best(old(self).spec_best(), rec));
                }
                r
            },
            None => {
                proof {
                    assert(false);
                }
                Err(ProtocolError::ProtocolViolation)
            },
        }
    }

    /// Revealing is idempotent: any two results that `reveal_secret` may
    /// return for one committed player hold the identical secret — and the
    /// call cannot mutate the player, which it only borrows.
    pub proof fn lemma_reveal_idempotent(
        p: &Player,
        r1: Result<Secret, ProtocolError>,
        r2: Result<Secret, ProtocolError>,
    )
        requires
            p.committed(),
            call_ensures(Player::reveal_secret, (p,), r1),
            call_ensures(Player::reveal_secret, (p,), r2),
        ensures
            r1 is Ok && r2 is Ok,
            r1->Ok_0@ == r2->Ok_0@,
    {
    }

    /// The best draw so far; asking before any draw is not ready.
    pub fn show_best(&self) -> (r: Result<&DrawRecord, ProtocolError>)
        ensures
            self.spec_best() matches Some(b) ==> r is Ok && r->Ok_0@ == b,
            self.spec_best() is None ==> r is Err && r->Err_0 == ProtocolError::NotReady,
    {
        match &self.best {
            Some(b) => Ok(b),
            None => Err(ProtocolError::NotReady),
        }
    }
}

/// Publicly check one draw record against a public key: accepted exactly when
/// the VRF proof attests the record's output under its round index, in which
/// case the record's card value stands.
pub fn check_draw(pk: &Vec<u8>, rec: &DrawRecord) -> (r: Result<u8, ProtocolError>)
    ensures
        record_accepted(pk@, rec@) ==> r is Ok && r->Ok_0 == rec.card_value,
        !record_accepted(pk@, rec@) ==> r is Err && r->Err_0
            == ProtocolError::VrfVerificationFailure,
{
    let msg = u32_le_bytes(rec.round_index);
    if vrf_verify(pk, &msg, &rec.vrf_output, &rec.vrf_proof) {
        Ok(rec.card_value)
    } else {
        Err(ProtocolError::VrfVerificationFailure)
    }
}

} // verus!
