//! The round orchestrator: drives commit, reveal, draw and verification
//! across all players, threading the single public seed counter — first the
//! sum of the revealed numbers, then incremented once per draw in a fixed
//! round-major, player-minor order — and selects the winner among the players
//! whose best draw verifies.

use vstd::prelude::*;

use crate::ProtocolError;
use crate::commitment::{is_alnum_byte, spec_commit_ok};
use crate::player::{Player, check_draw};

verus! {

/// The sum of the committed card numbers of these players: the public value
/// the draw seed starts from. Addition commutes, so any reveal order yields
/// the same seed.
pub open spec fn spec_number_sum(players: Seq<Player>) -> int
    decreases players.len(),
{
    if players.len() == 0 {
        0
    } else {
        spec_number_sum(players.drop_last()) + players.last().spec_secret().number
    }
}

/// Extending a prefix by one player adds that player's number to the sum.
proof fn lemma_sum_prefix_step(players: Seq<Player>, i: int)
    requires
        0 <= i < players.len(),
    ensures
        spec_number_sum(players.subrange(0, i + 1)) == spec_number_sum(players.subrange(0, i))
            + players[i].spec_secret().number,
{
    assert(players.subrange(0, i + 1).drop_last() =~= players.subrange(0, i));
    assert(players.subrange(0, i + 1).last() == players[i]);
}

/// Every prefix sum lies between zero and the full sum.
proof fn lemma_sum_prefix_bound(players: Seq<Player>, i: int)
    requires
        0 <= i <= players.len(),
    ensures
        0 <= spec_number_sum(players.subrange(0, i)) <= spec_number_sum(players),
{
    lemma_sum_nonneg(players.subrange(0, i));
    lemma_sum_prefix_bound_up(players, i, players.len() as int);
    assert(players.subrange(0, players.len() as int) =~= players);
}

/// Sums of card numbers are never negative.
proof fn lemma_sum_nonneg(players: Seq<Player>)
    ensures
        spec_number_sum(players) >= 0,
    decreases players.len(),
{
    if players.len() > 0 {
        lemma_sum_nonneg(players.drop_last());
    }
}

/// Prefix sums grow with the prefix.
proof fn lemma_sum_prefix_bound_up(players: Seq<Player>, i: int, j: int)
    requires
        0 <= i <= j <= players.len(),
    ensures
        spec_number_sum(players.subrange(0, i)) <= spec_number_sum(players.subrange(0, j)),
    decreases j - i,
{
    if i < j {
        lemma_sum_prefix_step(players, i);
        lemma_sum_prefix_bound_up(players, i + 1, j);
    }
}

/// With every committed number below 52, the seed starts below 52 times the
/// player count.
pub proof fn lemma_sum_bound(players: Seq<Player>)
    requires
        forall|i: int| 0 <= i < players.len() ==> (#[trigger] players[i]).spec_secret().number
            < 52,
    ensures
        0 <= spec_number_sum(players) <= 52 * players.len(),
    decreases players.len(),
{
    if players.len() > 0 {
        assert(forall|i: int| 0 <= i < players.drop_last().len() ==> (#[trigger] players.drop_last()[i]).spec_secret().number < 52);
        lemma_sum_bound(players.drop_last());
    }
}

/// Commit phase: every player draws a random secret and commits to it; digest
/// i belongs to player i. On fresh players this cannot fail.
pub fn commit_phase(players: Vec<Player>) -> (r: (Vec<Player>, Vec<Vec<u8>>))
    requires
        forall|i: int| #![trigger players@[i]]
            0 <= i < players@.len() ==> players@[i].wf() && !players@[i].committed()
                && players@[i].spec_best() is None,
    ensures
        r.0@.len() == players@.len(),
        r.1@.len() == players@.len(),
        forall|i: int| #![trigger r.0@[i]]
            0 <= i < r.0@.len() ==> {
                &&& r.0@[i].wf()
                &&& r.0@[i].committed()
                &&& r.0@[i].spec_best() is None
                &&& r.0@[i].best_accepted()
                &&& r.0@[i].spec_public_key() == players@[i].spec_public_key()
                &&& r.0@[i].spec_secret().number < 52
                &&& r.0@[i].spec_secret().text.len() == 64
                &&& forall|j: int| 0 <= j < r.0@[i].spec_secret().text.len()
                    ==> is_alnum_byte(#[trigger] r.0@[i].spec_secret().text[j])
                &&& r.1@[i]@ == crate::commitment::spec_commit(r.0@[i].spec_secret())
            },
{
    let ghost orig = players@;
    let mut rest = players;
    let mut out: Vec<Player> = Vec::new();
    let mut digests: Vec<Vec<u8>> = Vec::new();
    while rest.len() > 0
        invariant
            out@.len() == digests@.len(),
            out@.len() + rest@.len() == orig.len(),
            forall|i: int| #![trigger rest@[i]]
                0 <= i < rest@.len() ==> rest@[i] == orig[out@.len() + i],
            forall|i: int| #![trigger orig[i]]
                0 <= i < orig.len() ==> orig[i].wf() && !orig[i].committed()
                    && orig[i].spec_best() is None,
            forall|i: int| #![trigger out@[i]]
                0 <= i < out@.len() ==> {
                    &&& out@[i].wf()
                    &&& out@[i].committed()
                    &&& out@[i].spec_best() is None
                    &&& out@[i].best_accepted()
                    &&& out@[i].spec_public_key() == orig[i].spec_public_key()
                    &&& out@[i].spec_secret().number < 52
                    &&& out@[i].spec_secret().text.len() == 64
                    &&& forall|j: int| 0 <= j < out@[i].spec_secret().text.len()
                        ==> is_alnum_byte(#[trigger] out@[i].spec_secret().text[j])
                    &&& digests@[i]@ == crate::commitment::spec_commit(out@[i].spec_secret())
                },
        decreases rest.len(),
    {
        let mut p = rest.remove(0);
        let d = match p.commit() {
            Ok(d) => d,
            Err(_) => {
                proof {
                    assert(false);
                }
                Vec::new()
            },
        };
        out.push(p);
        digests.push(d);
    }
    (out, digests)
}

/// Reveal phase: each player reveals its secret, which is checked against its
/// commitment digest, and the revealed numbers are summed into the draw seed.
/// Fails with a commitment mismatch exactly when some player's revealed
/// secret does not hash to its stored digest.
pub fn reveal_phase(players: &Vec<Player>, digests: &Vec<Vec<u8>>) -> (r: Result<
    u32,
    ProtocolError,
>)
    requires
        digests@.len() == players@.len(),
        forall|i: int| 0 <= i < players@.len() ==> (#[trigger] players@[i]).committed(),
        spec_number_sum(players@) <= u32::MAX,
    ensures
        r matches Ok(s) ==> s == spec_number_sum(players@) && forall|i: int| #![trigger players@[i]]
            0 <= i < players@.len() ==> spec_commit_ok(digests@[i]@, players@[i].spec_secret()),
        r is Err ==> r->Err_0 == ProtocolError::CommitmentMismatch && exists|i: int|
            0 <= i < players@.len() && !spec_commit_ok(
                digests@[i]@,
                (#[trigger] players@[i]).spec_secret(),
            ),
{
    let mut seed: u32 = 0;
    let mut i: usize = 0;
    while i < players.len()
        invariant
            i <= players@.len(),
            digests@.len() == players@.len(),
            forall|j: int| 0 <= j < players@.len() ==> (#[trigger] players@[j]).committed(),
            spec_number_sum(players@) <= u32::MAX,
            seed == spec_number_sum(players@.subrange(0, i as int)),
            forall|j: int| #![trigger players@[j]]
                0 <= j < i ==> spec_commit_ok(digests@[j]@, players@[j].spec_secret()),
        decreases players@.len() - i,
    {
        let p = &players[i];
        let secret = match p.reveal_secret() {
            Ok(s) => s,
            Err(_) => {
                proof {
                    assert(false);
                }
                return Err(ProtocolError::ProtocolViolation);
            },
        };
        if !crate::commitment::verify_commitment(&digests[i], &secret) {
            return Err(ProtocolError::CommitmentMismatch);
        }
        proof {
            lemma_sum_prefix_step(players@, i as int);
            lemma_sum_prefix_bound(players@, i as int + 1);
            lemma_sum_nonneg(players@.subrange(0, i as int));
        }
        seed = seed + secret.number;
        i += 1;
    }
    proof {
        assert(players@.subrange(0, players@.len() as int) =~= players@);
    }
    Ok(seed)
}

/// One round of the draw phase: each player in creation order draws at the
/// current seed, which increments once per draw; player i draws at seed + i.
pub fn draw_round(players: Vec<Player>, seed: u32) -> (r: (Vec<Player>, u32))
    requires
        forall|i: int| #![trigger players@[i]]
            0 <= i < players@.len() ==> players@[i].wf() && players@[i].committed(),
        seed + players@.len() <= u32::MAX,
    ensures
        r.0@.len() == players@.len(),
        r.1 == seed + players@.len(),
        forall|i: int| #![trigger r.0@[i]]
            0 <= i < r.0@.len() ==> {
                &&& r.0@[i].wf()
                &&& r.0@[i].committed()
                &&& r.0@[i].spec_public_key() == players@[i].spec_public_key()
                &&& r.0@[i].spec_secret() == players@[i].spec_secret()
                &&& r.0@[i].spec_best() is Some
                &&& (players@[i].best_accepted() ==> r.0@[i].best_accepted())
                &&& (players@[i].spec_best() matches Some(b) ==> r.0@[i].spec_best()->Some_0.card_value >= b.card_value)
                &&& (players@[i].spec_best() matches Some(b) ==> (r.0@[i].spec_best()->Some_0 == b
                    || r.0@[i].spec_best()->Some_0.round_index == seed + i))
                &&& (players@[i].spec_best() is None ==> r.0@[i].spec_best()->Some_0.round_index
                    == seed + i)
            },
{
    let ghost orig = players@;
    let mut rest = players;
    let mut out: Vec<Player> = Vec::new();
    let mut cur: u32 = seed;
    while rest.len() > 0
        invariant
            out@.len() + rest@.len() == orig.len(),
            cur == seed + out@.len(),
            seed + orig.len() <= u32::MAX,
            forall|i: int| #![trigger rest@[i]]
                0 <= i < rest@.len() ==> rest@[i] == orig[out@.len() + i],
            forall|i: int| #![trigger orig[i]]
                0 <= i < orig.len() ==> orig[i].wf() && orig[i].committed(),
            forall|i: int| #![trigger out@[i]]
                0 <= i < out@.len() ==> {
                    &&& out@[i].wf()
                    &&& out@[i].committed()
                    &&& out@[i].spec_public_key() == orig[i].spec_public_key()
                    &&& out@[i].spec_secret() == orig[i].spec_secret()
                    &&& out@[i].spec_best() is Some
                    &&& (orig[i].best_accepted() ==> out@[i].best_accepted())
                    &&& (orig[i].spec_best() matches Some(b) ==> out@[i].spec_best()->Some_0.card_value >= b.card_value)
                    &&& (orig[i].spec_best() matches Some(b) ==> (out@[i].spec_best()->Some_0 == b
                        || out@[i].spec_best()->Some_0.round_index == seed + i))
                    &&& (orig[i].spec_best() is None ==> out@[i].spec_best()->Some_0.round_index
                        == seed + i)
                },
        decreases rest.len(),
    {
        let mut p = rest.remove(0);
        match p.draw(cur) {
            Ok(_) => {},
            Err(_) => {
                proof {
                    assert(false);
                }
            },
        };
        out.push(p);
        cur = cur + 1;
    }
    (out, cur)
}

/// Draw phase: the given number of rounds, round-major and player-minor; the
/// seed increments by one after every single draw, so the draw of player p in
/// round q uses index seed + q*n + p, and the phase ends at seed + n*rounds.
pub fn draw_phase(players: Vec<Player>, seed: u32, rounds: u32) -> (r: (Vec<Player>, u32))
    requires
        forall|i: int| #![trigger players@[i]]
            0 <= i < players@.len() ==> players@[i].wf() && players@[i].committed(),
        seed + players@.len() * rounds <= u32::MAX,
    ensures
        r.0@.len() == players@.len(),
        r.1 == seed + players@.len() * rounds,
        forall|i: int| #![trigger r.0@[i]]
            0 <= i < r.0@.len() ==> {
                &&& r.0@[i].wf()
                &&& r.0@[i].committed()
                &&& r.0@[i].spec_public_key() == players@[i].spec_public_key()
                &&& r.0@[i].spec_secret() == players@[i].spec_secret()
                &&& (players@[i].best_accepted() ==> r.0@[i].best_accepted())
                &&& (rounds > 0 ==> r.0@[i].spec_best() is Some)
                &&& (players@[i].spec_best() is None && rounds == 0 ==> r.0@[i].spec_best() is None)
                &&& (players@[i].spec_best() is None && rounds > 0 ==> seed
                    <= r.0@[i].spec_best()->Some_0.round_index < seed + players@.len() * rounds)
            },
{
    let ghost orig = players@;
    let n = players.len();
    let mut ps = players;
    let mut cur: u32 = seed;
    let mut q: u32 = 0;
    while q < rounds
        invariant
            ps@.len() == n == orig.len(),
            q <= rounds,
            cur == seed + n * q,
            seed + n * rounds <= u32::MAX,
            forall|i: int| #![trigger orig[i]]
                0 <= i < orig.len() ==> orig[i].wf() && orig[i].committed(),
            forall|i: int| #![trigger ps@[i]]
                0 <= i < ps@.len() ==> {
                    &&& ps@[i].wf()
                    &&& ps@[i].committed()
                    &&& ps@[i].spec_public_key() == orig[i].spec_public_key()
                    &&& ps@[i].spec_secret() == orig[i].spec_secret()
                    &&& (orig[i].best_accepted() ==> ps@[i].best_accepted())
                    &&& (q > 0 ==> ps@[i].spec_best() is Some)
                    &&& (orig[i].spec_best() is None && q == 0 ==> ps@[i].spec_best() is None)
                    &&& (orig[i].spec_best() is None && q > 0 ==> seed
                        <= ps@[i].spec_best()->Some_0.round_index < cur)
                },
        decreases rounds - q,
    {
        proof {
            assert(n * (q + 1) == n * q + n) by (nonlinear_arith);
            assert(n * (q + 1) <= n * rounds) by (nonlinear_arith)
                requires
                    q + 1 <= rounds,
                    n >= 0,
            ;
        }
        let (ps2, cur2) = draw_round(ps, cur);
        ps = ps2;
        cur = cur2;
        q += 1;
    }
    proof {
        assert(n * rounds == n * q);
    }
    (ps, cur)
}

/// The verified card of one player: its best card value when its proof
/// verifies against its public key, nothing when it fails or it never drew.
pub open spec fn spec_player_card(p: Player) -> Option<u8> {
    match p.spec_best() {
        Some(b) => if crate::player::record_accepted(p.spec_public_key(), b) {
            Some(b.card_value)
        } else {
            None
        },
        None => None,
    }
}

/// Verification phase: check every player's best draw against its public key.
/// A failed proof excludes that player (its entry is nothing) rather than
/// aborting; a player that never drew makes the whole phase not ready.
pub fn verify_phase(players: &Vec<Player>) -> (r: Result<Vec<Option<u8>>, ProtocolError>)
    ensures
        (forall|i: int| 0 <= i < players@.len() ==> (#[trigger] players@[i]).spec_best() is Some)
            ==> r is Ok,
        r matches Ok(cards) ==> cards@.len() == players@.len() && forall|i: int|
            0 <= i < players@.len() ==> cards@[i] == spec_player_card(#[trigger] players@[i]),
        r is Err ==> r->Err_0 == ProtocolError::NotReady && exists|i: int|
            0 <= i < players@.len() && (#[trigger] players@[i]).spec_best() is None,
{
    let mut cards: Vec<Option<u8>> = Vec::new();
    let mut i: usize = 0;
    while i < players.len()
        invariant
            i <= players@.len(),
            cards@.len() == i,
            forall|j: int|
                0 <= j < i ==> cards@[j] == spec_player_card(#[trigger] players@[j]),
        decreases players@.len() - i,
    {
        let p = &players[i];
        let rec = match p.show_best() {
            Ok(rec) => rec,
            Err(_) => {
                return Err(ProtocolError::NotReady);
            },
        };
        let entry = match check_draw(p.public_key(), rec) {
            Ok(card) => Some(card),
            Err(_) => None,
        };
        cards.push(entry);
        i += 1;
    }
    Ok(cards)
}

/// Select the winner among the per-player verified cards: the first player
/// holding the strictly greatest verified card value; nobody when no player
/// verified.
pub fn select_winner(cards: &Vec<Option<u8>>) -> (r: Option<usize>)
    ensures
        r matches Some(w) ==> {
            &&& w < cards@.len()
            &&& cards@[w as int] is Some
            &&& forall|i: int| 0 <= i < cards@.len() ==> ((#[trigger] cards@[i]) matches Some(v)
                ==> v <= cards@[w as int]->Some_0)
            &&& forall|i: int| 0 <= i < w ==> ((#[trigger] cards@[i]) matches Some(v) ==> v
                < cards@[w as int]->Some_0)
        },
        r is None <==> (forall|i: int| 0 <= i < cards@.len() ==> (#[trigger] cards@[i]) is None),
{
    let mut winner: Option<usize> = None;
    let mut best: u8 = 0;
    let mut i: usize = 0;
    while i < cards.len()
        invariant
            i <= cards@.len(),
            winner matches Some(w) ==> {
                &&& w < i
                &&& cards@[w as int] is Some
                &&& best == cards@[w as int]->Some_0
                &&& forall|j: int| 0 <= j < i ==> ((#[trigger] cards@[j]) matches Some(v) ==> v
                    <= best)
                &&& forall|j: int| 0 <= j < w ==> ((#[trigger] cards@[j]) matches Some(v) ==> v
                    < best)
            },
            winner is None ==> forall|j: int| 0 <= j < i ==> (#[trigger] cards@[j]) is None,
        decreases cards@.len() - i,
    {
        match &cards[i] {
            Some(v) => {
                let replace = match &winner {
                    Some(_) => *v > best,
                    None => true,
                };
                if replace {
                    winner = Some(i);
                    best = *v;
                }
            },
            None => {},
        }
        i += 1;
    }
    winner
}

/// Run the whole protocol: create n players, commit, reveal-and-check, draw
/// the given number of rounds, verify every best draw, and pick the winner.
/// With honest players every phase succeeds, so a winner index below n is
/// returned.
pub fn run(n: usize, rounds: u32) -> (r: Result<usize, ProtocolError>)
    requires
        2 <= n,
        1 <= rounds,
        52 * n + n * rounds <= u32::MAX,
    ensures
        r matches Ok(w) && w < n,
{
    let mut fresh: Vec<Player> = Vec::new();
    while fresh.len() < n
        invariant
            fresh@.len() <= n,
            forall|i: int| #![trigger fresh@[i]]
                0 <= i < fresh@.len() ==> fresh@[i].wf() && !fresh@[i].committed()
                    && fresh@[i].spec_best() is None,
        decreases n - fresh.len(),
    {
        fresh.push(Player::new());
    }
    let (players, digests) = commit_phase(fresh);
    proof {
        lemma_sum_bound(players@);
        assert(n * rounds >= 0) by (nonlinear_arith)
            requires
                n >= 0,
                rounds >= 0,
        ;
    }
    let seed = match reveal_phase(&players, &digests) {
        Ok(s) => s,
        Err(_) => {
            proof {
                assert(false);
            }
            return Err(ProtocolError::CommitmentMismatch);
        },
    };
    let (players, _end) = draw_phase(players, seed, rounds);
    let cards = match verify_phase(&players) {
        Ok(cards) => cards,
        Err(_) => {
            proof {
                assert(false);
            }
            return Err(ProtocolError::NotReady);
        },
    };
    match select_winner(&cards) {
        Some(w) => Ok(w),
        None => {
            proof {
                assert(players@[0].spec_best() is Some);
                assert(players@[0].best_accepted());
                assert(cards@[0] == spec_player_card(players@[0]));
                assert(spec_player_card(players@[0]) is Some);
                assert(cards@[0] is None);
                assert(false);
            }
            Err(ProtocolError::VrfVerificationFailure)
        },
    }
}

/// The exact sequence of round indices the draw phase hands out for n players
/// over the given rounds starting at `start`: the consecutive integers from
/// `start`, in round-major, player-minor order — entry q*n + p, the draw of
/// player p in round q, holds start + q*n + p — with no repeats and no gaps.
pub fn round_indices(n: usize, rounds: u32, start: u32) -> (r: Vec<u32>)
    requires
        n * rounds <= usize::MAX,
        start + n * rounds <= u32::MAX,
    ensures
        r@.len() == n * rounds,
        forall|k: int| 0 <= k < r@.len() ==> r@[k] == start + k,
{
    let total: usize = n * (rounds as usize);
    let mut r: Vec<u32> = Vec::new();
    let mut k: usize = 0;
    while k < total
        invariant
            k <= total,
            total == n * rounds,
            start + total <= u32::MAX,
            r@.len() == k,
            forall|j: int| 0 <= j < k ==> r@[j] == start + j,
        decreases total - k,
    {
        r.push(start + (k as u32));
        k += 1;
    }
    r
}

/// Round-major, player-minor slots never collide: distinct (round, player)
/// pairs get distinct entries of the index sequence, and every slot lies
/// below n*rounds — together with `round_indices` this says the indices are
/// assigned with no repeats and no gaps.
pub proof fn lemma_round_slot_unique(n: int, rounds: int, q1: int, p1: int, q2: int, p2: int)
    requires
        0 <= q1 < rounds,
        0 <= p1 < n,
        0 <= q2 < rounds,
        0 <= p2 < n,
        q1 != q2 || p1 != p2,
    ensures
        q1 * n + p1 != q2 * n + p2,
        0 <= q1 * n + p1 < n * rounds,
{
    assert(q1 * n + p1 < n * rounds) by (nonlinear_arith)
        requires
            0 <= q1 < rounds,
            0 <= p1 < n,
    ;
    assert(q1 * n + p1 >= 0) by (nonlinear_arith)
        requires
            q1 >= 0,
            p1 >= 0,
            n >= 0,
    ;
    if q1 != q2 {
        assert(q1 * n + p1 != q2 * n + p2) by (nonlinear_arith)
            requires
                q1 != q2,
                0 <= p1 < n,
                0 <= p2 < n,
        ;
    }
}

} // verus!
