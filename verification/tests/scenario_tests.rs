use fair_draw::ProtocolError;
use fair_draw::commitment::{Secret, commit_secret};
use fair_draw::player::{DrawRecord, Player, check_draw};
use fair_draw::protocol::{
    commit_phase, draw_phase, reveal_phase, run, select_winner, verify_phase,
};

fn secret(number: u32, text: &[u8]) -> Secret {
    Secret { number, text: text.to_vec() }
}

fn stub_output(first_byte: u8) -> Vec<u8> {
    let mut out = vec![0u8; 32];
    out[0] = first_byte;
    out
}

#[test]
fn vrf_draw_verifies_against_own_key() {
    let mut p = Player::new();
    p.commit().unwrap();
    p.draw(5).unwrap();
    let best = p.show_best().unwrap();
    assert_eq!(best.round_index, 5);
    assert_eq!(best.vrf_output.len(), 32);
    assert_eq!(best.vrf_proof.len(), 64);
    assert!(best.card_value < 52);
    assert_eq!(check_draw(p.public_key(), best).unwrap(), best.card_value);
}

#[test]
fn vrf_proof_rejected_under_other_key() {
    let mut p = Player::new();
    p.commit().unwrap();
    p.draw(0).unwrap();
    let other = Player::new();
    assert_ne!(p.public_key(), other.public_key());
    assert_eq!(
        check_draw(other.public_key(), p.show_best().unwrap()).unwrap_err(),
        ProtocolError::VrfVerificationFailure
    );
}

#[test]
fn vrf_proof_rejected_for_other_context() {
    let mut p = Player::new();
    p.commit().unwrap();
    p.draw(0).unwrap();
    let best = p.show_best().unwrap();
    let reused = DrawRecord {
        round_index: 1,
        card_value: best.card_value,
        vrf_output: best.vrf_output.clone(),
        vrf_proof: best.vrf_proof.clone(),
    };
    assert_eq!(
        check_draw(p.public_key(), &reused).unwrap_err(),
        ProtocolError::VrfVerificationFailure
    );
}

#[test]
fn two_player_stub_scenario_player1_wins() {
    // Two players, one round, fixed draw outcomes: cards 10 and 20.
    let mut p0 = Player::new();
    let mut p1 = Player::new();
    let d0 = p0.commit_with(secret(7, b"ab")).unwrap();
    let d1 = p1.commit_with(secret(7, b"cd")).unwrap();
    let players = vec![p0, p1];
    let digests = vec![d0, d1];
    let seed = reveal_phase(&players, &digests).unwrap();
    assert_eq!(seed, 14);

    let mut players = players;
    players[0].apply_draw(0, stub_output(10), vec![0u8; 64]).unwrap();
    players[1].apply_draw(1, stub_output(20), vec![0u8; 64]).unwrap();
    let best0 = players[0].show_best().unwrap();
    let best1 = players[1].show_best().unwrap();
    assert_eq!((best0.round_index, best0.card_value), (0, 10));
    assert_eq!((best1.round_index, best1.card_value), (1, 20));

    // With both draws standing, the higher card wins.
    let winner = select_winner(&vec![Some(best0.card_value), Some(best1.card_value)]);
    assert_eq!(winner, Some(1));
}

#[test]
fn tampered_reveal_reports_commitment_mismatch() {
    let mut p0 = Player::new();
    let mut p1 = Player::new();
    // Player 0's published digest belongs to a different secret than the one
    // it later reveals.
    let _ = p0.commit_with(secret(7, b"ab")).unwrap();
    let d1 = p1.commit_with(secret(7, b"cd")).unwrap();
    let forged = commit_secret(&secret(9, b"zz"));
    let players = vec![p0, p1];
    let digests = vec![forged, d1];
    assert_eq!(
        reveal_phase(&players, &digests).unwrap_err(),
        ProtocolError::CommitmentMismatch
    );
}

#[test]
fn corrupted_proof_excludes_player_even_with_max_card() {
    let mut p0 = Player::new();
    let mut p1 = Player::new();
    p0.commit().unwrap();
    p1.commit().unwrap();
    p0.draw(0).unwrap();
    p1.draw(1).unwrap();

    let best0 = p0.show_best().unwrap();
    let mut corrupted_proof = best0.vrf_proof.clone();
    corrupted_proof[0] ^= 1;
    let corrupted = DrawRecord {
        round_index: best0.round_index,
        card_value: best0.card_value,
        vrf_output: best0.vrf_output.clone(),
        vrf_proof: corrupted_proof,
    };
    assert_eq!(
        check_draw(p0.public_key(), &corrupted).unwrap_err(),
        ProtocolError::VrfVerificationFailure
    );

    // Player 0 is excluded, so player 1 wins whatever the card values were.
    let best1 = p1.show_best().unwrap();
    let card1 = check_draw(p1.public_key(), best1).unwrap();
    let winner = select_winner(&vec![None, Some(card1)]);
    assert_eq!(winner, Some(1));
}

#[test]
fn full_protocol_by_phases() {
    let n = 3usize;
    let rounds = 2u32;
    let mut fresh = Vec::new();
    for _ in 0..n {
        fresh.push(Player::new());
    }
    let (players, digests) = commit_phase(fresh);
    assert_eq!(players.len(), n);
    assert_eq!(digests.len(), n);

    let mut expected_seed = 0u32;
    for p in players.iter() {
        expected_seed += p.reveal_secret().unwrap().number;
    }
    let seed = reveal_phase(&players, &digests).unwrap();
    assert_eq!(seed, expected_seed);

    let (players, end) = draw_phase(players, seed, rounds);
    assert_eq!(end, seed + (n as u32) * rounds);

    let cards = verify_phase(&players).unwrap();
    assert_eq!(cards.len(), n);
    // Honest players always verify.
    assert!(cards.iter().all(|c| c.is_some()));

    let winner = select_winner(&cards).unwrap();
    assert!(winner < n);
    // The winner holds the greatest verified card, earliest on ties.
    let values: Vec<u8> = cards.iter().map(|c| c.unwrap()).collect();
    let max = *values.iter().max().unwrap();
    assert_eq!(values[winner], max);
    assert_eq!(values.iter().position(|&v| v == max), Some(winner));
}

#[test]
fn run_returns_winner_in_range() {
    let winner = run(4, 5).unwrap();
    assert!(winner < 4);
    let winner = run(2, 1).unwrap();
    assert!(winner < 2);
}

#[test]
fn draw_phase_keeps_only_verifiable_records() {
    let mut fresh = Vec::new();
    for _ in 0..2 {
        fresh.push(Player::new());
    }
    let (players, digests) = commit_phase(fresh);
    let seed = reveal_phase(&players, &digests).unwrap();
    let (players, _) = draw_phase(players, seed, 3);
    for p in players.iter() {
        let best = p.show_best().unwrap();
        assert!(seed <= best.round_index && best.round_index < seed + 6);
        assert_eq!(check_draw(p.public_key(), best).unwrap(), best.card_value);
    }
}
