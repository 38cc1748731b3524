use fair_draw::ProtocolError;
use fair_draw::bytes::{bytes_eq, u32_le_bytes, u32_to_decimal};
use fair_draw::commitment::{Secret, commit_secret, verify_commitment};
use fair_draw::player::{DrawRecord, Player};
use fair_draw::protocol::{round_indices, select_winner};
use fair_draw::vrf::card_from_output;

fn secret(number: u32, text: &[u8]) -> Secret {
    Secret { number, text: text.to_vec() }
}

fn stub_record(round_index: u32, first_byte: u8) -> DrawRecord {
    let output = vec![first_byte; 32];
    DrawRecord {
        round_index,
        card_value: first_byte % 52,
        vrf_output: output,
        vrf_proof: vec![0u8; 64],
    }
}

#[test]
fn le_bytes_exact() {
    assert_eq!(u32_le_bytes(0), vec![0, 0, 0, 0]);
    assert_eq!(u32_le_bytes(258), vec![2, 1, 0, 0]);
    assert_eq!(u32_le_bytes(u32::MAX), vec![255, 255, 255, 255]);
}

#[test]
fn decimal_exact() {
    assert_eq!(u32_to_decimal(0), b"0".to_vec());
    assert_eq!(u32_to_decimal(7), b"7".to_vec());
    assert_eq!(u32_to_decimal(120), b"120".to_vec());
    assert_eq!(u32_to_decimal(4294967295), b"4294967295".to_vec());
}

#[test]
fn bytes_eq_exact() {
    assert!(bytes_eq(&vec![1, 2, 3], &vec![1, 2, 3]));
    assert!(!bytes_eq(&vec![1, 2, 3], &vec![1, 2, 4]));
    assert!(!bytes_eq(&vec![1, 2, 3], &vec![1, 2]));
    assert!(bytes_eq(&Vec::new(), &Vec::new()));
}

#[test]
fn card_derivation_exact() {
    let mut out = vec![0u8; 32];
    out[0] = 10;
    assert_eq!(card_from_output(&out), 10);
    out[0] = 254;
    assert_eq!(card_from_output(&out), 254 % 52);
    out[0] = 52;
    assert_eq!(card_from_output(&out), 0);
}

#[test]
fn commitment_roundtrip() {
    let s = secret(7, b"ab");
    let digest = commit_secret(&s);
    assert_eq!(digest.len(), 16);
    assert!(verify_commitment(&digest, &s));
}

#[test]
fn commitment_deterministic() {
    let s = secret(41, b"some-long-tag-0123456789");
    assert_eq!(commit_secret(&s), commit_secret(&s));
}

#[test]
fn commitment_digest_bitflip_rejected() {
    let s = secret(7, b"ab");
    let mut digest = commit_secret(&s);
    digest[0] ^= 1;
    assert!(!verify_commitment(&digest, &s));
}

#[test]
fn commitment_secret_bitflip_rejected() {
    let s = secret(7, b"ab");
    let digest = commit_secret(&s);
    assert!(!verify_commitment(&digest, &secret(8, b"ab")));
    assert!(!verify_commitment(&digest, &secret(7, b"ac")));
    assert!(!verify_commitment(&digest, &secret(7, b"abx")));
}

#[test]
fn commitment_differs_from_message() {
    // The digest is a fixed 16 bytes, not the hashed message handed back.
    let s = secret(7, b"abcdefghabcdefghabcdefgh");
    let digest = commit_secret(&s);
    let mut message = b"7".to_vec();
    message.extend_from_slice(b"abcdefghabcdefghabcdefgh");
    assert_ne!(digest, message);
    assert_ne!(digest.as_slice(), &message[..16]);
}

#[test]
fn secret_duplicate_identical() {
    let s = secret(13, b"tag");
    let d = s.duplicate();
    assert_eq!(d.number, s.number);
    assert_eq!(d.text, s.text);
}

#[test]
fn reveal_is_idempotent_and_pure() {
    let mut p = Player::new();
    let digest = p.commit_with(secret(7, b"ab")).unwrap();
    let first = p.reveal_secret().unwrap();
    let second = p.reveal_secret().unwrap();
    assert_eq!(first.number, second.number);
    assert_eq!(first.text, second.text);
    // The commitment still checks out afterwards: nothing was mutated.
    assert!(verify_commitment(&digest, &first));
}

#[test]
fn commit_twice_is_violation() {
    let mut p = Player::new();
    assert!(p.commit().is_ok());
    assert_eq!(p.commit().unwrap_err(), ProtocolError::ProtocolViolation);
    assert_eq!(
        p.commit_with(secret(1, b"x")).unwrap_err(),
        ProtocolError::ProtocolViolation
    );
}

#[test]
fn reveal_before_commit_is_violation() {
    let p = Player::new();
    assert_eq!(p.reveal_secret().unwrap_err(), ProtocolError::ProtocolViolation);
}

#[test]
fn draw_before_commit_is_violation() {
    let mut p = Player::new();
    assert_eq!(p.draw(0).unwrap_err(), ProtocolError::ProtocolViolation);
}

#[test]
fn show_best_before_draw_not_ready() {
    let p = Player::new();
    assert!(matches!(p.show_best(), Err(ProtocolError::NotReady)));
    let mut q = Player::new();
    q.commit().unwrap();
    assert!(matches!(q.show_best(), Err(ProtocolError::NotReady)));
}

#[test]
fn random_secret_shape() {
    let mut p = Player::new();
    p.commit().unwrap();
    let s = p.reveal_secret().unwrap();
    assert!(s.number < 52);
    assert_eq!(s.text.len(), 64);
    assert!(s.text.iter().all(|b| b.is_ascii_alphanumeric()));
}

#[test]
fn best_draw_is_running_maximum() {
    let mut p = Player::new();
    p.commit_with(secret(3, b"tag")).unwrap();
    let cards = [10u8, 20, 20, 5, 19];
    let mut max_so_far = 0u8;
    for (i, &c) in cards.iter().enumerate() {
        let rec = stub_record(i as u32, c);
        p.apply_draw(rec.round_index, rec.vrf_output, rec.vrf_proof).unwrap();
        if c > max_so_far {
            max_so_far = c;
        }
        let best = p.show_best().unwrap();
        assert_eq!(best.card_value, max_so_far);
    }
    // Ties kept the earliest record: 20 first appeared at index 1, and the
    // later 20 at index 2 did not replace it.
    let best = p.show_best().unwrap();
    assert_eq!(best.card_value, 20);
    assert_eq!(best.round_index, 1);
}

#[test]
fn round_indices_exact() {
    assert_eq!(round_indices(2, 1, 0), vec![0, 1]);
    assert_eq!(
        round_indices(3, 2, 10),
        vec![10, 11, 12, 13, 14, 15]
    );
    // Round-major, player-minor: player p of round q sits at entry q*n + p.
    let n = 4usize;
    let rounds = 5u32;
    let seq = round_indices(n, rounds, 14);
    assert_eq!(seq.len(), 20);
    for q in 0..rounds as usize {
        for p in 0..n {
            assert_eq!(seq[q * n + p], 14 + (q * n + p) as u32);
        }
    }
}

#[test]
fn select_winner_first_max_among_verified() {
    assert_eq!(select_winner(&vec![]), None);
    assert_eq!(select_winner(&vec![None, None]), None);
    assert_eq!(select_winner(&vec![Some(10), Some(20)]), Some(1));
    assert_eq!(select_winner(&vec![Some(20), Some(10)]), Some(0));
    // Ties go to the first seen.
    assert_eq!(select_winner(&vec![Some(7), Some(7), Some(3)]), Some(0));
    assert_eq!(select_winner(&vec![None, Some(7), Some(7)]), Some(1));
    // Excluded players lose even with the numeric maximum absent.
    assert_eq!(select_winner(&vec![None, Some(0)]), Some(1));
}

#[test]
fn select_winner_all_zero_values() {
    // A verified card of zero still beats nobody but wins if it is alone.
    assert_eq!(select_winner(&vec![Some(0), Some(0)]), Some(0));
    assert_eq!(select_winner(&vec![None, Some(0), Some(0)]), Some(1));
}
