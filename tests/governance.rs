use governance::crypto::{Hash256, PrivateKey, PublicKey, Signature};
use governance::governance::{Governance, GovernanceError, VoteRecord};
use governance::state::GovernanceState;

fn private_key(n: u8) -> PrivateKey {
    let mut key = [0u8; 32];
    key[31] = n;
    PrivateKey { key }
}

fn agenda(n: u8) -> Hash256 {
    Hash256 { hash: [n; 32] }
}

fn voters_of(state: &GovernanceState, agenda: &Hash256) -> Option<Vec<[u8; 65]>> {
    let entry = state.votes.iter().find(|e| e.agenda_hash.hash == agenda.hash)?;
    let mut voters: Vec<[u8; 65]> = entry.voters.iter().map(|v| v.key).collect();
    voters.sort();
    Some(voters)
}

fn sorted(mut keys: Vec<[u8; 65]>) -> Vec<[u8; 65]> {
    keys.sort();
    keys
}

fn signed(gov: &Governance, a: &Hash256, who: u8) -> VoteRecord {
    gov.vote(*a, &private_key(who)).expect("a usable key signs")
}

fn fresh(height: u64) -> Governance {
    Governance::open(Governance::create(height))
}

#[test]
fn create_then_open_is_empty_at_height() {
    let gov = fresh(5);
    let state = gov.read();
    assert!(state.votes.is_empty());
    assert_eq!(state.height, 5);
}

#[test]
fn vote_signs_with_the_voters_key() {
    let gov = fresh(1);
    let a = agenda(7);
    let record = signed(&gov, &a, 1);
    let (public, private) = (
        simperby_core::PrivateKey::from_array(private_key(1).key).unwrap().public_key(),
        simperby_core::PrivateKey::from_array(private_key(1).key).unwrap(),
    );
    assert_eq!(record.agenda_hash.hash, a.hash);
    assert_eq!(&record.voter.key[..], public.as_ref());
    let expected = simperby_core::Signature::sign(simperby_core::Hash256::from_array(a.hash), &private).unwrap();
    assert_eq!(&record.signature.signature[..], expected.as_ref());
}

#[test]
fn vote_with_unusable_key_fails() {
    let gov = fresh(1);
    let r = gov.vote(agenda(1), &PrivateKey { key: [0u8; 32] });
    assert!(matches!(r, Err(GovernanceError::SignatureError)));
    let r = gov.vote(agenda(1), &PrivateKey { key: [0xff; 32] });
    assert!(matches!(r, Err(GovernanceError::SignatureError)));
}

#[test]
fn vote_does_not_touch_the_tally() {
    let gov = fresh(3);
    let _ = signed(&gov, &agenda(1), 1);
    assert!(gov.read().votes.is_empty());
}

#[test]
fn one_vote_is_tallied_once_and_again_stays_a_set() {
    let mut gov = fresh(5);
    let a = agenda(0xa);
    let v1 = signed(&gov, &a, 1);
    gov.fetch(&vec![v1]);
    assert_eq!(voters_of(&gov.read(), &a), Some(vec![v1.voter.key]));
    let again = signed(&gov, &a, 1);
    gov.fetch(&vec![again]);
    assert_eq!(voters_of(&gov.read(), &a), Some(vec![v1.voter.key]));
    assert_eq!(gov.read().votes.len(), 1);
}

#[test]
fn ingesting_a_record_twice_changes_nothing_more() {
    let mut gov = fresh(5);
    let a = agenda(2);
    let v = signed(&gov, &a, 4);
    assert!(gov.ingest(&v));
    let after_first = voters_of(&gov.read(), &a);
    assert!(gov.ingest(&v));
    assert_eq!(voters_of(&gov.read(), &a), after_first);
}

#[test]
fn two_voters_two_agendas() {
    let mut gov = fresh(5);
    let (a, b) = (agenda(0xa), agenda(0xb));
    let records = vec![signed(&gov, &a, 1), signed(&gov, &a, 2), signed(&gov, &b, 1)];
    gov.fetch(&records);
    let state = gov.read();
    assert_eq!(state.votes.len(), 2);
    assert_eq!(voters_of(&state, &a), Some(sorted(vec![records[0].voter.key, records[1].voter.key])));
    assert_eq!(voters_of(&state, &b), Some(vec![records[0].voter.key]));
}

#[test]
fn advance_against_a_different_log_height_fails_and_keeps_state() {
    let mut gov = Governance::open(Governance::create(5));
    let a = agenda(1);
    let record = signed(&gov, &a, 1);
    gov.fetch(&vec![record]);
    let r = gov.advance(6, 5);
    assert_eq!(r, Err(GovernanceError::HeightMismatchError { log_height: 6, expected: 5 }));
    let state = gov.read();
    assert_eq!(state.height, 5);
    assert_eq!(voters_of(&state, &a), Some(vec![record.voter.key]));
}

#[test]
fn advance_at_the_log_height_resets_votes() {
    let mut gov = fresh(5);
    gov.fetch(&vec![signed(&gov, &agenda(1), 1)]);
    assert_eq!(gov.advance(5, 5), Ok(()));
    assert_eq!(gov.complete_advance(Ok(())), Ok(()));
    let state = gov.read();
    assert!(state.votes.is_empty());
    assert_eq!(state.height, 6);
}

#[test]
fn failed_log_advance_keeps_state() {
    let mut gov = fresh(5);
    let a = agenda(1);
    let record = signed(&gov, &a, 1);
    gov.fetch(&vec![record]);
    assert_eq!(gov.complete_advance(Err(GovernanceError::NetworkError)), Err(GovernanceError::NetworkError));
    let state = gov.read();
    assert_eq!(state.height, 5);
    assert_eq!(voters_of(&state, &a), Some(vec![record.voter.key]));
}

#[test]
fn forged_vote_is_dropped_among_valid_ones() {
    let mut gov = fresh(5);
    let a = agenda(0xa);
    let v1 = signed(&gov, &a, 1);
    let v2 = signed(&gov, &a, 2);
    let honest_v3 = signed(&gov, &agenda(0xc), 3);
    // V3's key, but a signature made by V1 over the agenda.
    let forged = VoteRecord { agenda_hash: a, voter: honest_v3.voter, signature: v1.signature };
    assert!(!gov.ingest(&forged));
    gov.fetch(&vec![v1, forged, v2, forged]);
    let state = gov.read();
    assert_eq!(state.votes.len(), 1);
    assert_eq!(voters_of(&state, &a), Some(sorted(vec![v1.voter.key, v2.voter.key])));
}

#[test]
fn tampered_signature_or_agenda_is_rejected() {
    let mut gov = fresh(1);
    let a = agenda(9);
    let mut record = signed(&gov, &a, 5);
    record.signature = Signature { signature: [0u8; 65] };
    assert!(!gov.ingest(&record));
    let mut record = signed(&gov, &a, 5);
    record.agenda_hash = agenda(8);
    assert!(!gov.ingest(&record));
    let mut record = signed(&gov, &a, 5);
    record.voter = PublicKey { key: [0u8; 65] };
    assert!(!gov.ingest(&record));
    assert!(gov.read().votes.is_empty());
}

#[test]
fn add_vote_builds_sets_per_agenda() {
    let mut state = GovernanceState::new(2);
    let k1 = PublicKey { key: [1u8; 65] };
    let k2 = PublicKey { key: [2u8; 65] };
    state.add_vote(&agenda(1), &k1);
    state.add_vote(&agenda(1), &k2);
    state.add_vote(&agenda(1), &k1);
    state.add_vote(&agenda(2), &k2);
    assert_eq!(voters_of(&state, &agenda(1)), Some(vec![k1.key, k2.key]));
    assert_eq!(voters_of(&state, &agenda(2)), Some(vec![k2.key]));
    assert_eq!(state.find_agenda(&agenda(2)), Some(1));
    assert_eq!(state.find_agenda(&agenda(3)), None);
    assert!(agenda(4).same_as(&agenda(4)));
    assert!(!k1.same_as(&k2));
}
