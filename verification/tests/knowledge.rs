use statement_distribution::knowledge::{PeerData, PeerRelayParentKnowledge};
use statement_distribution::relay_view::RelayView;
use statement_distribution::primitives::{
    self, CompactStatement, Rep, COST_APPARENT_FLOOD, COST_DUPLICATE_STATEMENT,
    COST_UNEXPECTED_STATEMENT,
};

fn hash(byte: u8) -> primitives::Hash {
    primitives::Hash::new([byte; 32])
}

#[test]
fn a_judgement_is_sent_only_after_its_candidate() {
    let mut knowledge = PeerRelayParentKnowledge::default();
    let x = hash(0xaa);
    assert_eq!(knowledge.send(&(CompactStatement::Valid(x), 0)), None);
    assert!(!knowledge.has_sent(&(CompactStatement::Valid(x), 0)));
    assert_eq!(knowledge.send(&(CompactStatement::Candidate(x), 0)), Some(true));
    assert!(knowledge.knows_candidate(&x));
    assert_eq!(knowledge.send(&(CompactStatement::Valid(x), 0)), Some(false));
    assert_eq!(knowledge.send(&(CompactStatement::Invalid(x), 1)), Some(false));
    // A judgement of another candidate is still held back.
    assert_eq!(knowledge.send(&(CompactStatement::Invalid(hash(0xbb)), 1)), None);
}

#[test]
fn a_statement_is_sent_once() {
    let mut knowledge = PeerRelayParentKnowledge::default();
    let x = hash(1);
    assert_eq!(knowledge.send(&(CompactStatement::Candidate(x), 3)), Some(true));
    assert_eq!(knowledge.send(&(CompactStatement::Candidate(x), 3)), None);
    // The same candidate seconded by another validator is another statement,
    // and no news of the candidate.
    assert_eq!(knowledge.send(&(CompactStatement::Candidate(x), 4)), Some(false));
    assert_eq!(knowledge.known_candidates(), vec![x]);
}

#[test]
fn what_the_peer_has_sent_is_not_sent_back() {
    let mut knowledge = PeerRelayParentKnowledge::default();
    let x = hash(1);
    let fingerprint = (CompactStatement::Candidate(x), 0);
    assert_eq!(knowledge.receive(&fingerprint, 6), Ok(true));
    assert_eq!(knowledge.send(&fingerprint), None);
    assert!(knowledge.has_received(&fingerprint));
    assert!(!knowledge.has_sent(&fingerprint));
}

#[test]
fn a_statement_in_flight_both_ways_is_accepted() {
    let mut knowledge = PeerRelayParentKnowledge::default();
    let x = hash(1);
    let fingerprint = (CompactStatement::Candidate(x), 0);
    assert_eq!(knowledge.send(&fingerprint), Some(true));
    // The peer may have sent the same statement before ours arrived.
    assert_eq!(knowledge.receive(&fingerprint, 6), Ok(false));
    assert!(knowledge.has_sent(&fingerprint));
    assert!(knowledge.has_received(&fingerprint));
}

#[test]
fn the_statement_that_reaches_the_bound_is_a_flood() {
    let mut knowledge = PeerRelayParentKnowledge::default();
    let x = hash(0xaa);
    // The peer learns of the candidate from us, which counts nothing.
    assert_eq!(knowledge.send(&(CompactStatement::Candidate(x), 0)), Some(true));
    assert_eq!(knowledge.received_message_count(&x), 0);
    let max_message_count = 2 * 3;
    for validator in 0..5u32 {
        assert_eq!(
            knowledge.receive(&(CompactStatement::Valid(x), validator), max_message_count),
            Ok(false)
        );
        assert_eq!(knowledge.received_message_count(&x), validator as usize + 1);
    }
    assert_eq!(
        knowledge.receive(&(CompactStatement::Valid(x), 5), max_message_count),
        Err(COST_APPARENT_FLOOD)
    );
    assert_eq!(COST_APPARENT_FLOOD.value(), -1000);
    // The refused statement was neither counted nor recorded.
    assert_eq!(knowledge.received_message_count(&x), 5);
    assert!(!knowledge.has_received(&(CompactStatement::Valid(x), 5)));
    assert!(knowledge.received_message_count(&x) < max_message_count);
}

#[test]
fn a_flood_leaves_the_allowance_of_the_validator_untouched() {
    let mut knowledge = PeerRelayParentKnowledge::default();
    let (x, y, z) = (hash(1), hash(2), hash(3));
    // Under a bound of one every statement is a flood.
    assert_eq!(knowledge.receive(&(CompactStatement::Candidate(x), 0), 1), Err(Rep::ApparentFlood));
    assert_eq!(knowledge.receive(&(CompactStatement::Candidate(y), 0), 0), Err(Rep::ApparentFlood));
    assert!(!knowledge.knows_candidate(&x));
    assert!(!knowledge.knows_candidate(&y));
    assert_eq!(knowledge.received_message_count(&x), 0);
    // The validator's two candidates are still to come.
    assert_eq!(knowledge.receive(&(CompactStatement::Candidate(y), 0), 6), Ok(true));
    assert_eq!(knowledge.receive(&(CompactStatement::Candidate(z), 0), 6), Ok(true));
    assert_eq!(
        knowledge.receive(&(CompactStatement::Candidate(x), 0), 6),
        Err(Rep::UnexpectedStatement)
    );
}

#[test]
fn a_statement_sent_twice_is_a_duplicate() {
    let mut knowledge = PeerRelayParentKnowledge::default();
    let x = hash(7);
    let fingerprint = (CompactStatement::Candidate(x), 2);
    assert_eq!(knowledge.receive(&fingerprint, 6), Ok(true));
    assert_eq!(knowledge.receive(&fingerprint, 6), Err(COST_DUPLICATE_STATEMENT));
    assert_eq!(COST_DUPLICATE_STATEMENT.value(), -250);
    // Nothing has changed by the second.
    assert_eq!(knowledge.received_message_count(&x), 1);
    assert_eq!(knowledge.known_candidates(), vec![x]);
    assert!(knowledge.has_received(&fingerprint));
    // A duplicate is found before a flood is.
    assert_eq!(knowledge.receive(&fingerprint, 0), Err(Rep::DuplicateStatement));
}

#[test]
fn a_peer_may_report_two_candidates_of_one_validator() {
    let mut knowledge = PeerRelayParentKnowledge::default();
    let (x, y, z) = (hash(1), hash(2), hash(3));
    assert_eq!(knowledge.receive(&(CompactStatement::Candidate(x), 0), 6), Ok(true));
    assert_eq!(knowledge.receive(&(CompactStatement::Candidate(y), 0), 6), Ok(true));
    assert_eq!(
        knowledge.receive(&(CompactStatement::Candidate(z), 0), 6),
        Err(COST_UNEXPECTED_STATEMENT)
    );
    assert_eq!(COST_UNEXPECTED_STATEMENT.value(), -100);
    assert!(!knowledge.knows_candidate(&z));
    // Another validator has an allowance of its own.
    assert_eq!(knowledge.receive(&(CompactStatement::Candidate(z), 1), 6), Ok(true));
    assert_eq!(knowledge.known_candidates(), vec![x, y, z]);
}

#[test]
fn what_we_send_does_not_use_up_what_the_peer_may_report() {
    let mut knowledge = PeerRelayParentKnowledge::default();
    let (x, y, z, w) = (hash(1), hash(2), hash(3), hash(4));
    assert_eq!(knowledge.send(&(CompactStatement::Candidate(x), 0)), Some(true));
    assert_eq!(knowledge.send(&(CompactStatement::Candidate(y), 0)), Some(true));
    // A third of ours is sent all the same: that is our fault, not the peer's.
    assert_eq!(knowledge.send(&(CompactStatement::Candidate(z), 0)), Some(true));
    assert_eq!(knowledge.receive(&(CompactStatement::Candidate(z), 0), 9), Ok(false));
    assert_eq!(knowledge.receive(&(CompactStatement::Candidate(w), 0), 9), Ok(true));
    assert_eq!(
        knowledge.receive(&(CompactStatement::Candidate(x), 0), 9),
        Err(Rep::UnexpectedStatement)
    );
}

#[test]
fn a_judgement_of_an_unknown_candidate_is_unexpected() {
    let mut knowledge = PeerRelayParentKnowledge::default();
    let x = hash(1);
    assert_eq!(
        knowledge.receive(&(CompactStatement::Valid(x), 0), 6),
        Err(Rep::UnexpectedStatement)
    );
    assert_eq!(
        knowledge.receive(&(CompactStatement::Invalid(x), 0), 6),
        Err(Rep::UnexpectedStatement)
    );
    assert_eq!(knowledge.receive(&(CompactStatement::Candidate(x), 1), 6), Ok(true));
    assert_eq!(knowledge.receive(&(CompactStatement::Valid(x), 0), 6), Ok(false));
    assert_eq!(knowledge.receive(&(CompactStatement::Invalid(x), 0), 6), Ok(false));
    assert_eq!(knowledge.received_message_count(&x), 3);
}

#[test]
fn a_peer_is_told_nothing_at_a_relay_parent_that_is_not_tracked() {
    let mut peer = PeerData::default();
    let (parent, other, x) = (hash(0x10), hash(0x20), hash(1));
    let fingerprint = (CompactStatement::Candidate(x), 0);
    assert_eq!(peer.send(&parent, &fingerprint), None);
    assert_eq!(peer.receive(&parent, &fingerprint, 6), Err(COST_UNEXPECTED_STATEMENT));
    assert!(!peer.tracks(&parent));
    assert_eq!(peer.change_view(RelayView::new(vec![parent, other])), vec![parent, other]);
    assert!(!peer.tracks(&parent));
    peer.track(parent);
    assert!(peer.tracks(&parent));
    assert!(!peer.tracks(&other));
    assert_eq!(peer.send(&other, &fingerprint), None);
    assert_eq!(peer.send(&parent, &fingerprint), Some(true));
    assert_eq!(peer.send(&parent, &fingerprint), None);
    assert_eq!(peer.receive(&parent, &(CompactStatement::Valid(x), 1), 6), Ok(false));
    let knowledge = peer.knowledge(&parent).unwrap();
    assert!(knowledge.knows_candidate(&x));
    assert!(knowledge.has_sent(&fingerprint));
    assert_eq!(knowledge.received_message_count(&x), 1);
    assert!(peer.knowledge(&other).is_none());
    // What is known at one relay-parent is not known at another.
    peer.track(other);
    assert_eq!(peer.send(&other, &(CompactStatement::Valid(x), 1)), None);
    // When a relay-parent leaves the view, what was known there is gone.
    assert!(peer.change_view(RelayView::new(vec![other])).is_empty());
    assert!(!peer.tracks(&parent));
    assert!(peer.tracks(&other));
    assert_eq!(peer.relay_view().heads(), vec![other]);
    assert_eq!(peer.send(&parent, &(CompactStatement::Valid(x), 2)), None);
    assert_eq!(peer.change_view(RelayView::new(vec![parent, other])), vec![parent]);
    peer.track(parent);
    assert_eq!(peer.send(&parent, &fingerprint), Some(true));
}

#[test]
fn the_sum_of_costs_and_benefits() {
    let all = [
        (Rep::UnexpectedStatement, -100),
        (Rep::InvalidSignature, -500),
        (Rep::InvalidMessage, -500),
        (Rep::DuplicateStatement, -250),
        (Rep::ApparentFlood, -1000),
        (Rep::ValidStatement, 5),
        (Rep::ValidStatementFirst, 25),
    ];
    for (rep, value) in all {
        assert_eq!(rep.value(), value);
        assert_eq!(rep.is_cost(), value < 0);
        assert!(!rep.reason().is_empty());
    }
    assert_eq!(primitives::COST_INVALID_SIGNATURE, Rep::InvalidSignature);
    assert_eq!(primitives::COST_INVALID_MESSAGE, Rep::InvalidMessage);
    assert_eq!(primitives::BENEFIT_VALID_STATEMENT.value(), 5);
    assert_eq!(primitives::BENEFIT_VALID_STATEMENT_FIRST.value(), 25);
    assert_eq!(Rep::UnexpectedStatement.reason(), "Unexpected Statement");
}
