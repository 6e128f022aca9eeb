use statement_distribution::ingress::{
    check_statement_signature, handle_incoming_message, max_message_count, signature_request,
};
use statement_distribution::active_head::ActiveHeadData;
use statement_distribution::collections::VecMap;
use statement_distribution::gossip::ActiveHeads;
use statement_distribution::knowledge::PeerData;
use statement_distribution::messages::Outgoing;
use statement_distribution::primitives::{
    self, CompactStatement, PeerId, Rep, SignedFullStatement, SigningContext, ValidatorId,
    ValidatorSignature,
};
use statement_distribution::relay_view::RelayView;
use statement_distribution::subsystem::{Event, NetworkBridgeEvent, StatementDistribution};
use statement_distribution::wire::{encode_statement, WireMessage};

fn hash(byte: u8) -> primitives::Hash {
    primitives::Hash::new([byte; 32])
}

fn peer(name: &str) -> PeerId {
    PeerId::new(name.as_bytes().to_vec())
}

fn validators() -> Vec<ValidatorId> {
    vec![ValidatorId::new([0xa1; 32]), ValidatorId::new([0xb0; 32]), ValidatorId::new([0xc4; 32])]
}

fn signed(compact: CompactStatement, validator: u32) -> SignedFullStatement {
    let mut encoded = vec![validator as u8];
    encoded.extend_from_slice(compact.candidate_hash().as_bytes());
    encoded.push(match compact {
        CompactStatement::Candidate(_) => 1,
        CompactStatement::Valid(_) => 2,
        CompactStatement::Invalid(_) => 3,
    });
    let signature = ValidatorSignature::new([validator as u8; 64]);
    SignedFullStatement::new(compact, validator, signature, encoded)
}

fn carries(
    relay_parent: primitives::Hash,
    statement: &SignedFullStatement,
    to: &[&str],
) -> Outgoing {
    Outgoing::SendMessage(
        to.iter().map(|name| peer(name)).collect(),
        *b"sdn1",
        encode_statement(&relay_parent, statement),
    )
}

fn update(subsystem: &mut StatementDistribution, event: NetworkBridgeEvent) -> Vec<Outgoing> {
    let (messages, concluded) = subsystem.step(Event::NetworkBridgeUpdate(event));
    assert!(!concluded);
    messages
}

fn from_peer(
    subsystem: &mut StatementDistribution,
    name: &str,
    relay_parent: primitives::Hash,
    statement: &SignedFullStatement,
) -> Vec<Outgoing> {
    update(
        subsystem,
        NetworkBridgeEvent::PeerMessage(
            peer(name),
            Some(WireMessage::Statement(relay_parent, statement.clone())),
            true,
        ),
    )
}

fn report(name: &str, rep: Rep) -> Outgoing {
    Outgoing::ReportPeer(peer(name), rep)
}

/// A subsystem that works on `relay_parent`, with three validators, and
/// with the peers `p` and `q` that work on it too.
fn working_on(relay_parent: primitives::Hash) -> StatementDistribution {
    let mut subsystem = StatementDistribution::new();
    subsystem.step(Event::StartWork(relay_parent));
    subsystem.step(Event::WorkStarted(relay_parent, validators(), 1));
    update(&mut subsystem, NetworkBridgeEvent::OurViewChange(RelayView::new(vec![relay_parent])));
    for name in ["p", "q"] {
        update(&mut subsystem, NetworkBridgeEvent::PeerConnected(peer(name)));
        let messages = update(
            &mut subsystem,
            NetworkBridgeEvent::PeerViewChange(peer(name), RelayView::new(vec![relay_parent])),
        );
        assert!(messages.is_empty());
    }
    subsystem
}

#[test]
fn smoke() {
    let parent = hash(1);
    let x = hash(0xaa);
    let mut subsystem = StatementDistribution::new();
    assert_eq!(subsystem.start(), vec![Outgoing::RegisterEventProducer(*b"sdn1")]);
    assert_eq!(subsystem.peers().len(), 0);
    assert_eq!(subsystem.active_heads().len(), 0);
    assert_eq!(subsystem.our_view().len(), 0);

    assert_eq!(
        subsystem.step(Event::StartWork(parent)),
        (vec![Outgoing::RequestValidators(parent), Outgoing::RequestSigningContext(parent)], false)
    );
    assert_eq!(subsystem.active_heads().len(), 0);
    assert_eq!(subsystem.step(Event::WorkStarted(parent, validators(), 1)), (vec![], false));
    assert_eq!(subsystem.active_heads().get(&parent).unwrap().session_index(), 1);
    // A second answer does not replace the head.
    assert_eq!(subsystem.step(Event::WorkStarted(parent, vec![], 2)), (vec![], false));
    assert_eq!(subsystem.active_heads().get(&parent).unwrap().validators(), &validators());
    assert!(update(&mut subsystem, NetworkBridgeEvent::OurViewChange(RelayView::new(vec![parent])))
        .is_empty());
    assert_eq!(subsystem.our_view().heads(), vec![parent]);

    assert!(update(&mut subsystem, NetworkBridgeEvent::PeerConnected(peer("p"))).is_empty());
    assert!(update(&mut subsystem, NetworkBridgeEvent::PeerConnected(peer("q"))).is_empty());
    assert!(update(
        &mut subsystem,
        NetworkBridgeEvent::PeerViewChange(peer("p"), RelayView::new(vec![parent]))
    )
    .is_empty());

    // Our own statement goes to the peer that works on the relay-parent.
    let ours = signed(CompactStatement::Candidate(x), 0);
    assert_eq!(
        subsystem.step(Event::Share(parent, ours.clone())),
        (vec![carries(parent, &ours, &["p"])], false)
    );
    // The other peer gets it when the relay-parent comes into its view.
    assert_eq!(
        update(
            &mut subsystem,
            NetworkBridgeEvent::PeerViewChange(peer("q"), RelayView::new(vec![parent]))
        ),
        vec![carries(parent, &ours, &["q"])]
    );
    // A statement from a peer is rewarded, handed on to candidate backing,
    // and not sent back.
    let valid = signed(CompactStatement::Valid(x), 1);
    assert_eq!(
        from_peer(&mut subsystem, "p", parent, &valid),
        vec![report("p", Rep::ValidStatementFirst), Outgoing::Statement(parent, valid.clone())]
    );
    // From the second peer the statement is known.
    assert_eq!(
        from_peer(&mut subsystem, "q", parent, &valid),
        vec![report("q", Rep::ValidStatement)]
    );

    assert_eq!(subsystem.step(Event::StopWork(parent)), (vec![], false));
    assert_eq!(subsystem.active_heads().len(), 1);
    assert!(update(&mut subsystem, NetworkBridgeEvent::PeerDisconnected(peer("p"))).is_empty());
    assert_eq!(subsystem.peers().len(), 1);
    assert!(from_peer(&mut subsystem, "p", parent, &valid).is_empty());
    assert_eq!(subsystem.step(Event::Conclude), (vec![], true));
}

#[test]
fn a_message_that_does_not_decode_costs_the_peer() {
    let mut subsystem = working_on(hash(1));
    assert_eq!(
        update(&mut subsystem, NetworkBridgeEvent::PeerMessage(peer("p"), None, false)),
        vec![report("p", Rep::InvalidMessage)]
    );
    assert_eq!(Rep::InvalidMessage.value(), -500);
    // A peer that is not connected is not even reported.
    assert!(update(&mut subsystem, NetworkBridgeEvent::PeerMessage(peer("z"), None, false))
        .is_empty());
}

#[test]
fn a_statement_with_a_bad_signature_costs_the_peer() {
    let parent = hash(1);
    let mut subsystem = working_on(parent);
    let seconded = signed(CompactStatement::Candidate(hash(0xaa)), 0);
    let message = WireMessage::Statement(parent, seconded.clone());
    assert_eq!(
        subsystem.signature_request(&message),
        Some((validators()[0], SigningContext { session_index: 1, parent_hash: parent }))
    );
    assert_eq!(
        update(&mut subsystem, NetworkBridgeEvent::PeerMessage(peer("p"), Some(message), false)),
        vec![report("p", Rep::InvalidSignature)]
    );
    assert_eq!(Rep::InvalidSignature.value(), -500);
    // A validator that the head does not have cannot have signed.
    let by_nobody = signed(CompactStatement::Candidate(hash(0xaa)), 3);
    let message = WireMessage::Statement(parent, by_nobody.clone());
    assert_eq!(subsystem.signature_request(&message), None);
    assert_eq!(
        from_peer(&mut subsystem, "p", parent, &by_nobody),
        vec![report("p", Rep::InvalidSignature)]
    );
    // Neither has left a trace.
    assert!(subsystem.active_heads().get(&parent).unwrap().statements().is_empty());
    assert_eq!(
        from_peer(&mut subsystem, "p", parent, &seconded),
        vec![report("p", Rep::ValidStatementFirst), Outgoing::Statement(parent, seconded)]
    );
}

#[test]
fn the_signature_is_checked_against_the_validator_at_the_index() {
    let parent = hash(9);
    let head = ActiveHeadData::new(validators(), 5);
    let by_charlie = signed(CompactStatement::Valid(hash(1)), 2);
    assert_eq!(
        signature_request(&head, parent, &by_charlie),
        Some((validators()[2], SigningContext { session_index: 5, parent_hash: parent }))
    );
    assert_eq!(check_statement_signature(&head, parent, &by_charlie, true), Ok(()));
    assert_eq!(check_statement_signature(&head, parent, &by_charlie, false), Err(()));
    let by_nobody = signed(CompactStatement::Valid(hash(1)), 3);
    assert_eq!(signature_request(&head, parent, &by_nobody), None);
    assert_eq!(check_statement_signature(&head, parent, &by_nobody, true), Err(()));
}

#[test]
fn the_flood_bound_is_twice_the_validators() {
    assert_eq!(max_message_count(0), 0);
    assert_eq!(max_message_count(3), 6);
    assert_eq!(max_message_count(1000), 2000);
    assert_eq!(max_message_count(usize::MAX / 2), usize::MAX - 1);
    assert_eq!(max_message_count(usize::MAX / 2 + 1), usize::MAX);
    assert_eq!(max_message_count(usize::MAX), usize::MAX);
}

#[test]
fn the_sixth_statement_about_a_candidate_is_a_flood() {
    let parent = hash(1);
    let x = hash(0xaa);
    let mut subsystem = working_on(parent);
    // We second the candidate ourselves, so the peers know it without
    // having sent a statement about it.
    let ours = signed(CompactStatement::Candidate(x), 0);
    assert_eq!(
        subsystem.step(Event::Share(parent, ours.clone())).0,
        vec![carries(parent, &ours, &["p", "q"])]
    );
    // With three validators the bound is six.
    let mut statements = Vec::new();
    for validator in 0..3 {
        statements.push(signed(CompactStatement::Valid(x), validator));
        statements.push(signed(CompactStatement::Invalid(x), validator));
    }
    for statement in &statements[..5] {
        assert_eq!(
            from_peer(&mut subsystem, "p", parent, statement),
            vec![
                report("p", Rep::ValidStatementFirst),
                Outgoing::Statement(parent, statement.clone())
            ]
        );
    }
    assert_eq!(
        from_peer(&mut subsystem, "p", parent, &statements[5]),
        vec![report("p", Rep::ApparentFlood)]
    );
    assert_eq!(Rep::ApparentFlood.value(), -1000);
    assert_eq!(subsystem.active_heads().get(&parent).unwrap().statements().len(), 6);
    let knowledge = subsystem.peers().get(&peer("p")).unwrap().knowledge(&parent).unwrap();
    assert_eq!(knowledge.received_message_count(&x), 5);
    // The other peer has a count of its own.
    assert_eq!(
        from_peer(&mut subsystem, "q", parent, &statements[5]),
        vec![
            report("q", Rep::ValidStatementFirst),
            Outgoing::Statement(parent, statements[5].clone())
        ]
    );
}

#[test]
fn the_same_statement_twice_costs_the_peer() {
    let parent = hash(1);
    let mut subsystem = working_on(parent);
    let seconded = signed(CompactStatement::Candidate(hash(0xaa)), 0);
    assert_eq!(
        from_peer(&mut subsystem, "p", parent, &seconded),
        vec![report("p", Rep::ValidStatementFirst), Outgoing::Statement(parent, seconded.clone())]
    );
    assert_eq!(Rep::ValidStatementFirst.value(), 25);
    assert_eq!(
        from_peer(&mut subsystem, "p", parent, &seconded),
        vec![report("p", Rep::DuplicateStatement)]
    );
    assert_eq!(Rep::DuplicateStatement.value(), -250);
    let head = subsystem.active_heads().get(&parent).unwrap();
    assert_eq!(head.statements().len(), 1);
    assert_eq!(head.seconded_count(0), 1);
    let knowledge = subsystem.peers().get(&peer("p")).unwrap().knowledge(&parent).unwrap();
    assert_eq!(knowledge.received_message_count(&hash(0xaa)), 1);
}

#[test]
fn the_third_candidate_of_a_validator_is_unexpected() {
    let parent = hash(1);
    let mut subsystem = working_on(parent);
    for candidate in [hash(0xaa), hash(0xbb)] {
        let seconded = signed(CompactStatement::Candidate(candidate), 0);
        assert_eq!(
            from_peer(&mut subsystem, "p", parent, &seconded),
            vec![report("p", Rep::ValidStatementFirst), Outgoing::Statement(parent, seconded)]
        );
    }
    let third = signed(CompactStatement::Candidate(hash(0xcc)), 0);
    assert_eq!(
        from_peer(&mut subsystem, "p", parent, &third),
        vec![report("p", Rep::UnexpectedStatement)]
    );
    assert_eq!(Rep::UnexpectedStatement.value(), -100);
    // From a peer that has not sent the first two, the statement is
    // accepted, and then found to be of no use: no gain, no loss.
    assert!(from_peer(&mut subsystem, "q", parent, &third).is_empty());
    let head = subsystem.active_heads().get(&parent).unwrap();
    assert_eq!(head.seconded_count(0), 2);
    assert!(!head.has_candidate(&hash(0xcc)));
}

#[test]
fn a_peer_that_learns_of_a_candidate_is_sent_what_we_hold() {
    let parent = hash(1);
    let x = hash(0xaa);
    let mut subsystem = working_on(parent);
    let by_alice = signed(CompactStatement::Candidate(x), 0);
    let valid = signed(CompactStatement::Valid(x), 1);
    from_peer(&mut subsystem, "p", parent, &by_alice);
    from_peer(&mut subsystem, "p", parent, &valid);
    // `q` seconds the same candidate through another validator's statement.
    let by_charlie = signed(CompactStatement::Candidate(x), 2);
    assert_eq!(
        from_peer(&mut subsystem, "q", parent, &by_charlie),
        vec![
            carries(parent, &by_alice, &["q"]),
            carries(parent, &valid, &["q"]),
            report("q", Rep::ValidStatementFirst),
            Outgoing::Statement(parent, by_charlie),
        ]
    );
}

#[test]
fn a_relay_parent_that_leaves_our_view_is_purged() {
    let (parent, next) = (hash(1), hash(2));
    let mut subsystem = working_on(parent);
    let seconded = signed(CompactStatement::Candidate(hash(0xaa)), 0);
    from_peer(&mut subsystem, "p", parent, &seconded);
    assert!(subsystem.active_heads().contains_key(&parent));

    subsystem.step(Event::StartWork(next));
    subsystem.step(Event::WorkStarted(next, validators(), 1));
    assert_eq!(subsystem.active_heads().len(), 2);
    assert!(update(&mut subsystem, NetworkBridgeEvent::OurViewChange(RelayView::new(vec![next])))
        .is_empty());
    assert!(!subsystem.active_heads().contains_key(&parent));
    assert!(subsystem.active_heads().contains_key(&next));
    assert_eq!(subsystem.our_view().heads(), vec![next]);

    // A statement for the old relay-parent is unexpected from now on,
    // whoever sends it and whatever its signature.
    let valid = signed(CompactStatement::Valid(hash(0xaa)), 1);
    assert_eq!(
        from_peer(&mut subsystem, "q", parent, &valid),
        vec![report("q", Rep::UnexpectedStatement)]
    );
    assert_eq!(
        update(
            &mut subsystem,
            NetworkBridgeEvent::PeerMessage(
                peer("p"),
                Some(WireMessage::Statement(parent, valid.clone())),
                false
            )
        ),
        vec![report("p", Rep::UnexpectedStatement)]
    );
    // Our own statement for it is dropped.
    assert!(subsystem.step(Event::Share(parent, valid)).0.is_empty());
}

#[test]
fn a_relay_parent_in_our_view_without_a_head_costs_nothing() {
    let parent = hash(1);
    let mut subsystem = StatementDistribution::new();
    update(&mut subsystem, NetworkBridgeEvent::OurViewChange(RelayView::new(vec![parent])));
    update(&mut subsystem, NetworkBridgeEvent::PeerConnected(peer("p")));
    let seconded = signed(CompactStatement::Candidate(hash(0xaa)), 0);
    assert!(from_peer(&mut subsystem, "p", parent, &seconded).is_empty());
    assert_eq!(subsystem.signature_request(&WireMessage::Statement(parent, seconded)), None);
}

#[test]
fn an_incoming_message_is_handled_against_the_given_state() {
    let parent = hash(1);
    let x = hash(0xaa);
    let mut data = PeerData::default();
    data.change_view(RelayView::new(vec![parent]));
    data.track(parent);
    let our_view = RelayView::new(vec![parent]);
    let mut active_heads: ActiveHeads = VecMap::new();
    active_heads.insert(parent, ActiveHeadData::new(validators(), 1));
    let seconded = signed(CompactStatement::Candidate(x), 0);
    let (messages, fresh) = handle_incoming_message(
        peer("p"),
        &mut data,
        &our_view,
        &mut active_heads,
        Some(WireMessage::Statement(parent, seconded.clone())),
        true,
    );
    assert_eq!(messages, vec![report("p", Rep::ValidStatementFirst)]);
    let (relay_parent, stored) = fresh.unwrap();
    assert_eq!(relay_parent, parent);
    assert_eq!(stored.statement(), &seconded);
    assert!(data.knowledge(&parent).unwrap().knows_candidate(&x));

    // A peer that does not work on the relay-parent should not have sent it.
    let mut stranger = PeerData::default();
    let (messages, fresh) = handle_incoming_message(
        peer("s"),
        &mut stranger,
        &our_view,
        &mut active_heads,
        Some(WireMessage::Statement(parent, signed(CompactStatement::Valid(x), 1))),
        true,
    );
    assert_eq!(messages, vec![report("s", Rep::UnexpectedStatement)]);
    assert!(fresh.is_none());
    assert_eq!(active_heads.get(&parent).unwrap().statements().len(), 1);
}

#[test]
fn a_peer_that_connects_again_starts_from_nothing() {
    let parent = hash(1);
    let mut subsystem = working_on(parent);
    let ours = signed(CompactStatement::Candidate(hash(0xaa)), 0);
    subsystem.step(Event::Share(parent, ours.clone()));
    update(&mut subsystem, NetworkBridgeEvent::PeerConnected(peer("p")));
    assert_eq!(subsystem.peers().len(), 2);
    assert_eq!(subsystem.peers().key_at(0), &peer("p"));
    assert!(!subsystem.peers().get(&peer("p")).unwrap().tracks(&parent));
    assert_eq!(
        update(
            &mut subsystem,
            NetworkBridgeEvent::PeerViewChange(peer("p"), RelayView::new(vec![parent]))
        ),
        vec![carries(parent, &ours, &["p"])]
    );
    // The view of a peer that is not connected is of no concern.
    assert!(update(
        &mut subsystem,
        NetworkBridgeEvent::PeerViewChange(peer("z"), RelayView::new(vec![parent]))
    )
    .is_empty());
    assert_eq!(subsystem.peers().len(), 2);
}
