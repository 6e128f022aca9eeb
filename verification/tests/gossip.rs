use statement_distribution::active_head::{ActiveHeadData, NotedStatement};
use statement_distribution::collections::VecMap;
use statement_distribution::gossip::{
    circulate_statement, circulate_statement_and_dependents, send_statements,
    send_statements_about, update_peer_view_and_send_unlocked, ActiveHeads, Peers,
};
use statement_distribution::knowledge::PeerData;
use statement_distribution::messages::Outgoing;
use statement_distribution::primitives::{
    self, CompactStatement, PeerId, SignedFullStatement, ValidatorId, ValidatorSignature,
};
use statement_distribution::relay_view::RelayView;
use statement_distribution::wire::encode_statement;

fn hash(byte: u8) -> primitives::Hash {
    primitives::Hash::new([byte; 32])
}

fn peer(name: &str) -> PeerId {
    PeerId::new(name.as_bytes().to_vec())
}

fn signed(compact: CompactStatement, validator: u32) -> SignedFullStatement {
    let mut encoded = vec![validator as u8];
    encoded.extend_from_slice(compact.candidate_hash().as_bytes());
    encoded.push(match compact {
        CompactStatement::Candidate(_) => 1,
        CompactStatement::Valid(_) => 2,
        CompactStatement::Invalid(_) => 3,
    });
    let signature = ValidatorSignature::new([validator as u8; 64]);
    SignedFullStatement::new(compact, validator, signature, encoded)
}

fn head() -> ActiveHeadData {
    ActiveHeadData::new(
        vec![ValidatorId::new([1; 32]), ValidatorId::new([2; 32]), ValidatorId::new([3; 32])],
        1,
    )
}

fn carries(
    relay_parent: primitives::Hash,
    statement: &SignedFullStatement,
    to: &[&str],
) -> Outgoing {
    Outgoing::SendMessage(
        to.iter().map(|name| peer(name)).collect(),
        *b"sdn1",
        encode_statement(&relay_parent, statement),
    )
}

fn tracking(relay_parents: &[primitives::Hash]) -> PeerData {
    let mut data = PeerData::default();
    data.change_view(RelayView::new(relay_parents.to_vec()));
    for relay_parent in relay_parents {
        data.track(*relay_parent);
    }
    data
}

#[test]
fn circulated_statement_goes_to_all_peers_with_view() {
    let (parent, other) = (hash(0x10), hash(0x20));
    let x = hash(0xaa);
    let mut peers: Peers = VecMap::new();
    peers.insert(peer("a"), tracking(&[parent]));
    peers.insert(peer("b"), tracking(&[other]));
    peers.insert(peer("c"), tracking(&[parent, other]));
    peers.insert(peer("d"), PeerData::default());

    let mut head = head();
    let seconded = signed(CompactStatement::Candidate(x), 0);
    let (message, needing_dependents) = match head.note_statement(seconded.clone()) {
        NotedStatement::Fresh(stored) => circulate_statement(&mut peers, parent, stored),
        _ => panic!("the statement is new"),
    };
    // One message, to the peers that track the relay-parent.
    assert_eq!(message, Some(carries(parent, &seconded, &["a", "c"])));
    // Both have learnt of the candidate by it.
    assert_eq!(needing_dependents, vec![peer("a"), peer("c")]);
    for (name, knows) in [("a", true), ("b", false), ("c", true), ("d", false)] {
        let data = peers.get(&peer(name)).unwrap();
        let known = data.knowledge(&parent).map_or(false, |k| k.knows_candidate(&x));
        assert_eq!(known, knows);
    }
    assert!(!peers.get(&peer("c")).unwrap().knowledge(&other).unwrap().knows_candidate(&x));

    // Circulated again, the statement goes to nobody.
    let stored = head.statements();
    let (message, needing_dependents) = circulate_statement(&mut peers, parent, stored[0]);
    assert_eq!(message, None);
    assert!(needing_dependents.is_empty());
}

#[test]
fn a_judgement_goes_to_the_peers_that_know_the_candidate() {
    let parent = hash(0x10);
    let x = hash(0xaa);
    let mut peers: Peers = VecMap::new();
    peers.insert(peer("a"), tracking(&[parent]));
    peers.insert(peer("b"), tracking(&[parent]));
    // Only `b` knows of the candidate.
    assert_eq!(
        peers.value_mut(1).receive(&parent, &(CompactStatement::Candidate(x), 0), 6),
        Ok(true)
    );
    let mut head = head();
    head.note_statement(signed(CompactStatement::Candidate(x), 0));
    let valid = signed(CompactStatement::Valid(x), 1);
    let (message, needing_dependents) = match head.note_statement(valid.clone()) {
        NotedStatement::Fresh(stored) => circulate_statement(&mut peers, parent, stored),
        _ => panic!("the statement is new"),
    };
    assert_eq!(message, Some(carries(parent, &valid, &["b"])));
    assert!(needing_dependents.is_empty());
}

#[test]
fn peer_view_update_sends_messages() {
    let parent = hash(0x10);
    let x = hash(0xaa);
    let seconded = signed(CompactStatement::Candidate(x), 0);
    let valid = signed(CompactStatement::Valid(x), 1);
    let mut head = head();
    // Noted in this order, the judgement would be of no use; so second first.
    head.note_statement(seconded.clone());
    head.note_statement(valid.clone());
    let mut active_heads: ActiveHeads = VecMap::new();
    active_heads.insert(parent, head);

    let mut data = PeerData::default();
    assert_eq!(data.relay_view().len(), 0);
    let messages = update_peer_view_and_send_unlocked(
        peer("p"),
        &mut data,
        &active_heads,
        RelayView::new(vec![parent]),
    );
    assert_eq!(
        messages,
        vec![carries(parent, &seconded, &["p"]), carries(parent, &valid, &["p"])]
    );
    assert_eq!(data.relay_view().heads(), vec![parent]);
    let knowledge = data.knowledge(&parent).unwrap();
    assert!(knowledge.knows_candidate(&x));
    assert!(knowledge.has_sent(&(CompactStatement::Candidate(x), 0)));
    assert!(knowledge.has_sent(&(CompactStatement::Valid(x), 1)));

    // The same view again unlocks nothing.
    let messages = update_peer_view_and_send_unlocked(
        peer("p"),
        &mut data,
        &active_heads,
        RelayView::new(vec![parent]),
    );
    assert!(messages.is_empty());
    assert!(data.knowledge(&parent).unwrap().has_sent(&(CompactStatement::Valid(x), 1)));
}

#[test]
fn a_view_change_drops_what_has_left_and_tracks_what_we_work_on() {
    let (r1, r2, r3) = (hash(0x10), hash(0x20), hash(0x30));
    let x = hash(0xaa);
    let seconded = signed(CompactStatement::Candidate(x), 0);
    let mut active_heads: ActiveHeads = VecMap::new();
    let mut head1 = head();
    head1.note_statement(seconded.clone());
    active_heads.insert(r1, head1);
    let mut head2 = head();
    head2.note_statement(seconded.clone());
    active_heads.insert(r2, head2);

    let mut data = PeerData::default();
    let messages = update_peer_view_and_send_unlocked(
        peer("p"),
        &mut data,
        &active_heads,
        RelayView::new(vec![r3, r1]),
    );
    assert_eq!(messages, vec![carries(r1, &seconded, &["p"])]);
    assert!(data.tracks(&r1));
    // We have no head for `r3`, so nothing is tracked there.
    assert!(!data.tracks(&r3));
    assert!(!data.tracks(&r2));

    let messages = update_peer_view_and_send_unlocked(
        peer("p"),
        &mut data,
        &active_heads,
        RelayView::new(vec![r2, r3]),
    );
    assert_eq!(messages, vec![carries(r2, &seconded, &["p"])]);
    assert!(!data.tracks(&r1));
    assert!(data.tracks(&r2));
    assert_eq!(data.relay_view().heads(), vec![r2, r3]);

    // Back in the view, the relay-parent starts from nothing.
    let messages = update_peer_view_and_send_unlocked(
        peer("p"),
        &mut data,
        &active_heads,
        RelayView::new(vec![r1, r2]),
    );
    assert_eq!(messages, vec![carries(r1, &seconded, &["p"])]);
}

#[test]
fn a_shared_statement_is_stored_and_circulated_with_its_dependents() {
    let parent = hash(0x10);
    let x = hash(0xaa);
    let mut peers: Peers = VecMap::new();
    peers.insert(peer("a"), tracking(&[parent]));
    peers.insert(peer("b"), tracking(&[parent]));
    let mut active_heads: ActiveHeads = VecMap::new();
    active_heads.insert(parent, head());

    // Peer `a` has told us of the candidate and of a judgement before we
    // have seconded it ourselves.
    let theirs = signed(CompactStatement::Candidate(x), 1);
    let valid = signed(CompactStatement::Valid(x), 2);
    assert_eq!(
        peers.value_mut(0).receive(&parent, &(CompactStatement::Candidate(x), 1), 6),
        Ok(true)
    );
    assert_eq!(peers.value_mut(0).receive(&parent, &(CompactStatement::Valid(x), 2), 6), Ok(false));
    active_heads.value_mut(0).note_statement(theirs.clone());
    active_heads.value_mut(0).note_statement(valid.clone());

    let ours = signed(CompactStatement::Candidate(x), 0);
    let messages =
        circulate_statement_and_dependents(&mut peers, &mut active_heads, parent, ours.clone());
    assert_eq!(
        messages,
        vec![
            // Our statement goes to both in one message.
            carries(parent, &ours, &["a", "b"]),
            // `b` has learnt of the candidate, and is sent what depends on it.
            carries(parent, &theirs, &["b"]),
            carries(parent, &valid, &["b"]),
        ]
    );
    assert_eq!(active_heads.get(&parent).unwrap().statements().len(), 3);

    // Shared again, the statement is known and is not gossiped.
    let messages =
        circulate_statement_and_dependents(&mut peers, &mut active_heads, parent, ours.clone());
    assert!(messages.is_empty());
    // A third statement of the validator is of no use.
    let third = signed(CompactStatement::Candidate(hash(0xbb)), 0);
    let messages = circulate_statement_and_dependents(&mut peers, &mut active_heads, parent, third);
    assert!(messages.is_empty());
    assert!(!active_heads.get(&parent).unwrap().has_candidate(&hash(0xbb)));
}

#[test]
fn a_statement_without_an_active_head_is_dropped() {
    let parent = hash(0x10);
    let mut peers: Peers = VecMap::new();
    peers.insert(peer("a"), tracking(&[parent]));
    let mut active_heads: ActiveHeads = VecMap::new();
    let messages = circulate_statement_and_dependents(
        &mut peers,
        &mut active_heads,
        parent,
        signed(CompactStatement::Candidate(hash(1)), 0),
    );
    assert!(messages.is_empty());
    assert_eq!(active_heads.len(), 0);
    assert!(!peers.get(&peer("a")).unwrap().knowledge(&parent).unwrap().knows_candidate(&hash(1)));
}

#[test]
fn statements_are_sent_one_message_each() {
    let parent = hash(0x10);
    let (x, y) = (hash(0xaa), hash(0xbb));
    let mut head = head();
    let second_x = signed(CompactStatement::Candidate(x), 0);
    let valid_x = signed(CompactStatement::Valid(x), 1);
    let second_y = signed(CompactStatement::Candidate(y), 1);
    for statement in [&second_x, &valid_x, &second_y] {
        head.note_statement(statement.clone());
    }

    let mut data = tracking(&[parent]);
    let messages = send_statements_about(peer("p"), &mut data, parent, x, &head);
    assert_eq!(
        messages,
        vec![carries(parent, &second_x, &["p"]), carries(parent, &valid_x, &["p"])]
    );
    // The rest follows, and nothing is sent twice.
    let messages = send_statements(peer("p"), &mut data, parent, &head);
    assert_eq!(messages, vec![carries(parent, &second_y, &["p"])]);
    assert!(send_statements(peer("p"), &mut data, parent, &head).is_empty());

    // A peer for which the relay-parent is not tracked is sent nothing.
    let mut stranger = PeerData::default();
    assert!(send_statements(peer("q"), &mut stranger, parent, &head).is_empty());
    // At another relay-parent the peer starts from nothing.
    let mut data = tracking(&[hash(0x20)]);
    let messages = send_statements(peer("p"), &mut data, hash(0x20), &head);
    assert_eq!(
        messages,
        vec![
            carries(hash(0x20), &second_x, &["p"]),
            carries(hash(0x20), &second_y, &["p"]),
            carries(hash(0x20), &valid_x, &["p"]),
        ]
    );
}

#[test]
fn a_view_holds_each_relay_parent_once() {
    let (a, b, c) = (hash(1), hash(2), hash(3));
    let view = RelayView::new(vec![b, a, b, c, a]);
    assert_eq!(view.heads(), vec![b, a, c]);
    assert_eq!(view.len(), 3);
    assert!(view.contains(&a));
    assert!(!view.contains(&hash(4)));
    let other = RelayView::new(vec![c, hash(4)]);
    assert_eq!(view.difference(&other), vec![b, a]);
    assert_eq!(other.difference(&view), vec![hash(4)]);
    assert!(view.difference(&view).is_empty());
    assert_eq!(RelayView::default().len(), 0);
    assert_eq!(view.difference(&RelayView::default()), vec![b, a, c]);
}

#[test]
fn a_map_keeps_its_keys_in_order() {
    let mut peers: Peers = VecMap::new();
    peers.insert(peer("a"), PeerData::default());
    peers.insert(peer("b"), PeerData::default());
    peers.insert(peer("c"), PeerData::default());
    assert_eq!(peers.len(), 3);
    assert_eq!(peers.index_of(&peer("b")), Some(1));
    assert!(peers.remove(&peer("a")).is_some());
    assert!(peers.remove(&peer("a")).is_none());
    assert_eq!(peers.key_at(0), &peer("b"));
    assert_eq!(peers.key_at(1), &peer("c"));
    // Inserting under a key that is there replaces the value in its place.
    peers.insert(peer("b"), tracking(&[hash(1)]));
    assert_eq!(peers.len(), 2);
    assert_eq!(peers.index_of(&peer("b")), Some(0));
    assert!(peers.value_at(0).tracks(&hash(1)));
    assert!(peers.contains_key(&peer("c")));
    assert!(!peers.contains_key(&peer("a")));
    assert_eq!(peer("a").duplicate(), peer("a"));
}
