//! Handling of a statement that a peer has sent: whether it is accepted,
//! how the peer's reputation moves, and what the statement unlocks.

use crate::active_head::{
    ActiveHeadData, ActiveHeadView, Noted, NotedStatement, StoredStatement,
};
use crate::gossip::{send_each, send_statements_about, sent_each, ActiveHeads};
use crate::knowledge::{PeerData, PeerDataView};
use crate::messages::{append_outgoing, outgoing_views, Outgoing, OutgoingView};
use crate::primitives::{
    self, PeerId, Rep, SignedFullStatement, SignedFullStatementView, SigningContext, ValidatorId,
    BENEFIT_VALID_STATEMENT, BENEFIT_VALID_STATEMENT_FIRST, COST_INVALID_MESSAGE,
    COST_INVALID_SIGNATURE, COST_UNEXPECTED_STATEMENT,
};
use crate::relay_view::RelayView;
use crate::wire::WireMessage;
use vstd::prelude::*;

verus! {

/// What has to be verified of a statement's signature, and by whom it
/// claims to be signed: the key of the validator at the statement's index,
/// and the context of the head. `None` where the head has no validator at
/// that index.
pub open spec fn spec_signature_request(
    head: ActiveHeadView,
    relay_parent: primitives::Hash,
    statement: SignedFullStatementView,
) -> Option<(ValidatorId, SigningContext)> {
    if statement.validator_index < head.validators.len() {
        Some(
            (
                head.validators[statement.validator_index as int],
                SigningContext { session_index: head.session_index, parent_hash: relay_parent },
            ),
        )
    } else {
        None
    }
}

/// The validator's key and the signing context under which the signature
/// of `statement` has to verify at this head; `None` where the head has no
/// validator at the statement's index.
pub fn signature_request(
    head: &ActiveHeadData,
    relay_parent: primitives::Hash,
    statement: &SignedFullStatement,
) -> (r: Option<(ValidatorId, SigningContext)>)
    ensures
        r == spec_signature_request(head@, relay_parent, statement@),
{
    let signing_context = SigningContext {
        session_index: head.session_index(),
        parent_hash: relay_parent,
    };
    let validators = head.validators();
    let index = statement.validator_index() as usize;
    if index < validators.len() {
        Some((validators[index], signing_context))
    } else {
        None
    }
}

/// Check a statement signature under this parent hash.
///
/// `signature_verifies` says whether the signature verifies for what
/// `signature_request` names; it is not looked at where the head has no
/// validator at the statement's index.
pub fn check_statement_signature(
    head: &ActiveHeadData,
    relay_parent: primitives::Hash,
    statement: &SignedFullStatement,
    signature_verifies: bool,
) -> (r: Result<(), ()>)
    ensures
        r is Ok == (spec_signature_request(head@, relay_parent, statement@) is Some
            && signature_verifies),
{
    match signature_request(head, relay_parent, statement) {
        None => Err(()),
        Some(_) => if signature_verifies {
            Ok(())
        } else {
            Err(())
        },
    }
}

/// The most statements about one candidate that a peer may send at a head
/// with `validators` validators, and one more: twice the number of
/// validators, as far as the machine can count.
pub open spec fn spec_max_message_count(validators: nat) -> nat {
    if 2 * validators <= usize::MAX {
        2 * validators
    } else {
        usize::MAX as nat
    }
}

/// The bound on the statements about one candidate that a peer may send at
/// a head with `validators` validators.
pub fn max_message_count(validators: usize) -> (n: usize)
    ensures
        n == spec_max_message_count(validators as nat),
{
    if validators > usize::MAX / 2 {
        usize::MAX
    } else {
        validators * 2
    }
}

/// What handling an incoming message leads to.
#[verifier::ext_equal]
pub struct Ingress {
    /// The data of the peer afterwards.
    pub data: PeerDataView,
    /// The active heads afterwards.
    pub heads: Map<primitives::Hash, ActiveHeadView>,
    /// The messages that go out, in order.
    pub messages: Seq<OutgoingView>,
    /// The statement, where it was accepted and is new to us, with its
    /// relay-parent.
    pub fresh: Option<(primitives::Hash, SignedFullStatementView)>,
}

/// The outcome that changes nothing and reports the peer.
pub open spec fn rejected(
    data: PeerDataView,
    heads: Map<primitives::Hash, ActiveHeadView>,
    peer: Seq<u8>,
    rep: Rep,
) -> Ingress {
    Ingress { data, heads, messages: seq![OutgoingView::ReportPeer(peer, rep)], fresh: None }
}

/// What `handle_incoming_message` does.
///
/// A message that cannot be decoded costs the peer and is dropped, and so
/// does a statement at a relay-parent outside our view. A statement at a
/// relay-parent in our view without an active head is dropped at no cost. A
/// statement whose signature does not hold costs the peer and is dropped.
/// Then the peer's knowledge decides, under the flood bound of the head;
/// what it refuses costs the peer what it says, and changes nothing. Where
/// the peer has just learnt of the candidate, it is sent what we hold about
/// it. At last the statement is noted at the head: the peer gains by a
/// statement that is of use, more if it is new to us.
pub open spec fn incoming(
    data: PeerDataView,
    peer: Seq<u8>,
    our_view: Seq<primitives::Hash>,
    heads: Map<primitives::Hash, ActiveHeadView>,
    message: Option<(primitives::Hash, SignedFullStatementView)>,
    signature_verifies: bool,
) -> Ingress {
    match message {
        None => rejected(data, heads, peer, Rep::InvalidMessage),
        Some((relay_parent, statement)) => {
            if !our_view.contains(relay_parent) {
                rejected(data, heads, peer, Rep::UnexpectedStatement)
            } else if !heads.contains_key(relay_parent) {
                Ingress { data, heads, messages: Seq::empty(), fresh: None }
            } else if spec_signature_request(heads[relay_parent], relay_parent, statement)
                is None || !signature_verifies {
                rejected(data, heads, peer, Rep::InvalidSignature)
            } else {
                accepted_signature(data, peer, heads, relay_parent, statement)
            }
        },
    }
}

/// What handling a statement leads to once its signature has been found
/// good at an active head in our view.
pub open spec fn accepted_signature(
    data: PeerDataView,
    peer: Seq<u8>,
    heads: Map<primitives::Hash, ActiveHeadView>,
    relay_parent: primitives::Hash,
    statement: SignedFullStatementView,
) -> Ingress {
    let head = heads[relay_parent];
    let fingerprint = statement.fingerprint();
    let bound = spec_max_message_count(head.validators.len());
    match data.receive_outcome(relay_parent, fingerprint, bound) {
        Err(rep) => rejected(data, heads, peer, rep),
        Ok(first) => {
            let received = data.after_receive(relay_parent, fingerprint, bound);
            let about = head.statements_about(statement.compact.spec_candidate_hash());
            let flushed = if first {
                send_each(received, relay_parent, about)
            } else {
                received
            };
            let sent = if first {
                sent_each(received, peer, relay_parent, about)
            } else {
                Seq::empty()
            };
            let noted = heads.insert(relay_parent, head.after_note(statement));
            match head.note_outcome(statement) {
                Noted::NotUseful => Ingress {
                    data: flushed,
                    heads: noted,
                    messages: sent,
                    fresh: None,
                },
                Noted::UsefulButKnown => Ingress {
                    data: flushed,
                    heads: noted,
                    messages: sent.push(OutgoingView::ReportPeer(peer, Rep::ValidStatement)),
                    fresh: None,
                },
                Noted::Fresh(stored) => Ingress {
                    data: flushed,
                    heads: noted,
                    messages: sent.push(OutgoingView::ReportPeer(peer, Rep::ValidStatementFirst)),
                    fresh: Some((relay_parent, stored)),
                },
            }
        },
    }
}

/// The content of an optional message.
pub open spec fn message_view(message: Option<WireMessage>) -> Option<
    (primitives::Hash, SignedFullStatementView),
> {
    match message {
        Some(m) => Some(m@),
        None => None,
    }
}

/// The content of an optional stored statement with its relay-parent.
pub open spec fn fresh_view(fresh: Option<(primitives::Hash, &StoredStatement)>) -> Option<
    (primitives::Hash, SignedFullStatementView),
> {
    match fresh {
        Some((relay_parent, stored)) => Some((relay_parent, stored@)),
        None => None,
    }
}

/// The message that reports the peer.
fn report_peer(peer: PeerId, rep: Rep) -> (message: Outgoing)
    ensures
        message@ == OutgoingView::ReportPeer(peer@, rep),
{
    Outgoing::ReportPeer(peer, rep)
}

/// Handle an incoming wire message. Returns the messages that go out, and
/// the newly stored statement, if we were not already aware of it, along
/// with its relay-parent.
///
/// `message` is the decoded message, `None` where the bytes could not be
/// decoded. `signature_verifies` says whether the statement's signature
/// verifies for what `signature_request` names at the statement's head.
pub fn handle_incoming_message<'a>(
    peer: PeerId,
    peer_data: &mut PeerData,
    our_view: &RelayView,
    active_heads: &'a mut ActiveHeads,
    message: Option<WireMessage>,
    signature_verifies: bool,
) -> (r: (Vec<Outgoing>, Option<(primitives::Hash, &'a StoredStatement)>))
    requires
        old(peer_data).wf(),
        old(active_heads).wf(),
    ensures
        final(peer_data).wf(),
        final(active_heads).wf(),
        final(active_heads).order() == old(active_heads).order(),
        final(peer_data)@ == incoming(
            old(peer_data)@,
            peer@,
            our_view@,
            old(active_heads)@,
            message_view(message),
            signature_verifies,
        ).data,
        final(active_heads)@ == incoming(
            old(peer_data)@,
            peer@,
            our_view@,
            old(active_heads)@,
            message_view(message),
            signature_verifies,
        ).heads,
        outgoing_views(r.0@) == incoming(
            old(peer_data)@,
            peer@,
            our_view@,
            old(active_heads)@,
            message_view(message),
            signature_verifies,
        ).messages,
        fresh_view(r.1) == incoming(
            old(peer_data)@,
            peer@,
            our_view@,
            old(active_heads)@,
            message_view(message),
            signature_verifies,
        ).fresh,
        r.1 matches Some((_, stored)) ==> stored.wf(),
{
    let mut messages: Vec<Outgoing> = Vec::new();
    let (relay_parent, statement) = match message {
        None => {
            messages.push(report_peer(peer, COST_INVALID_MESSAGE));
            return (messages, None);
        },
        Some(WireMessage::Statement(r, s)) => (r, s),
    };
    if !our_view.contains(&relay_parent) {
        messages.push(report_peer(peer, COST_UNEXPECTED_STATEMENT));
        return (messages, None);
    }
    let position = match active_heads.index_of(&relay_parent) {
        Some(i) => i,
        None => {
            // Our view is out of step with the active heads: drop the message.
            return (messages, None);
        },
    };
    let active_head = active_heads.value_mut(position);
    // check the signature on the statement.
    let checked = check_statement_signature(
        active_head,
        relay_parent,
        &statement,
        signature_verifies,
    );
    if checked.is_err() {
        messages.push(report_peer(peer, COST_INVALID_SIGNATURE));
        return (messages, None);
    }
    // Ensure the statement is stored in the peer data.
    //
    // If the peer is sending us something that is not within its view, it
    // will not be kept within its log.
    let fingerprint = (statement.to_compact(), statement.validator_index());
    let bound = max_message_count(active_head.validators().len());
    match peer_data.receive(&relay_parent, &fingerprint, bound) {
        Err(rep) => {
            messages.push(report_peer(peer, rep));
            return (messages, None);
        },
        Ok(true) => {
            // Send the peer all statements concerning the candidate that we
            // have, since it appears to have just learned about the
            // candidate.
            let more = send_statements_about(
                peer.duplicate(),
                peer_data,
                relay_parent,
                *fingerprint.0.candidate_hash(),
                &*active_head,
            );
            append_outgoing(&mut messages, more);
        },
        Ok(false) => {},
    }
    // `receive` has made sure that the statement is no unbounded
    // equivocation and that its candidate has been seconded, so it is safe
    // to place it into the storage.
    match active_head.note_statement(statement) {
        NotedStatement::NotUseful => (messages, None),
        NotedStatement::UsefulButKnown => {
            messages.push(report_peer(peer, BENEFIT_VALID_STATEMENT));
            (messages, None)
        },
        NotedStatement::Fresh(stored) => {
            messages.push(report_peer(peer, BENEFIT_VALID_STATEMENT_FIRST));
            (messages, Some((relay_parent, stored)))
        },
    }
}

} // verus!
