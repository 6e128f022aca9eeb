//! Circulation of statements: a new statement goes to every peer that may
//! have it, and a peer that learns of a candidate is sent what we hold
//! about it.

use crate::active_head::{
    borrowed_views, ActiveHeadData, ActiveHeadView, NotedStatement, StoredStatement,
};
use crate::collections::{lemma_filter_push, VecMap};
use crate::knowledge::{PeerData, PeerDataView};
use crate::messages::{append_outgoing, outgoing_views, peer_views, Outgoing, OutgoingView};
use crate::primitives::{
    self, Fingerprint, PeerId, SignedFullStatement, SignedFullStatementView,
};
use crate::relay_view::{heads_without, RelayView};
use crate::wire::{encode_statement, spec_encode, PROTOCOL_V1};
use vstd::prelude::*;

verus! {

/// The connected peers, in the order in which they connected.
pub type Peers = VecMap<PeerId, PeerData>;

/// The relay-parents that we work on, each with what we hold for it.
pub type ActiveHeads = VecMap<primitives::Hash, ActiveHeadData>;

/// The message that carries one statement to one peer.
pub open spec fn statement_for(
    peer: Seq<u8>,
    relay_parent: primitives::Hash,
    statement: SignedFullStatementView,
) -> OutgoingView {
    OutgoingView::SendMessage(
        seq![peer],
        PROTOCOL_V1,
        spec_encode(relay_parent, statement.encoded),
    )
}

/// The peer's data after each of `statements` has been offered to it in
/// turn at `relay_parent`.
pub open spec fn send_each(
    data: PeerDataView,
    relay_parent: primitives::Hash,
    statements: Seq<SignedFullStatementView>,
) -> PeerDataView
    decreases statements.len(),
{
    if statements.len() == 0 {
        data
    } else {
        send_each(data, relay_parent, statements.drop_last()).after_send(
            relay_parent,
            statements.last().fingerprint(),
        )
    }
}

/// The messages that go out when each of `statements` is offered to the
/// peer in turn at `relay_parent`: one for each statement that the peer may
/// have at the moment it is offered, in the order of `statements`.
pub open spec fn sent_each(
    data: PeerDataView,
    peer: Seq<u8>,
    relay_parent: primitives::Hash,
    statements: Seq<SignedFullStatementView>,
) -> Seq<OutgoingView>
    decreases statements.len(),
{
    if statements.len() == 0 {
        Seq::empty()
    } else {
        let before = send_each(data, relay_parent, statements.drop_last());
        let sent = sent_each(data, peer, relay_parent, statements.drop_last());
        if before.send_outcome(relay_parent, statements.last().fingerprint()) is Some {
            sent.push(statement_for(peer, relay_parent, statements.last()))
        } else {
            sent
        }
    }
}

/// Offers each of `statements` to the peer and returns the messages for
/// those it may have.
fn send_all(
    peer: &PeerId,
    peer_data: &mut PeerData,
    relay_parent: &primitives::Hash,
    statements: &Vec<&StoredStatement>,
) -> (messages: Vec<Outgoing>)
    requires
        old(peer_data).wf(),
        forall|i: int| 0 <= i < statements.len() ==> (#[trigger] statements[i]).wf(),
    ensures
        final(peer_data).wf(),
        final(peer_data)@ == send_each(old(peer_data)@, *relay_parent, borrowed_views(statements@)),
        outgoing_views(messages@) == sent_each(
            old(peer_data)@,
            peer@,
            *relay_parent,
            borrowed_views(statements@),
        ),
{
    let mut messages: Vec<Outgoing> = Vec::new();
    let mut i: usize = 0;
    while i < statements.len()
        invariant
            i <= statements.len(),
            peer_data.wf(),
            forall|j: int| 0 <= j < statements.len() ==> (#[trigger] statements[j]).wf(),
            peer_data@ == send_each(
                old(peer_data)@,
                *relay_parent,
                borrowed_views(statements@).subrange(0, i as int),
            ),
            outgoing_views(messages@) == sent_each(
                old(peer_data)@,
                peer@,
                *relay_parent,
                borrowed_views(statements@).subrange(0, i as int),
            ),
        decreases statements.len() - i,
    {
        let statement = statements[i];
        proof {
            let next = borrowed_views(statements@).subrange(0, i + 1);
            assert(next.drop_last() =~= borrowed_views(statements@).subrange(0, i as int));
        }
        if peer_data.send(relay_parent, &statement.fingerprint()).is_some() {
            let payload = encode_statement(relay_parent, statement.statement());
            let mut recipients: Vec<PeerId> = Vec::new();
            recipients.push(peer.duplicate());
            let message = Outgoing::SendMessage(recipients, PROTOCOL_V1, payload);
            proof {
                assert(crate::messages::peer_views(recipients@) =~= seq![peer@]);
            }
            messages.push(message);
        }
        i = i + 1;
    }
    assert(borrowed_views(statements@).subrange(0, i as int) =~= borrowed_views(statements@));
    messages
}

/// Send all statements about a given candidate hash to a peer: each of
/// those we hold that the peer may have, in one message of its own.
pub fn send_statements_about(
    peer: PeerId,
    peer_data: &mut PeerData,
    relay_parent: primitives::Hash,
    candidate_hash: primitives::Hash,
    active_head: &ActiveHeadData,
) -> (messages: Vec<Outgoing>)
    requires
        old(peer_data).wf(),
        active_head.wf(),
    ensures
        final(peer_data).wf(),
        final(peer_data)@ == send_each(
            old(peer_data)@,
            relay_parent,
            active_head@.statements_about(candidate_hash),
        ),
        outgoing_views(messages@) == sent_each(
            old(peer_data)@,
            peer@,
            relay_parent,
            active_head@.statements_about(candidate_hash),
        ),
{
    let statements = active_head.statements_about(candidate_hash);
    send_all(&peer, peer_data, &relay_parent, &statements)
}

/// Send all statements at a given relay-parent to a peer: each of those we
/// hold that the peer may have, in one message of its own. Statements that
/// second a candidate go first, so that the judgements of the candidate can
/// follow.
pub fn send_statements(
    peer: PeerId,
    peer_data: &mut PeerData,
    relay_parent: primitives::Hash,
    active_head: &ActiveHeadData,
) -> (messages: Vec<Outgoing>)
    requires
        old(peer_data).wf(),
        active_head.wf(),
    ensures
        final(peer_data).wf(),
        final(peer_data)@ == send_each(old(peer_data)@, relay_parent, active_head@.statements()),
        outgoing_views(messages@) == sent_each(
            old(peer_data)@,
            peer@,
            relay_parent,
            active_head@.statements(),
        ),
{
    let statements = active_head.statements();
    send_all(&peer, peer_data, &relay_parent, &statements)
}

/// The mathematical content of the table of peers.
#[verifier::ext_equal]
pub struct PeersView {
    /// The peers, in the order in which they connected.
    pub order: Seq<Seq<u8>>,
    /// What we know of each peer.
    pub data: Map<Seq<u8>, PeerDataView>,
}

/// The content of the table of peers.
pub open spec fn peers_view(peers: &Peers) -> PeersView {
    PeersView { order: peers.order(), data: peers@ }
}

impl PeersView {
    /// No peer is listed twice, and the listed peers are those we have data
    /// of.
    pub open spec fn wf(self) -> bool {
        &&& self.order.no_duplicates()
        &&& forall|p: Seq<u8>|
            #![trigger self.order.contains(p)]
            #![trigger self.data.contains_key(p)]
            self.order.contains(p) <==> self.data.contains_key(p)
    }

    /// The table is well-formed, and so are the data of every peer.
    pub open spec fn all_wf(self) -> bool {
        &&& self.wf()
        &&& forall|p: Seq<u8>| #[trigger] self.data.contains_key(p) ==> self.data[p].wf()
    }

    /// The peers that may have the statement, in order.
    pub open spec fn recipients(self, relay_parent: primitives::Hash, fingerprint: Fingerprint)
        -> Seq<Seq<u8>> {
        self.order.filter(
            |p: Seq<u8>| self.data[p].send_outcome(relay_parent, fingerprint) is Some,
        )
    }

    /// The peers that learn of the statement's candidate by it, in order.
    pub open spec fn needing_dependents(
        self,
        relay_parent: primitives::Hash,
        fingerprint: Fingerprint,
    ) -> Seq<Seq<u8>> {
        self.order.filter(
            |p: Seq<u8>| self.data[p].send_outcome(relay_parent, fingerprint) == Some(true),
        )
    }

    /// The table after the statement has been offered to every peer.
    pub open spec fn after_circulate(
        self,
        relay_parent: primitives::Hash,
        fingerprint: Fingerprint,
    ) -> PeersView {
        PeersView {
            data: self.data.map_values(
                |d: PeerDataView| d.after_send(relay_parent, fingerprint),
            ),
            ..self
        }
    }

    /// The one message that carries the statement to all peers that may
    /// have it; none where no peer may.
    pub open spec fn circulated(
        self,
        relay_parent: primitives::Hash,
        statement: SignedFullStatementView,
    ) -> Option<OutgoingView> {
        let recipients = self.recipients(relay_parent, statement.fingerprint());
        if recipients.len() > 0 {
            Some(
                OutgoingView::SendMessage(
                    recipients,
                    PROTOCOL_V1,
                    spec_encode(relay_parent, statement.encoded),
                ),
            )
        } else {
            None
        }
    }
}

/// The content of an optional message.
pub open spec fn optional_view(message: Option<Outgoing>) -> Option<OutgoingView> {
    match message {
        Some(m) => Some(m@),
        None => None,
    }
}

/// Circulates a statement to all peers who have not seen it yet: one
/// message addressed to all of them. Also returns the peers who have learnt
/// of the statement's candidate by it, and so need to have the dependent
/// statements sent.
pub fn circulate_statement(
    peers: &mut Peers,
    relay_parent: primitives::Hash,
    stored: &StoredStatement,
) -> (r: (Option<Outgoing>, Vec<PeerId>))
    requires
        old(peers).wf(),
        stored.wf(),
    ensures
        final(peers).wf(),
        peers_view(final(peers)) == peers_view(old(peers)).after_circulate(
            relay_parent,
            stored@.fingerprint(),
        ),
        optional_view(r.0) == peers_view(old(peers)).circulated(relay_parent, stored@),
        peer_views(r.1@) == peers_view(old(peers)).needing_dependents(
            relay_parent,
            stored@.fingerprint(),
        ),
{
    let fingerprint = stored.fingerprint();
    let ghost initial = peers_view(peers);
    let ghost reached = |p: Seq<u8>|
        initial.data[p].send_outcome(relay_parent, fingerprint) is Some;
    let ghost learnt = |p: Seq<u8>|
        initial.data[p].send_outcome(relay_parent, fingerprint) == Some(true);
    let mut peers_to_send: Vec<PeerId> = Vec::new();
    let mut needing_dependents: Vec<PeerId> = Vec::new();
    let mut i: usize = 0;
    while i < peers.len()
        invariant
            i <= peers.order().len(),
            peers.wf(),
            old(peers).wf(),
            initial == peers_view(old(peers)),
            reached == |p: Seq<u8>|
                initial.data[p].send_outcome(relay_parent, fingerprint) is Some,
            learnt == |p: Seq<u8>|
                initial.data[p].send_outcome(relay_parent, fingerprint) == Some(true),
            peers.order() == initial.order,
            peers.values().len() == old(peers).values().len(),
            forall|j: int|
                0 <= j < i ==> (#[trigger] peers.values()[j])@ == old(
                    peers,
                ).values()[j]@.after_send(relay_parent, fingerprint),
            forall|j: int|
                i <= j < peers.values().len() ==> #[trigger] peers.values()[j] == old(
                    peers,
                ).values()[j],
            peer_views(peers_to_send@) == initial.order.subrange(0, i as int).filter(reached),
            peer_views(needing_dependents@) == initial.order.subrange(0, i as int).filter(learnt),
        decreases peers.order().len() - i,
    {
        proof {
            let done = initial.order.subrange(0, i as int);
            assert(initial.order.subrange(0, i + 1) =~= done.push(initial.order[i as int]));
            lemma_filter_push(done, initial.order[i as int], reached);
            lemma_filter_push(done, initial.order[i as int], learnt);
        }
        let data = peers.value_mut(i);
        let outcome = data.send(&relay_parent, &fingerprint);
        if let Some(new_known) = outcome {
            peers_to_send.push(peers.key_at(i).duplicate());
            if new_known {
                needing_dependents.push(peers.key_at(i).duplicate());
            }
        }
        i = i + 1;
    }
    proof {
        assert(initial.order.subrange(0, i as int) =~= initial.order);
    }
    // Send all these peers the statement.
    let message = if peers_to_send.len() > 0 {
        let payload = encode_statement(&relay_parent, stored.statement());
        Some(Outgoing::SendMessage(peers_to_send, PROTOCOL_V1, payload))
    } else {
        None
    };
    (message, needing_dependents)
}

/// The table of peers after each of `statements` has been offered, at
/// `relay_parent`, to each of the peers in `needing` in turn.
pub open spec fn flush_to(
    peers: PeersView,
    needing: Seq<Seq<u8>>,
    relay_parent: primitives::Hash,
    statements: Seq<SignedFullStatementView>,
) -> PeersView
    decreases needing.len(),
{
    if needing.len() == 0 {
        peers
    } else {
        let before = flush_to(peers, needing.drop_last(), relay_parent, statements);
        let peer = needing.last();
        if before.data.contains_key(peer) {
            PeersView {
                data: before.data.insert(
                    peer,
                    send_each(before.data[peer], relay_parent, statements),
                ),
                ..before
            }
        } else {
            before
        }
    }
}

/// The messages that go out when each of `statements` is offered, at
/// `relay_parent`, to each of the peers in `needing` in turn: all for the
/// first peer, then all for the second, and so on.
pub open spec fn flushed_to(
    peers: PeersView,
    needing: Seq<Seq<u8>>,
    relay_parent: primitives::Hash,
    statements: Seq<SignedFullStatementView>,
) -> Seq<OutgoingView>
    decreases needing.len(),
{
    if needing.len() == 0 {
        Seq::empty()
    } else {
        let before = flush_to(peers, needing.drop_last(), relay_parent, statements);
        let sent = flushed_to(peers, needing.drop_last(), relay_parent, statements);
        let peer = needing.last();
        if before.data.contains_key(peer) {
            sent + sent_each(before.data[peer], peer, relay_parent, statements)
        } else {
            sent
        }
    }
}

/// The list of an optional message.
pub open spec fn optional_seq(message: Option<OutgoingView>) -> Seq<OutgoingView> {
    match message {
        Some(m) => seq![m],
        None => Seq::empty(),
    }
}

/// What sharing a statement leads to.
#[verifier::ext_equal]
pub struct Shared {
    /// The table of peers afterwards.
    pub peers: PeersView,
    /// The active heads afterwards.
    pub heads: Map<primitives::Hash, ActiveHeadView>,
    /// The messages that go out, in order.
    pub messages: Seq<OutgoingView>,
}

/// What `circulate_statement_and_dependents` does.
///
/// Without an active head for the relay-parent nothing happens. Otherwise
/// the statement is noted there. If it is fresh, it is circulated to all
/// peers that may have it, in one message, and then each peer that has
/// learnt of the candidate by it is sent the statements about the candidate
/// that it may now have. A statement that is not fresh is not gossiped.
pub open spec fn share(
    peers: PeersView,
    heads: Map<primitives::Hash, ActiveHeadView>,
    relay_parent: primitives::Hash,
    statement: SignedFullStatementView,
) -> Shared {
    if !heads.contains_key(relay_parent) {
        Shared { peers, heads, messages: Seq::empty() }
    } else {
        let head = heads[relay_parent].after_note(statement);
        let noted = heads.insert(relay_parent, head);
        if heads[relay_parent].note_outcome(statement) is Fresh {
            let fingerprint = statement.fingerprint();
            let circulated = peers.after_circulate(relay_parent, fingerprint);
            let needing = peers.needing_dependents(relay_parent, fingerprint);
            let about = head.statements_about(statement.compact.spec_candidate_hash());
            Shared {
                peers: flush_to(circulated, needing, relay_parent, about),
                heads: noted,
                messages: optional_seq(peers.circulated(relay_parent, statement)) + flushed_to(
                    circulated,
                    needing,
                    relay_parent,
                    about,
                ),
            }
        } else {
            Shared { peers, heads: noted, messages: Seq::empty() }
        }
    }
}

/// Sends the statements about `candidate_hash` to each of the peers in
/// `needing` that is still connected.
fn send_dependents(
    peers: &mut Peers,
    needing: &Vec<PeerId>,
    relay_parent: primitives::Hash,
    candidate_hash: primitives::Hash,
    active_head: &ActiveHeadData,
) -> (messages: Vec<Outgoing>)
    requires
        old(peers).wf(),
        active_head.wf(),
    ensures
        final(peers).wf(),
        peers_view(final(peers)) == flush_to(
            peers_view(old(peers)),
            peer_views(needing@),
            relay_parent,
            active_head@.statements_about(candidate_hash),
        ),
        outgoing_views(messages@) == flushed_to(
            peers_view(old(peers)),
            peer_views(needing@),
            relay_parent,
            active_head@.statements_about(candidate_hash),
        ),
{
    let ghost initial = peers_view(peers);
    let ghost about = active_head@.statements_about(candidate_hash);
    let mut messages: Vec<Outgoing> = Vec::new();
    let mut k: usize = 0;
    while k < needing.len()
        invariant
            k <= needing.len(),
            peers.wf(),
            active_head.wf(),
            initial == peers_view(old(peers)),
            about == active_head@.statements_about(candidate_hash),
            peers_view(peers) == flush_to(
                initial,
                peer_views(needing@).subrange(0, k as int),
                relay_parent,
                about,
            ),
            outgoing_views(messages@) == flushed_to(
                initial,
                peer_views(needing@).subrange(0, k as int),
                relay_parent,
                about,
            ),
        decreases needing.len() - k,
    {
        proof {
            let next = peer_views(needing@).subrange(0, k + 1);
            assert(next.drop_last() =~= peer_views(needing@).subrange(0, k as int));
        }
        let peer = needing[k].duplicate();
        if let Some(j) = peers.index_of(&peer) {
            let peer_data = peers.value_mut(j);
            let more = send_statements_about(
                peer,
                peer_data,
                relay_parent,
                candidate_hash,
                active_head,
            );
            append_outgoing(&mut messages, more);
        }
        k = k + 1;
    }
    assert(peer_views(needing@).subrange(0, k as int) =~= peer_views(needing@));
    messages
}

/// Places the statement in storage if it is new, and then circulates the
/// statement to all peers who have not seen it yet, and sends all
/// statements dependent on that statement to peers who could previously not
/// receive them but now can.
pub fn circulate_statement_and_dependents(
    peers: &mut Peers,
    active_heads: &mut ActiveHeads,
    relay_parent: primitives::Hash,
    statement: SignedFullStatement,
) -> (messages: Vec<Outgoing>)
    requires
        old(peers).wf(),
        old(active_heads).wf(),
    ensures
        final(peers).wf(),
        final(active_heads).wf(),
        final(active_heads).order() == old(active_heads).order(),
        peers_view(final(peers)) == share(
            peers_view(old(peers)),
            old(active_heads)@,
            relay_parent,
            statement@,
        ).peers,
        final(active_heads)@ == share(
            peers_view(old(peers)),
            old(active_heads)@,
            relay_parent,
            statement@,
        ).heads,
        outgoing_views(messages@) == share(
            peers_view(old(peers)),
            old(active_heads)@,
            relay_parent,
            statement@,
        ).messages,
{
    let mut messages: Vec<Outgoing> = Vec::new();
    if let Some(i) = active_heads.index_of(&relay_parent) {
        let active_head = active_heads.value_mut(i);
        // First circulate the statement directly to all peers needing it.
        let outputs = match active_head.note_statement(statement) {
            NotedStatement::Fresh(stored) => Some(
                (
                    *stored.compact().candidate_hash(),
                    circulate_statement(peers, relay_parent, stored),
                ),
            ),
            _ => None,
        };
        // Now send dependent statements to all peers needing them, if any.
        if let Some((candidate_hash, (message, peers_needing_dependents))) = outputs {
            if let Some(message) = message {
                messages.push(message);
            }
            let more = send_dependents(
                peers,
                &peers_needing_dependents,
                relay_parent,
                candidate_hash,
                &*active_head,
            );
            append_outgoing(&mut messages, more);
        }
    }
    messages
}

/// The peer's data after the relay-parents in `added` have come into its
/// view, one after the other: each for which we have an active head is
/// tracked from then on, with nothing known, and all statements of that
/// head are offered to the peer.
pub open spec fn unlock_each(
    data: PeerDataView,
    heads: Map<primitives::Hash, ActiveHeadView>,
    added: Seq<primitives::Hash>,
) -> PeerDataView
    decreases added.len(),
{
    if added.len() == 0 {
        data
    } else {
        let before = unlock_each(data, heads, added.drop_last());
        let relay_parent = added.last();
        if heads.contains_key(relay_parent) {
            send_each(
                before.tracking(relay_parent),
                relay_parent,
                heads[relay_parent].statements(),
            )
        } else {
            before
        }
    }
}

/// The messages that go out as the relay-parents in `added` come into the
/// peer's view.
pub open spec fn unlocked_each(
    data: PeerDataView,
    peer: Seq<u8>,
    heads: Map<primitives::Hash, ActiveHeadView>,
    added: Seq<primitives::Hash>,
) -> Seq<OutgoingView>
    decreases added.len(),
{
    if added.len() == 0 {
        Seq::empty()
    } else {
        let before = unlock_each(data, heads, added.drop_last());
        let sent = unlocked_each(data, peer, heads, added.drop_last());
        let relay_parent = added.last();
        if heads.contains_key(relay_parent) {
            sent + sent_each(
                before.tracking(relay_parent),
                peer,
                relay_parent,
                heads[relay_parent].statements(),
            )
        } else {
            sent
        }
    }
}

/// The peer's data after its view has changed to `new_view`.
pub open spec fn after_view_change(
    data: PeerDataView,
    heads: Map<primitives::Hash, ActiveHeadView>,
    new_view: Seq<primitives::Hash>,
) -> PeerDataView {
    unlock_each(data.with_view(new_view), heads, heads_without(new_view, data.view))
}

/// The messages that go out when the peer's view changes to `new_view`.
pub open spec fn view_change_messages(
    data: PeerDataView,
    peer: Seq<u8>,
    heads: Map<primitives::Hash, ActiveHeadView>,
    new_view: Seq<primitives::Hash>,
) -> Seq<OutgoingView> {
    unlocked_each(data.with_view(new_view), peer, heads, heads_without(new_view, data.view))
}

/// Update a peer's view, and send it all statements that the change
/// unlocks.
///
/// What we knew at relay-parents that have left the view is dropped. Each
/// relay-parent that has come into the view, and for which we have an
/// active head, is tracked from now on, and every statement of that head is
/// sent to the peer, each in a message of its own.
pub fn update_peer_view_and_send_unlocked(
    peer: PeerId,
    peer_data: &mut PeerData,
    active_heads: &ActiveHeads,
    new_view: RelayView,
) -> (messages: Vec<Outgoing>)
    requires
        old(peer_data).wf(),
        active_heads.wf(),
        new_view.wf(),
    ensures
        final(peer_data).wf(),
        final(peer_data)@ == after_view_change(old(peer_data)@, active_heads@, new_view@),
        outgoing_views(messages@) == view_change_messages(
            old(peer_data)@,
            peer@,
            active_heads@,
            new_view@,
        ),
{
    let added = peer_data.change_view(new_view);
    // Add entries for all relay-parents in the new view but not the old, and
    // send all statements we have for those relay-parents.
    let ghost changed = old(peer_data)@.with_view(new_view@);
    let mut messages: Vec<Outgoing> = Vec::new();
    let mut k: usize = 0;
    proof {
        assert forall|j: int| 0 <= j < added.len() implies new_view@.contains(
            #[trigger] added[j],
        ) by {
            assert(added@.contains(added[j]));
            new_view@.lemma_filter_contains_rev(
                |h: primitives::Hash| !old(peer_data)@.view.contains(h),
                added[j],
            );
        }
    }
    while k < added.len()
        invariant
            k <= added.len(),
            peer_data.wf(),
            active_heads.wf(),
            peer_data@.view == new_view@,
            forall|j: int| 0 <= j < added.len() ==> new_view@.contains(#[trigger] added[j]),
            peer_data@ == unlock_each(changed, active_heads@, added@.subrange(0, k as int)),
            outgoing_views(messages@) == unlocked_each(
                changed,
                peer@,
                active_heads@,
                added@.subrange(0, k as int),
            ),
        decreases added.len() - k,
    {
        let new = added[k];
        proof {
            let next = added@.subrange(0, k + 1);
            assert(next.drop_last() =~= added@.subrange(0, k as int));
        }
        if let Some(active_head) = active_heads.get(&new) {
            peer_data.track(new);
            let more = send_statements(peer.duplicate(), peer_data, new, active_head);
            proof {
                lemma_send_each_keeps(
                    unlock_each(
                        changed,
                        active_heads@,
                        added@.subrange(0, k as int),
                    ).tracking(new),
                    new,
                    active_head@.statements(),
                );
            }
            append_outgoing(&mut messages, more);
        }
        k = k + 1;
    }
    assert(added@.subrange(0, k as int) =~= added@);
    messages
}

/// To offer a statement to every peer keeps the table of peers well-formed.
pub proof fn lemma_circulate_keeps_wf(
    peers: PeersView,
    relay_parent: primitives::Hash,
    fingerprint: Fingerprint,
)
    requires
        peers.all_wf(),
    ensures
        peers.after_circulate(relay_parent, fingerprint).all_wf(),
{
}

/// To offer statements to some of the peers keeps the table of peers
/// well-formed.
pub proof fn lemma_flush_keeps_wf(
    peers: PeersView,
    needing: Seq<Seq<u8>>,
    relay_parent: primitives::Hash,
    statements: Seq<SignedFullStatementView>,
)
    requires
        peers.all_wf(),
    ensures
        flush_to(peers, needing, relay_parent, statements).all_wf(),
        flush_to(peers, needing, relay_parent, statements).order == peers.order,
    decreases needing.len(),
{
    if needing.len() > 0 {
        lemma_flush_keeps_wf(peers, needing.drop_last(), relay_parent, statements);
        let before = flush_to(peers, needing.drop_last(), relay_parent, statements);
        let peer = needing.last();
        if before.data.contains_key(peer) {
            lemma_send_each_keeps(before.data[peer], relay_parent, statements);
        }
    }
}

/// The table of peers is well-formed in content when it is so in
/// representation.
pub proof fn lemma_peers_view_wf(peers: &Peers)
    requires
        peers.wf(),
    ensures
        peers_view(peers).all_wf(),
{
    assert forall|p: Seq<u8>| #[trigger] peers@.contains_key(p) implies peers@[p].wf() by {
        let i = peers.order().index_of(p);
        assert(peers.order()[i] == p);
        peers.values()[i].lemma_wf_view();
    }
}

/// A judgement of a candidate is circulated only to peers that are known to
/// be aware of the candidate at the relay-parent.
pub proof fn lemma_recipients_know_candidate(
    peers: PeersView,
    relay_parent: primitives::Hash,
    fingerprint: Fingerprint,
    peer: Seq<u8>,
)
    requires
        peers.wf(),
        !(fingerprint.0 is Candidate),
        peers.recipients(relay_parent, fingerprint).contains(peer),
    ensures
        peers.data.contains_key(peer),
        peers.data[peer].view_knowledge.contains_key(relay_parent),
        peers.data[peer].view_knowledge[relay_parent].known_candidates.contains(
            fingerprint.0.spec_candidate_hash(),
        ),
{
    let reached = |p: Seq<u8>| peers.data[p].send_outcome(relay_parent, fingerprint) is Some;
    peers.order.lemma_filter_contains_rev(reached, peer);
}

/// Offering statements to a peer leaves its view and the relay-parents
/// that we track for it as they are, and so keeps its data well-formed.
pub proof fn lemma_send_each_keeps(
    data: PeerDataView,
    relay_parent: primitives::Hash,
    statements: Seq<SignedFullStatementView>,
)
    ensures
        send_each(data, relay_parent, statements).view == data.view,
        send_each(data, relay_parent, statements).view_knowledge.dom()
            == data.view_knowledge.dom(),
        data.wf() ==> send_each(data, relay_parent, statements).wf(),
    decreases statements.len(),
{
    if statements.len() > 0 {
        lemma_send_each_keeps(data, relay_parent, statements.drop_last());
    }
}

/// A change of a peer's view keeps its data well-formed: afterwards its
/// view is the new one, and what we track for it are relay-parents of that
/// view.
pub proof fn lemma_view_change_keeps_wf(
    data: PeerDataView,
    heads: Map<primitives::Hash, ActiveHeadView>,
    new_view: Seq<primitives::Hash>,
)
    requires
        data.wf(),
        new_view.no_duplicates(),
    ensures
        after_view_change(data, heads, new_view).wf(),
        after_view_change(data, heads, new_view).view == new_view,
{
    let added = heads_without(new_view, data.view);
    assert forall|j: int| 0 <= j < added.len() implies new_view.contains(#[trigger] added[j]) by {
        assert(added.contains(added[j]));
        new_view.lemma_filter_contains_rev(|h: primitives::Hash| !data.view.contains(h), added[j]);
    }
    lemma_unlock_each_keeps_wf(data.with_view(new_view), heads, added);
}

/// Relay-parents of the view that come to be tracked keep a peer's data
/// well-formed.
pub proof fn lemma_unlock_each_keeps_wf(
    data: PeerDataView,
    heads: Map<primitives::Hash, ActiveHeadView>,
    added: Seq<primitives::Hash>,
)
    requires
        data.wf(),
        forall|j: int| 0 <= j < added.len() ==> data.view.contains(#[trigger] added[j]),
    ensures
        unlock_each(data, heads, added).wf(),
        unlock_each(data, heads, added).view == data.view,
    decreases added.len(),
{
    if added.len() > 0 {
        let front = added.drop_last();
        lemma_unlock_each_keeps_wf(data, heads, front);
        let before = unlock_each(data, heads, front);
        let relay_parent = added.last();
        if heads.contains_key(relay_parent) {
            lemma_send_each_keeps(
                before.tracking(relay_parent),
                relay_parent,
                heads[relay_parent].statements(),
            );
        }
    }
}

} // verus!
