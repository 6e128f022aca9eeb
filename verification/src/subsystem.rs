//! The subsystem as a whole: its state, and what each signal and message
//! does to it.
//!
//! The subsystem does no input or output of its own. Whoever drives it
//! hands it one event at a time and carries out the messages it returns, in
//! order.

use crate::active_head::{ActiveHeadData, ActiveHeadView};
use crate::collections::{lemma_with, lemma_without, without, VecMap};
use crate::gossip::{
    after_view_change, circulate_statement_and_dependents, lemma_flush_keeps_wf,
    lemma_peers_view_wf, lemma_send_each_keeps, lemma_view_change_keeps_wf, peers_view, share,
    update_peer_view_and_send_unlocked, view_change_messages, ActiveHeads, Peers, PeersView,
};
use crate::ingress::{handle_incoming_message, incoming, message_view};
use crate::knowledge::{PeerData, PeerDataView};
use crate::messages::{outgoing_views, Outgoing, OutgoingView};
use crate::primitives::{
    self, PeerId, SessionIndex, SignedFullStatement, SignedFullStatementView, SigningContext,
    ValidatorId,
};
use crate::relay_view::RelayView;
use crate::wire::{WireMessage, PROTOCOL_V1};
use vstd::prelude::*;

verus! {

/// The mathematical content of a [`NetworkBridgeEvent`].
pub enum NetworkBridgeEventView {
    PeerConnected(Seq<u8>),
    PeerDisconnected(Seq<u8>),
    PeerMessage(Seq<u8>, Option<(primitives::Hash, SignedFullStatementView)>, bool),
    PeerViewChange(Seq<u8>, Seq<primitives::Hash>),
    OurViewChange(Seq<primitives::Hash>),
}

/// What the network bridge tells the subsystem.
pub enum NetworkBridgeEvent {
    /// A peer has connected.
    PeerConnected(PeerId),
    /// A peer has disconnected.
    PeerDisconnected(PeerId),
    /// A peer has sent a message of the protocol: the decoded message,
    /// `None` where the bytes could not be decoded, and whether the
    /// statement's signature verifies for what `signature_request` names.
    PeerMessage(PeerId, Option<WireMessage>, bool),
    /// A peer's view has changed.
    PeerViewChange(PeerId, RelayView),
    /// Our own view has changed.
    OurViewChange(RelayView),
}

impl View for NetworkBridgeEvent {
    type V = NetworkBridgeEventView;

    open spec fn view(&self) -> NetworkBridgeEventView {
        match *self {
            NetworkBridgeEvent::PeerConnected(peer) => NetworkBridgeEventView::PeerConnected(peer@),
            NetworkBridgeEvent::PeerDisconnected(peer) => NetworkBridgeEventView::PeerDisconnected(
                peer@,
            ),
            NetworkBridgeEvent::PeerMessage(peer, message, signature_verifies) =>
                NetworkBridgeEventView::PeerMessage(
                peer@,
                message_view(message),
                signature_verifies,
            ),
            NetworkBridgeEvent::PeerViewChange(peer, view) =>
                NetworkBridgeEventView::PeerViewChange(peer@, view@),
            NetworkBridgeEvent::OurViewChange(view) => NetworkBridgeEventView::OurViewChange(view@),
        }
    }
}

impl NetworkBridgeEvent {
    /// The views that the event carries are soundly represented.
    pub open spec fn wf(&self) -> bool {
        match *self {
            NetworkBridgeEvent::PeerViewChange(_, view) => view.wf(),
            NetworkBridgeEvent::OurViewChange(view) => view.wf(),
            _ => true,
        }
    }
}

/// The mathematical content of the subsystem's state.
#[verifier::ext_equal]
pub struct StateView {
    /// The connected peers.
    pub peers: PeersView,
    /// What we hold for each relay-parent that we work on.
    pub heads: Map<primitives::Hash, ActiveHeadView>,
    /// The relay-parents that we care about.
    pub our_view: Seq<primitives::Hash>,
}

/// A state with the messages that led to it.
#[verifier::ext_equal]
pub struct Outcome {
    pub state: StateView,
    pub messages: Seq<OutgoingView>,
}

impl StateView {
    /// The state of a subsystem that has just started.
    pub open spec fn initial() -> StateView {
        StateView {
            peers: PeersView { order: Seq::empty(), data: Map::empty() },
            heads: Map::empty(),
            our_view: Seq::empty(),
        }
    }

    /// The state with the data of one peer replaced.
    pub open spec fn with_peer(self, peer: Seq<u8>, data: PeerDataView) -> StateView {
        StateView {
            peers: PeersView { data: self.peers.data.insert(peer, data), ..self.peers },
            ..self
        }
    }

    /// What a message from a connected peer leads to: what
    /// `handle_incoming_message` does, and then a statement that is new to
    /// us goes on to candidate backing.
    pub open spec fn peer_message(
        self,
        peer: Seq<u8>,
        message: Option<(primitives::Hash, SignedFullStatementView)>,
        signature_verifies: bool,
    ) -> Outcome {
        let handled = incoming(
            self.peers.data[peer],
            peer,
            self.our_view,
            self.heads,
            message,
            signature_verifies,
        );
        Outcome {
            state: StateView { heads: handled.heads, ..self.with_peer(peer, handled.data) },
            messages: match handled.fresh {
                Some((relay_parent, statement)) => handled.messages.push(
                    OutgoingView::Statement(relay_parent, statement),
                ),
                None => handled.messages,
            },
        }
    }

    /// What `handle_network_update` does.
    ///
    /// A peer that connects starts with empty data; one that disconnects is
    /// forgotten. Messages and view changes of peers that are not connected
    /// are ignored. When our own view changes, the active heads outside the
    /// new view are dropped.
    pub open spec fn network_update(self, update: NetworkBridgeEventView) -> Outcome {
        match update {
            NetworkBridgeEventView::PeerConnected(peer) => Outcome {
                state: StateView {
                    peers: PeersView {
                        order: if self.peers.data.contains_key(peer) {
                            self.peers.order
                        } else {
                            self.peers.order.push(peer)
                        },
                        data: self.peers.data.insert(peer, PeerDataView::empty()),
                    },
                    ..self
                },
                messages: Seq::empty(),
            },
            NetworkBridgeEventView::PeerDisconnected(peer) => Outcome {
                state: StateView {
                    peers: PeersView {
                        order: without(self.peers.order, peer),
                        data: self.peers.data.remove(peer),
                    },
                    ..self
                },
                messages: Seq::empty(),
            },
            NetworkBridgeEventView::PeerMessage(peer, message, signature_verifies) => {
                if self.peers.data.contains_key(peer) {
                    self.peer_message(peer, message, signature_verifies)
                } else {
                    Outcome { state: self, messages: Seq::empty() }
                }
            },
            NetworkBridgeEventView::PeerViewChange(peer, view) => {
                if self.peers.data.contains_key(peer) {
                    Outcome {
                        state: self.with_peer(
                            peer,
                            after_view_change(self.peers.data[peer], self.heads, view),
                        ),
                        messages: view_change_messages(
                            self.peers.data[peer],
                            peer,
                            self.heads,
                            view,
                        ),
                    }
                } else {
                    Outcome { state: self, messages: Seq::empty() }
                }
            },
            NetworkBridgeEventView::OurViewChange(view) => Outcome {
                state: StateView {
                    our_view: view,
                    heads: self.heads.restrict(view.to_set()),
                    ..self
                },
                messages: Seq::empty(),
            },
        }
    }
}

/// Drops the active heads whose relay-parent is not in `view`.
fn retain_heads(active_heads: &mut ActiveHeads, view: &RelayView)
    requires
        old(active_heads).wf(),
    ensures
        final(active_heads).wf(),
        final(active_heads)@ == old(active_heads)@.restrict(view@.to_set()),
{
    let mut i: usize = 0;
    while i < active_heads.len()
        invariant
            i <= active_heads.order().len(),
            active_heads.wf(),
            forall|k: primitives::Hash| #[trigger]
                active_heads@.contains_key(k) ==> old(active_heads)@.contains_key(k) && old(
                    active_heads,
                )@[k] == active_heads@[k],
            forall|k: primitives::Hash|
                old(active_heads)@.contains_key(k) && view@.contains(k)
                    ==> #[trigger] active_heads@.contains_key(k),
            forall|j: int| 0 <= j < i ==> view@.contains(#[trigger] active_heads.order()[j]),
        decreases active_heads.order().len() - i,
    {
        if view.contains(active_heads.key_at(i)) {
            i = i + 1;
        } else {
            let _ = active_heads.remove_at(i);
        }
    }
}

/// What the subsystem does on an update from the network bridge.
pub fn handle_network_update(
    peers: &mut Peers,
    active_heads: &mut ActiveHeads,
    our_view: &mut RelayView,
    update: NetworkBridgeEvent,
) -> (messages: Vec<Outgoing>)
    requires
        old(peers).wf(),
        old(active_heads).wf(),
        old(our_view).wf(),
        update.wf(),
    ensures
        final(peers).wf(),
        final(active_heads).wf(),
        final(our_view).wf(),
        state_view(final(peers), final(active_heads), final(our_view)) == state_view(
            old(peers),
            old(active_heads),
            old(our_view),
        ).network_update(update@).state,
        outgoing_views(messages@) == state_view(
            old(peers),
            old(active_heads),
            old(our_view),
        ).network_update(update@).messages,
{
    match update {
        NetworkBridgeEvent::PeerConnected(peer) => {
            peers.insert(peer, PeerData::default());
            Vec::new()
        },
        NetworkBridgeEvent::PeerDisconnected(peer) => {
            let _ = peers.remove(&peer);
            Vec::new()
        },
        NetworkBridgeEvent::PeerMessage(peer, message, signature_verifies) => {
            match peers.index_of(&peer) {
                Some(i) => {
                    let data = peers.value_mut(i);
                    let (mut messages, new_stored) = handle_incoming_message(
                        peer,
                        data,
                        &*our_view,
                        active_heads,
                        message,
                        signature_verifies,
                    );
                    if let Some((relay_parent, new)) = new_stored {
                        // A statement that is new to us goes on to candidate
                        // backing.
                        let forwarded = Outgoing::Statement(
                            relay_parent,
                            new.statement().duplicate(),
                        );
                        messages.push(forwarded);
                    }
                    messages
                },
                None => Vec::new(),
            }
        },
        NetworkBridgeEvent::PeerViewChange(peer, view) => {
            match peers.index_of(&peer) {
                Some(i) => {
                    let data = peers.value_mut(i);
                    let messages = update_peer_view_and_send_unlocked(
                        peer,
                        data,
                        &*active_heads,
                        view,
                    );
                    messages
                },
                None => Vec::new(),
            }
        },
        NetworkBridgeEvent::OurViewChange(view) => {
            *our_view = view;
            retain_heads(active_heads, &*our_view);
            Vec::new()
        },
    }
}

/// The content of the three parts of the subsystem's state.
pub open spec fn state_view(peers: &Peers, active_heads: &ActiveHeads, our_view: &RelayView)
    -> StateView {
    StateView { peers: peers_view(peers), heads: active_heads@, our_view: our_view@ }
}

/// The mathematical content of an [`Event`].
pub enum EventView {
    StartWork(primitives::Hash),
    WorkStarted(primitives::Hash, Seq<ValidatorId>, SessionIndex),
    StopWork(primitives::Hash),
    Conclude,
    Share(primitives::Hash, SignedFullStatementView),
    NetworkBridgeUpdate(NetworkBridgeEventView),
}

/// What the subsystem is driven by: the overseer's signals, the messages
/// addressed to the subsystem, and the answer to what it asked of the
/// runtime API.
pub enum Event {
    /// Signal: work on the relay-parent starts.
    StartWork(primitives::Hash),
    /// The runtime API has answered what `StartWork` asked: the validators
    /// and the session at the relay-parent.
    WorkStarted(primitives::Hash, Vec<ValidatorId>, SessionIndex),
    /// Signal: work on the relay-parent stops.
    StopWork(primitives::Hash),
    /// Signal: the subsystem is to end.
    Conclude,
    /// A statement of our own, to be shared with the peers.
    Share(primitives::Hash, SignedFullStatement),
    /// An update from the network bridge.
    NetworkBridgeUpdate(NetworkBridgeEvent),
}

impl View for Event {
    type V = EventView;

    open spec fn view(&self) -> EventView {
        match *self {
            Event::StartWork(relay_parent) => EventView::StartWork(relay_parent),
            Event::WorkStarted(relay_parent, validators, session_index) => EventView::WorkStarted(
                relay_parent,
                validators@,
                session_index,
            ),
            Event::StopWork(relay_parent) => EventView::StopWork(relay_parent),
            Event::Conclude => EventView::Conclude,
            Event::Share(relay_parent, statement) => EventView::Share(relay_parent, statement@),
            Event::NetworkBridgeUpdate(update) => EventView::NetworkBridgeUpdate(update@),
        }
    }
}

impl Event {
    /// The views that the event carries are soundly represented.
    pub open spec fn wf(&self) -> bool {
        match *self {
            Event::NetworkBridgeUpdate(update) => update.wf(),
            _ => true,
        }
    }
}

impl StateView {
    /// What one event does.
    ///
    /// When work starts on a relay-parent, the runtime API is asked for the
    /// validators and for the signing context there. When it has answered,
    /// an active head is set up, unless there is one already. That work
    /// stops changes nothing: the head goes when it leaves our view. A
    /// statement of our own is circulated with its dependents.
    pub open spec fn step(self, event: EventView) -> Outcome {
        match event {
            EventView::StartWork(relay_parent) => Outcome {
                state: self,
                messages: seq![
                    OutgoingView::RequestValidators(relay_parent),
                    OutgoingView::RequestSigningContext(relay_parent),
                ],
            },
            EventView::WorkStarted(relay_parent, validators, session_index) => Outcome {
                state: StateView {
                    heads: if self.heads.contains_key(relay_parent) {
                        self.heads
                    } else {
                        self.heads.insert(
                            relay_parent,
                            ActiveHeadView::new(validators, session_index),
                        )
                    },
                    ..self
                },
                messages: Seq::empty(),
            },
            EventView::StopWork(_) => Outcome { state: self, messages: Seq::empty() },
            EventView::Conclude => Outcome { state: self, messages: Seq::empty() },
            EventView::Share(relay_parent, statement) => {
                let shared = share(self.peers, self.heads, relay_parent, statement);
                Outcome {
                    state: StateView { peers: shared.peers, heads: shared.heads, ..self },
                    messages: shared.messages,
                }
            },
            EventView::NetworkBridgeUpdate(update) => self.network_update(update),
        }
    }

    /// Every active head is well-formed: in particular none counts a
    /// validator beyond the threshold.
    pub open spec fn heads_wf(self) -> bool {
        forall|h: primitives::Hash| #[trigger]
            self.heads.contains_key(h) ==> self.heads[h].wf()
    }
}

/// The statement distribution subsystem.
pub struct StatementDistribution {
    peers: Peers,
    active_heads: ActiveHeads,
    our_view: RelayView,
}

impl View for StatementDistribution {
    type V = StateView;

    closed spec fn view(&self) -> StateView {
        state_view(&self.peers, &self.active_heads, &self.our_view)
    }
}

impl StatementDistribution {
    /// The representation is sound, here and in every part.
    pub closed spec fn wf(&self) -> bool {
        &&& self.peers.wf()
        &&& self.active_heads.wf()
        &&& self.our_view.wf()
    }

    /// The content of a well-formed subsystem is well-formed.
    pub proof fn lemma_wf_view(&self)
        requires
            self.wf(),
        ensures
            self@.wf(),
    {
        lemma_peers_view_wf(&self.peers);
        self.our_view.lemma_distinct();
        assert forall|h: primitives::Hash| #[trigger] self@.heads.contains_key(h) implies
            self@.heads[h].wf() by {
            let i = self.active_heads.order().index_of(h);
            assert(self.active_heads.order()[i] == h);
            self.active_heads.values()[i].lemma_wf_view();
        }
    }

    /// A subsystem without peers, active heads or view.
    pub fn new() -> (s: StatementDistribution)
        ensures
            s.wf(),
            s@ == StateView::initial(),
    {
        StatementDistribution {
            peers: VecMap::new(),
            active_heads: VecMap::new(),
            our_view: RelayView::default(),
        }
    }

    /// What goes out when the subsystem starts: the protocol is registered
    /// with the network bridge.
    pub fn start(&self) -> (messages: Vec<Outgoing>)
        ensures
            outgoing_views(messages@) == seq![OutgoingView::RegisterEventProducer(PROTOCOL_V1)],
    {
        let mut messages: Vec<Outgoing> = Vec::new();
        messages.push(Outgoing::RegisterEventProducer(PROTOCOL_V1));
        messages
    }

    /// One turn of the subsystem's loop: takes the event, changes the
    /// state, and returns the messages that go out, in order, and whether
    /// the subsystem has been told to conclude.
    pub fn step(&mut self, event: Event) -> (r: (Vec<Outgoing>, bool))
        requires
            old(self).wf(),
            event.wf(),
        ensures
            final(self).wf(),
            final(self)@ == old(self)@.step(event@).state,
            outgoing_views(r.0@) == old(self)@.step(event@).messages,
            r.1 == (event@ is Conclude),
    {
        match event {
            Event::StartWork(relay_parent) => {
                let mut messages: Vec<Outgoing> = Vec::new();
                messages.push(Outgoing::RequestValidators(relay_parent));
                messages.push(Outgoing::RequestSigningContext(relay_parent));
                (messages, false)
            },
            Event::WorkStarted(relay_parent, validators, session_index) => {
                if !self.active_heads.contains_key(&relay_parent) {
                    self.active_heads.insert(
                        relay_parent,
                        ActiveHeadData::new(validators, session_index),
                    );
                }
                (Vec::new(), false)
            },
            Event::StopWork(_relay_parent) => {
                // Nothing to do: the head goes when our view changes.
                (Vec::new(), false)
            },
            Event::Conclude => (Vec::new(), true),
            Event::Share(relay_parent, statement) => {
                let messages = circulate_statement_and_dependents(
                    &mut self.peers,
                    &mut self.active_heads,
                    relay_parent,
                    statement,
                );
                (messages, false)
            },
            Event::NetworkBridgeUpdate(update) => {
                let messages = handle_network_update(
                    &mut self.peers,
                    &mut self.active_heads,
                    &mut self.our_view,
                    update,
                );
                (messages, false)
            },
        }
    }

    /// The relay-parents that we care about.
    pub fn our_view(&self) -> (v: &RelayView)
        requires
            self.wf(),
        ensures
            v.wf(),
            v@ == self@.our_view,
    {
        &self.our_view
    }

    /// The connected peers.
    pub fn peers(&self) -> (p: &Peers)
        requires
            self.wf(),
        ensures
            p.wf(),
            peers_view(p) == self@.peers,
    {
        &self.peers
    }

    /// The relay-parents that we work on.
    pub fn active_heads(&self) -> (h: &ActiveHeads)
        requires
            self.wf(),
        ensures
            h.wf(),
            h@ == self@.heads,
    {
        &self.active_heads
    }

    /// What has to be verified of the signature of the message's statement:
    /// the key of the validator that it names and the signing context of
    /// its head. `None` where we have no active head for the relay-parent
    /// or the head has no such validator.
    pub fn signature_request(&self, message: &WireMessage) -> (r: Option<
        (ValidatorId, SigningContext),
    >)
        requires
            self.wf(),
        ensures
            r == (if self@.heads.contains_key(message@.0) {
                crate::ingress::spec_signature_request(
                    self@.heads[message@.0],
                    message@.0,
                    message@.1,
                )
            } else {
                None
            }),
    {
        match message {
            WireMessage::Statement(relay_parent, statement) => {
                match self.active_heads.get(relay_parent) {
                    Some(head) => crate::ingress::signature_request(
                        head,
                        *relay_parent,
                        statement,
                    ),
                    None => None,
                }
            },
        }
    }
}

impl StateView {
    /// The table of peers is well-formed with the data of every peer, every
    /// active head is well-formed, and our view holds no relay-parent
    /// twice.
    pub open spec fn wf(self) -> bool {
        &&& self.peers.all_wf()
        &&& self.heads_wf()
        &&& self.our_view.no_duplicates()
    }
}

impl NetworkBridgeEventView {
    /// The views that the event carries hold no relay-parent twice.
    pub open spec fn wf(self) -> bool {
        match self {
            NetworkBridgeEventView::PeerViewChange(_, view) => view.no_duplicates(),
            NetworkBridgeEventView::OurViewChange(view) => view.no_duplicates(),
            _ => true,
        }
    }
}

impl EventView {
    /// The views that the event carries hold no relay-parent twice.
    pub open spec fn wf(self) -> bool {
        match self {
            EventView::NetworkBridgeUpdate(update) => update.wf(),
            _ => true,
        }
    }
}

/// A message from a peer keeps the peer's data well-formed.
pub proof fn lemma_incoming_keeps_wf(
    data: PeerDataView,
    peer: Seq<u8>,
    our_view: Seq<primitives::Hash>,
    heads: Map<primitives::Hash, ActiveHeadView>,
    message: Option<(primitives::Hash, SignedFullStatementView)>,
    signature_verifies: bool,
)
    requires
        data.wf(),
    ensures
        incoming(data, peer, our_view, heads, message, signature_verifies).data.wf(),
{
    if let Some((relay_parent, statement)) = message {
        if heads.contains_key(relay_parent) {
            let head = heads[relay_parent];
            let fingerprint = statement.fingerprint();
            let bound = crate::ingress::spec_max_message_count(head.validators.len());
            lemma_send_each_keeps(
                data.after_receive(relay_parent, fingerprint, bound),
                relay_parent,
                head.statements_about(statement.compact.spec_candidate_hash()),
            );
        }
    }
}

/// The subsystem starts in a well-formed state, and every event leaves it
/// in one: no peer is listed twice, what we track for a peer are
/// relay-parents of its view, and every active head is well-formed.
pub proof fn lemma_state_stays_wf(state: StateView, event: EventView)
    requires
        state.wf(),
        event.wf(),
    ensures
        StateView::initial().wf(),
        state.step(event).state.wf(),
{
    match event {
        EventView::Share(relay_parent, statement) => {
            if state.heads.contains_key(relay_parent) && state.heads[relay_parent].note_outcome(
                statement,
            ) is Fresh {
                let fingerprint = statement.fingerprint();
                lemma_flush_keeps_wf(
                    state.peers.after_circulate(relay_parent, fingerprint),
                    state.peers.needing_dependents(relay_parent, fingerprint),
                    relay_parent,
                    state.heads[relay_parent].after_note(statement).statements_about(
                        statement.compact.spec_candidate_hash(),
                    ),
                );
            }
        },
        EventView::NetworkBridgeUpdate(update) => {
            match update {
                NetworkBridgeEventView::PeerConnected(peer) => {
                    if !state.peers.data.contains_key(peer) {
                        lemma_with(state.peers.order, peer);
                    }
                },
                NetworkBridgeEventView::PeerDisconnected(peer) => {
                    lemma_without(state.peers.order, peer);
                },
                NetworkBridgeEventView::PeerMessage(peer, message, signature_verifies) => {
                    if state.peers.data.contains_key(peer) {
                        lemma_incoming_keeps_wf(
                            state.peers.data[peer],
                            peer,
                            state.our_view,
                            state.heads,
                            message,
                            signature_verifies,
                        );
                    }
                },
                NetworkBridgeEventView::PeerViewChange(peer, view) => {
                    if state.peers.data.contains_key(peer) {
                        lemma_view_change_keeps_wf(state.peers.data[peer], state.heads, view);
                    }
                },
                NetworkBridgeEventView::OurViewChange(view) => {},
            }
        },
        _ => {},
    }
}

/// The subsystem starts without active heads, and every event leaves every
/// active head well-formed. So at every moment, at every active head, no
/// validator is counted with more seconding statements than the threshold
/// allows.
pub proof fn lemma_heads_stay_wf(state: StateView, event: EventView)
    requires
        state.heads_wf(),
    ensures
        StateView::initial().heads_wf(),
        state.step(event).state.heads_wf(),
        forall|h: primitives::Hash, v: primitives::ValidatorIndex|
            state.step(event).state.heads.contains_key(h) ==> #[trigger] state.step(
                event,
            ).state.heads[h].seconded_count(v) <= primitives::VC_THRESHOLD,
{
}

/// When a relay-parent leaves our view, what we hold for it is gone with
/// that change of our view.
pub proof fn lemma_our_view_change_purges(
    state: StateView,
    new_view: Seq<primitives::Hash>,
    relay_parent: primitives::Hash,
)
    requires
        !new_view.contains(relay_parent),
    ensures
        ({
            let changed = state.network_update(
                NetworkBridgeEventView::OurViewChange(new_view),
            ).state;
            &&& !changed.heads.contains_key(relay_parent)
            &&& changed.our_view == new_view
            &&& changed.peers == state.peers
        }),
{
}

/// While a relay-parent is outside our view, a statement that a connected
/// peer sends for it costs the peer an unexpected statement, and changes
/// nothing.
pub proof fn lemma_statement_outside_view_is_unexpected(
    state: StateView,
    peer: Seq<u8>,
    relay_parent: primitives::Hash,
    statement: SignedFullStatementView,
    signature_verifies: bool,
)
    requires
        !state.our_view.contains(relay_parent),
        state.peers.data.contains_key(peer),
    ensures
        state.network_update(
            NetworkBridgeEventView::PeerMessage(
                peer,
                Some((relay_parent, statement)),
                signature_verifies,
            ),
        ) == (Outcome {
            state,
            messages: seq![OutgoingView::ReportPeer(peer, primitives::Rep::UnexpectedStatement)],
        }),
{
    let after = state.network_update(
        NetworkBridgeEventView::PeerMessage(
            peer,
            Some((relay_parent, statement)),
            signature_verifies,
        ),
    );
    assert(state.peers.data.insert(peer, state.peers.data[peer]) =~= state.peers.data);
    assert(after.state =~~= state);
}

/// Both together: after our view has changed to one without the
/// relay-parent, the active head is gone, and a statement that a connected
/// peer then sends for the relay-parent costs it an unexpected statement.
pub proof fn lemma_dropped_relay_parent(
    state: StateView,
    new_view: Seq<primitives::Hash>,
    peer: Seq<u8>,
    relay_parent: primitives::Hash,
    statement: SignedFullStatementView,
    signature_verifies: bool,
)
    requires
        !new_view.contains(relay_parent),
        state.peers.data.contains_key(peer),
    ensures
        ({
            let changed = state.step(
                EventView::NetworkBridgeUpdate(NetworkBridgeEventView::OurViewChange(new_view)),
            ).state;
            &&& !changed.heads.contains_key(relay_parent)
            &&& changed.step(
                EventView::NetworkBridgeUpdate(
                    NetworkBridgeEventView::PeerMessage(
                        peer,
                        Some((relay_parent, statement)),
                        signature_verifies,
                    ),
                ),
            ) == (Outcome {
                state: changed,
                messages: seq![
                    OutgoingView::ReportPeer(peer, primitives::Rep::UnexpectedStatement),
                ],
            })
        }),
{
    let changed = state.network_update(NetworkBridgeEventView::OurViewChange(new_view)).state;
    lemma_our_view_change_purges(state, new_view, relay_parent);
    lemma_statement_outside_view_is_unexpected(
        changed,
        peer,
        relay_parent,
        statement,
        signature_verifies,
    );
}

} // verus!
