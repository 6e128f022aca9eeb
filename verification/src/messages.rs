//! The messages that the subsystem hands to the rest of the node.

use crate::primitives::{self, PeerId, Rep, SignedFullStatement, SignedFullStatementView};
use vstd::prelude::*;

verus! {

/// The name of a protocol on the network.
pub type ProtocolId = [u8; 4];

/// The mathematical content of an [`Outgoing`] message.
pub enum OutgoingView {
    RegisterEventProducer(ProtocolId),
    SendMessage(Seq<Seq<u8>>, ProtocolId, Seq<u8>),
    ReportPeer(Seq<u8>, Rep),
    Statement(primitives::Hash, SignedFullStatementView),
    RequestValidators(primitives::Hash),
    RequestSigningContext(primitives::Hash),
}

/// A message from the subsystem to one of its collaborators.
#[derive(Debug, PartialEq, Eq)]
pub enum Outgoing {
    /// To the network bridge: route the messages of the named protocol to
    /// this subsystem.
    RegisterEventProducer(ProtocolId),
    /// To the network bridge: send the payload, under the protocol's name,
    /// to the given peers.
    SendMessage(Vec<PeerId>, ProtocolId, Vec<u8>),
    /// To the network bridge: change the peer's reputation.
    ReportPeer(PeerId, Rep),
    /// To candidate backing: a statement that a peer was the first to bring.
    Statement(primitives::Hash, SignedFullStatement),
    /// To the runtime API: the validators at the relay-parent.
    RequestValidators(primitives::Hash),
    /// To the runtime API: the signing context at the relay-parent.
    RequestSigningContext(primitives::Hash),
}

/// The contents of a list of peers.
pub open spec fn peer_views(peers: Seq<PeerId>) -> Seq<Seq<u8>> {
    peers.map_values(|p: PeerId| p@)
}

impl View for Outgoing {
    type V = OutgoingView;

    open spec fn view(&self) -> OutgoingView {
        match *self {
            Outgoing::RegisterEventProducer(protocol) => OutgoingView::RegisterEventProducer(
                protocol,
            ),
            Outgoing::SendMessage(recipients, protocol, payload) => OutgoingView::SendMessage(
                peer_views(recipients@),
                protocol,
                payload@,
            ),
            Outgoing::ReportPeer(peer, rep) => OutgoingView::ReportPeer(peer@, rep),
            Outgoing::Statement(relay_parent, statement) => OutgoingView::Statement(
                relay_parent,
                statement@,
            ),
            Outgoing::RequestValidators(relay_parent) => OutgoingView::RequestValidators(
                relay_parent,
            ),
            Outgoing::RequestSigningContext(relay_parent) => OutgoingView::RequestSigningContext(
                relay_parent,
            ),
        }
    }
}

/// The contents of a list of messages.
pub open spec fn outgoing_views(messages: Seq<Outgoing>) -> Seq<OutgoingView> {
    messages.map_values(|m: Outgoing| m@)
}

/// Appends the messages of `more` to `messages`.
pub fn append_outgoing(messages: &mut Vec<Outgoing>, more: Vec<Outgoing>)
    ensures
        outgoing_views(final(messages)@) == outgoing_views(old(messages)@) + outgoing_views(more@),
{
    let mut more = more;
    messages.append(&mut more);
}

} // verus!
