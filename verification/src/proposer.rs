//! The decisions of block proposal: the provisioner is asked for its
//! inherent data as soon as the parent is known, its answer is merged into
//! the inherent data, the block builder runs, and the whole is raced
//! against a fixed timeout.
//!
//! The proposer does no waiting of its own. Whoever drives it asks the
//! provisioner, runs the block builder and the clock, and hands over what
//! happens, one event at a time.

use crate::primitives;
use vstd::prelude::*;

verus! {

/// How long, in seconds, a proposal can take before we give up and err out.
pub const PROPOSE_TIMEOUT_SECS: u64 = 2;

/// The mathematical content of an [`Error`].
pub enum ErrorView {
    Consensus(Seq<char>),
    Blockchain(Seq<char>),
    Inherent(Seq<char>),
    Timeout,
    ClosedChannelFromProvisioner,
}

/// Why a proposal failed.
#[derive(Debug, PartialEq, Eq)]
pub enum Error {
    /// The block builder failed for a reason of consensus.
    Consensus(String),
    /// The block builder failed for a reason of the blockchain.
    Blockchain(String),
    /// The provisioner's data could not be merged into the inherent data.
    Inherent(String),
    /// The timeout came before the proposal.
    Timeout,
    /// The provisioner dropped the channel on which its data was awaited.
    ClosedChannelFromProvisioner,
}

impl View for Error {
    type V = ErrorView;

    open spec fn view(&self) -> ErrorView {
        match *self {
            Error::Consensus(e) => ErrorView::Consensus(e@),
            Error::Blockchain(e) => ErrorView::Blockchain(e@),
            Error::Inherent(e) => ErrorView::Inherent(e@),
            Error::Timeout => ErrorView::Timeout,
            Error::ClosedChannelFromProvisioner => ErrorView::ClosedChannelFromProvisioner,
        }
    }
}

/// How far a proposal has come.
#[derive(Clone, Copy, Debug, PartialEq, Eq, Structural)]
pub enum Stage {
    /// The provisioner has been asked and has not answered.
    AwaitingInherentData,
    /// The provisioner's data is being merged and the block built.
    Building,
    /// The proposal has ended, well or badly.
    Finished,
}

/// The mathematical content of a [`ProposerEvent`].
pub enum ProposerEventView {
    InherentData(Seq<u8>),
    ProvisionerClosed,
    InherentRejected(Seq<char>),
    Proposed,
    ConsensusFailed(Seq<char>),
    BlockchainFailed(Seq<char>),
    TimedOut,
}

/// What can happen to a proposal under way.
#[derive(Debug, PartialEq, Eq)]
pub enum ProposerEvent {
    /// The provisioner has answered with its inherent data.
    InherentData(Vec<u8>),
    /// The provisioner has dropped the channel.
    ProvisionerClosed,
    /// The provisioner's data could not be put into the inherent data.
    InherentRejected(String),
    /// The block builder has made its proposal.
    Proposed,
    /// The block builder has failed for a reason of consensus.
    ConsensusFailed(String),
    /// The block builder has failed for a reason of the blockchain.
    BlockchainFailed(String),
    /// The timeout has passed.
    TimedOut,
}

impl View for ProposerEvent {
    type V = ProposerEventView;

    open spec fn view(&self) -> ProposerEventView {
        match *self {
            ProposerEvent::InherentData(data) => ProposerEventView::InherentData(data@),
            ProposerEvent::ProvisionerClosed => ProposerEventView::ProvisionerClosed,
            ProposerEvent::InherentRejected(e) => ProposerEventView::InherentRejected(e@),
            ProposerEvent::Proposed => ProposerEventView::Proposed,
            ProposerEvent::ConsensusFailed(e) => ProposerEventView::ConsensusFailed(e@),
            ProposerEvent::BlockchainFailed(e) => ProposerEventView::BlockchainFailed(e@),
            ProposerEvent::TimedOut => ProposerEventView::TimedOut,
        }
    }
}

/// The mathematical content of a [`ProposerAction`].
pub enum ProposerActionView {
    RequestInherentData(primitives::Hash),
    Wait,
    Build(Seq<u8>),
    Succeed,
    Fail(ErrorView),
}

/// What is to be done for a proposal after an event.
#[derive(Debug, PartialEq, Eq)]
pub enum ProposerAction {
    /// Ask the provisioner for its inherent data on top of the parent, and
    /// await the answer.
    RequestInherentData(primitives::Hash),
    /// Nothing but to await the next event.
    Wait,
    /// Put the provisioner's data into the inherent data, under the
    /// identifier of the inclusion inherent, and run the block builder on
    /// the result, with the duration that the caller allowed.
    Build(Vec<u8>),
    /// Hand out the block builder's proposal.
    Succeed,
    /// Fail with the error.
    Fail(Error),
}

impl View for ProposerAction {
    type V = ProposerActionView;

    open spec fn view(&self) -> ProposerActionView {
        match *self {
            ProposerAction::RequestInherentData(parent_hash) =>
                ProposerActionView::RequestInherentData(parent_hash),
            ProposerAction::Wait => ProposerActionView::Wait,
            ProposerAction::Build(data) => ProposerActionView::Build(data@),
            ProposerAction::Succeed => ProposerActionView::Succeed,
            ProposerAction::Fail(e) => ProposerActionView::Fail(e@),
        }
    }
}

/// The stage after an event.
///
/// The timeout ends a proposal at whatever stage it finds it; a proposal
/// that has ended stays so. Otherwise the provisioner's answer leads from
/// waiting to building, and the block builder's result, or the failure to
/// merge the provisioner's data, ends the building. An event that does not
/// belong to the stage changes nothing.
pub open spec fn next_stage(stage: Stage, event: ProposerEventView) -> Stage {
    match (stage, event) {
        (Stage::Finished, _) => Stage::Finished,
        (_, ProposerEventView::TimedOut) => Stage::Finished,
        (Stage::AwaitingInherentData, ProposerEventView::InherentData(_)) => Stage::Building,
        (Stage::AwaitingInherentData, ProposerEventView::ProvisionerClosed) => Stage::Finished,
        (Stage::Building, ProposerEventView::InherentRejected(_)) => Stage::Finished,
        (Stage::Building, ProposerEventView::Proposed) => Stage::Finished,
        (Stage::Building, ProposerEventView::ConsensusFailed(_)) => Stage::Finished,
        (Stage::Building, ProposerEventView::BlockchainFailed(_)) => Stage::Finished,
        _ => stage,
    }
}

/// What is to be done after an event.
pub open spec fn action_for(stage: Stage, event: ProposerEventView) -> ProposerActionView {
    match (stage, event) {
        (Stage::Finished, _) => ProposerActionView::Wait,
        (_, ProposerEventView::TimedOut) => ProposerActionView::Fail(ErrorView::Timeout),
        (Stage::AwaitingInherentData, ProposerEventView::InherentData(data)) =>
            ProposerActionView::Build(data),
        (Stage::AwaitingInherentData, ProposerEventView::ProvisionerClosed) =>
            ProposerActionView::Fail(ErrorView::ClosedChannelFromProvisioner),
        (Stage::Building, ProposerEventView::InherentRejected(e)) => ProposerActionView::Fail(
            ErrorView::Inherent(e),
        ),
        (Stage::Building, ProposerEventView::Proposed) => ProposerActionView::Succeed,
        (Stage::Building, ProposerEventView::ConsensusFailed(e)) => ProposerActionView::Fail(
            ErrorView::Consensus(e),
        ),
        (Stage::Building, ProposerEventView::BlockchainFailed(e)) => ProposerActionView::Fail(
            ErrorView::Blockchain(e),
        ),
        _ => ProposerActionView::Wait,
    }
}

/// The proposer of one block on top of one parent.
pub struct Proposer {
    parent_hash: primitives::Hash,
    stage: Stage,
}

impl Proposer {
    /// The parent of the block to be proposed.
    pub closed spec fn spec_parent_hash(&self) -> primitives::Hash {
        self.parent_hash
    }

    /// How far the proposal has come.
    pub closed spec fn spec_stage(&self) -> Stage {
        self.stage
    }

    /// A proposer for a block on top of `parent_hash`, and what is to be
    /// done at once: the provisioner is asked for its inherent data for that
    /// parent, so that it can put them together while the rest is set up.
    pub fn new(parent_hash: primitives::Hash) -> (r: (Proposer, ProposerAction))
        ensures
            r.0.spec_parent_hash() == parent_hash,
            r.0.spec_stage() == Stage::AwaitingInherentData,
            r.1@ == ProposerActionView::RequestInherentData(parent_hash),
    {
        (
            Proposer { parent_hash, stage: Stage::AwaitingInherentData },
            ProposerAction::RequestInherentData(parent_hash),
        )
    }

    /// The parent for which the provisioner is asked.
    pub fn parent_hash(&self) -> (h: primitives::Hash)
        ensures
            h == self.spec_parent_hash(),
    {
        self.parent_hash
    }

    /// How far the proposal has come.
    pub fn stage(&self) -> (s: Stage)
        ensures
            s == self.spec_stage(),
    {
        self.stage
    }

    /// Takes what has happened and says what is to be done.
    pub fn propose(&mut self, event: ProposerEvent) -> (action: ProposerAction)
        ensures
            final(self).spec_parent_hash() == old(self).spec_parent_hash(),
            final(self).spec_stage() == next_stage(old(self).spec_stage(), event@),
            action@ == action_for(old(self).spec_stage(), event@),
    {
        match self.stage {
            Stage::Finished => ProposerAction::Wait,
            Stage::AwaitingInherentData => match event {
                ProposerEvent::TimedOut => {
                    self.stage = Stage::Finished;
                    ProposerAction::Fail(Error::Timeout)
                },
                ProposerEvent::InherentData(data) => {
                    self.stage = Stage::Building;
                    ProposerAction::Build(data)
                },
                ProposerEvent::ProvisionerClosed => {
                    self.stage = Stage::Finished;
                    ProposerAction::Fail(Error::ClosedChannelFromProvisioner)
                },
                _ => ProposerAction::Wait,
            },
            Stage::Building => match event {
                ProposerEvent::TimedOut => {
                    self.stage = Stage::Finished;
                    ProposerAction::Fail(Error::Timeout)
                },
                ProposerEvent::InherentRejected(e) => {
                    self.stage = Stage::Finished;
                    ProposerAction::Fail(Error::Inherent(e))
                },
                ProposerEvent::Proposed => {
                    self.stage = Stage::Finished;
                    ProposerAction::Succeed
                },
                ProposerEvent::ConsensusFailed(e) => {
                    self.stage = Stage::Finished;
                    ProposerAction::Fail(Error::Consensus(e))
                },
                ProposerEvent::BlockchainFailed(e) => {
                    self.stage = Stage::Finished;
                    ProposerAction::Fail(Error::Blockchain(e))
                },
                _ => ProposerAction::Wait,
            },
        }
    }
}

/// A proposal ends at most once: after it has ended nothing is done any
/// more. And it ends in a timeout exactly when the timeout comes before
/// the end.
pub proof fn lemma_proposal_ends_once(
    stage: Stage,
    event: ProposerEventView,
    later: ProposerEventView,
)
    ensures
        !(action_for(stage, event) is Wait || action_for(stage, event) is Build) ==> next_stage(
            stage,
            event,
        ) == Stage::Finished,
        next_stage(stage, event) == Stage::Finished ==> action_for(next_stage(stage, event), later)
            is Wait,
        action_for(stage, event) == ProposerActionView::Fail(ErrorView::Timeout) <==> (stage
            != Stage::Finished && event is TimedOut),
{
}

} // verus!
