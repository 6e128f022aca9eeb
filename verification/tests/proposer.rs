use statement_distribution::primitives;
use statement_distribution::proposer::{
    Error, Proposer, ProposerAction, ProposerEvent, Stage, PROPOSE_TIMEOUT_SECS,
};

fn proposer() -> Proposer {
    let (proposer, request) = Proposer::new(primitives::Hash::new([4; 32]));
    assert_eq!(request, ProposerAction::RequestInherentData(primitives::Hash::new([4; 32])));
    proposer
}

#[test]
fn the_timeout_is_two_seconds() {
    assert_eq!(PROPOSE_TIMEOUT_SECS, 2);
}

#[test]
fn a_proposal_runs_from_the_provisioner_to_the_builder() {
    let mut proposer = proposer();
    assert_eq!(proposer.parent_hash(), primitives::Hash::new([4; 32]));
    assert_eq!(proposer.stage(), Stage::AwaitingInherentData);
    assert_eq!(
        proposer.propose(ProposerEvent::InherentData(vec![1, 2, 3])),
        ProposerAction::Build(vec![1, 2, 3])
    );
    assert_eq!(proposer.stage(), Stage::Building);
    assert_eq!(proposer.propose(ProposerEvent::Proposed), ProposerAction::Succeed);
    assert_eq!(proposer.stage(), Stage::Finished);
    // Nothing is done after the end, not even on the timeout.
    assert_eq!(proposer.propose(ProposerEvent::TimedOut), ProposerAction::Wait);
    assert_eq!(proposer.propose(ProposerEvent::Proposed), ProposerAction::Wait);
    assert_eq!(proposer.stage(), Stage::Finished);
    assert_eq!(proposer.parent_hash(), primitives::Hash::new([4; 32]));
}

#[test]
fn a_closed_channel_fails_the_proposal() {
    let mut proposer = proposer();
    assert_eq!(
        proposer.propose(ProposerEvent::ProvisionerClosed),
        ProposerAction::Fail(Error::ClosedChannelFromProvisioner)
    );
    assert_eq!(proposer.stage(), Stage::Finished);
    assert_eq!(proposer.propose(ProposerEvent::InherentData(vec![])), ProposerAction::Wait);
}

#[test]
fn the_timeout_fails_the_proposal_at_either_stage() {
    let mut waiting = proposer();
    assert_eq!(waiting.propose(ProposerEvent::TimedOut), ProposerAction::Fail(Error::Timeout));
    assert_eq!(waiting.stage(), Stage::Finished);
    let mut building = proposer();
    building.propose(ProposerEvent::InherentData(vec![7]));
    assert_eq!(building.propose(ProposerEvent::TimedOut), ProposerAction::Fail(Error::Timeout));
    assert_eq!(building.propose(ProposerEvent::Proposed), ProposerAction::Wait);
}

#[test]
fn each_failure_of_the_building_has_its_error() {
    let cases = [
        (
            ProposerEvent::InherentRejected("no room".to_string()),
            Error::Inherent("no room".to_string()),
        ),
        (
            ProposerEvent::ConsensusFailed("no state".to_string()),
            Error::Consensus("no state".to_string()),
        ),
        (
            ProposerEvent::BlockchainFailed("no header".to_string()),
            Error::Blockchain("no header".to_string()),
        ),
    ];
    for (event, error) in cases {
        let mut proposer = proposer();
        proposer.propose(ProposerEvent::InherentData(vec![]));
        assert_eq!(proposer.propose(event), ProposerAction::Fail(error));
        assert_eq!(proposer.stage(), Stage::Finished);
    }
}

#[test]
fn an_event_out_of_turn_changes_nothing() {
    let mut proposer = proposer();
    assert_eq!(proposer.propose(ProposerEvent::Proposed), ProposerAction::Wait);
    assert_eq!(
        proposer.propose(ProposerEvent::ConsensusFailed("early".to_string())),
        ProposerAction::Wait
    );
    assert_eq!(proposer.stage(), Stage::AwaitingInherentData);
    proposer.propose(ProposerEvent::InherentData(vec![1]));
    assert_eq!(proposer.propose(ProposerEvent::InherentData(vec![2])), ProposerAction::Wait);
    assert_eq!(proposer.propose(ProposerEvent::ProvisionerClosed), ProposerAction::Wait);
    assert_eq!(proposer.stage(), Stage::Building);
}
