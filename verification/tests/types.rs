use consensus_manager::types::BlockHash;
use consensus_manager::types::ConsensusError;
use consensus_manager::types::ConsensusMessage;
use consensus_manager::types::Duration;
use consensus_manager::types::NetworkFault;
use consensus_manager::types::Proposal;
use consensus_manager::types::ProposalInit;
use consensus_manager::types::ProposalWrapper;
use consensus_manager::types::ValidatorId;
use consensus_manager::types::Vote;
use consensus_manager::types::VoteType;

#[test]
fn a_span_in_nanoseconds() {
    assert_eq!(Duration { secs: 0, nanos: 0 }.as_nanos(), 0);
    assert_eq!(Duration { secs: 2, nanos: 5 }.as_nanos(), 2_000_000_005);
    assert_eq!(Duration { secs: 0, nanos: 1_500_000_000 }.as_nanos(), 1_500_000_000);
    assert_eq!(
        Duration { secs: u64::MAX, nanos: 999_999_999 }.as_nanos(),
        18_446_744_073_709_551_615_999_999_999
    );
}

#[test]
fn the_height_of_a_message() {
    let vote = Vote {
        vote_type: VoteType::Precommit,
        height: 12,
        round: 1,
        block_hash: Some(BlockHash([3; 32])),
        voter: ValidatorId([1; 32]),
    };
    assert_eq!(ConsensusMessage::<u8>::Vote(vote).height(), 12);
    let proposal = Proposal {
        height: 34,
        round: 0,
        proposer: ValidatorId([2; 32]),
        transactions: vec![1u8, 2, 3],
        block_hash: BlockHash([4; 32]),
        valid_round: None,
    };
    assert_eq!(ConsensusMessage::Proposal(proposal).height(), 34);
}

#[test]
fn a_proposal_in_its_three_parts() {
    let proposal = Proposal {
        height: 5,
        round: 2,
        proposer: ValidatorId([9; 32]),
        transactions: vec!["a", "b", "c"],
        block_hash: BlockHash([7; 32]),
        valid_round: Some(1),
    };
    let (init, content, fin) = ProposalWrapper(proposal).into_parts();
    assert_eq!(
        init,
        ProposalInit { height: 5, round: 2, proposer: ValidatorId([9; 32]), valid_round: Some(1) }
    );
    assert_eq!(content, vec!["a", "b", "c"]);
    assert_eq!(fin, BlockHash([7; 32]));
}

#[test]
fn the_text_of_each_error() {
    assert_eq!(
        ConsensusError::InternalNetworkError(NetworkFault::ReceiverClosed).message(),
        "NetworkReceiver should never be closed"
    );
    assert_eq!(
        ConsensusError::InternalNetworkError(NetworkFault::ReportFailed).message(),
        "Failed to send report"
    );
    assert_eq!(ConsensusError::SyncError.message(), "Sync receiver closed");
    assert_eq!(ConsensusError::MessageConversionError("bad bytes".to_string()).message(), "bad bytes");
    assert_eq!(ConsensusError::ContextError("no block".to_string()).message(), "no block");
    assert_eq!(ConsensusError::SingleHeightError("equivocation".to_string()).message(), "equivocation");
}
