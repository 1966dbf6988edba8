use consensus_manager::driver::SingleHeightDriver;
use consensus_manager::manager::next_message;
use consensus_manager::manager::sync_height;
use consensus_manager::manager::Dispatch;
use consensus_manager::manager::MultiHeightManager;
use consensus_manager::manager::DEFAULT_CACHE_LIMIT;
use consensus_manager::types::BlockHash;
use consensus_manager::types::ConsensusError;
use consensus_manager::types::ConsensusMessage;
use consensus_manager::types::Duration;
use consensus_manager::types::Proposal;
use consensus_manager::types::ProposalInit;
use consensus_manager::types::TimeoutsConfig;
use consensus_manager::types::ValidatorId;
use consensus_manager::types::Vote;
use consensus_manager::types::VoteType;

type Message = ConsensusMessage<u32>;

fn timeouts() -> TimeoutsConfig {
    TimeoutsConfig {
        proposal_timeout: Duration { secs: 3, nanos: 0 },
        prevote_timeout: Duration { secs: 1, nanos: 0 },
        precommit_timeout: Duration { secs: 1, nanos: 500 },
    }
}

fn prevote(height: u64, voter: u8) -> Message {
    ConsensusMessage::Vote(Vote {
        vote_type: VoteType::Prevote,
        height,
        round: 0,
        block_hash: Some(BlockHash([0xb1; 32])),
        voter: ValidatorId([voter; 32]),
    })
}

fn proposal(height: u64) -> Proposal<u32> {
    Proposal {
        height,
        round: 0,
        proposer: ValidatorId([1; 32]),
        transactions: vec![10, 20, 30],
        block_hash: BlockHash([0xb1; 32]),
        valid_round: None,
    }
}

fn manager() -> MultiHeightManager<u32> {
    MultiHeightManager::new(ValidatorId([0; 32]), timeouts())
}

#[test]
fn a_new_manager_keeps_what_it_was_given() {
    let manager = manager();
    assert_eq!(manager.validator_id(), ValidatorId([0; 32]));
    assert_eq!(manager.timeouts(), timeouts());
    assert_eq!(manager.cached_len(), 0);
    assert_eq!(DEFAULT_CACHE_LIMIT, 4096);
}

#[test]
fn a_vote_for_the_height_goes_to_the_machine() {
    let mut manager = manager();
    assert_eq!(manager.handle_message(5, prevote(5, 1)), Dispatch::Message(prevote(5, 1)));
    assert_eq!(manager.cached_len(), 0);
}

#[test]
fn a_proposal_for_the_height_goes_to_the_machine_in_parts() {
    let mut manager = manager();
    let dispatch = manager.handle_message(5, ConsensusMessage::Proposal(proposal(5)));
    assert_eq!(
        dispatch,
        Dispatch::Proposal(
            ProposalInit { height: 5, round: 0, proposer: ValidatorId([1; 32]), valid_round: None },
            vec![10, 20, 30],
            BlockHash([0xb1; 32]),
        )
    );
    assert_eq!(manager.cached_len(), 0);
}

#[test]
fn a_message_for_a_later_height_is_cached() {
    let mut manager = manager();
    assert_eq!(manager.handle_message(5, prevote(6, 1)), Dispatch::Nothing);
    assert_eq!(manager.handle_message(5, ConsensusMessage::Proposal(proposal(9))), Dispatch::Nothing);
    assert_eq!(manager.cached_len(), 2);
    assert_eq!(manager.cached_at(6), 1);
    assert_eq!(manager.cached_at(9), 1);
}

#[test]
fn a_message_for_an_earlier_height_is_dropped() {
    let mut manager = manager();
    assert_eq!(manager.handle_message(5, prevote(4, 1)), Dispatch::Nothing);
    assert_eq!(manager.handle_message(5, ConsensusMessage::Proposal(proposal(0))), Dispatch::Nothing);
    assert_eq!(manager.cached_len(), 0);
    assert_eq!(manager.cached_at(4), 0);
}

#[test]
fn a_full_cache_drops_messages_for_later_heights() {
    let mut manager: MultiHeightManager<u32> =
        MultiHeightManager::with_cache_limit(ValidatorId([0; 32]), timeouts(), 2);
    assert_eq!(manager.handle_message(5, prevote(6, 1)), Dispatch::Nothing);
    assert_eq!(manager.handle_message(5, prevote(7, 2)), Dispatch::Nothing);
    assert_eq!(manager.handle_message(5, prevote(6, 3)), Dispatch::Nothing);
    assert_eq!(manager.cached_len(), 2);
    assert_eq!(manager.get_current_height_messages(6), vec![prevote(6, 1)]);
    assert_eq!(manager.handle_message(6, prevote(7, 4)), Dispatch::Nothing);
    assert_eq!(manager.get_current_height_messages(7), vec![prevote(7, 2), prevote(7, 4)]);
}

#[test]
fn the_messages_of_the_current_height_come_out_in_arrival_order() {
    let mut manager = manager();
    manager.handle_message(5, prevote(7, 1));
    manager.handle_message(5, prevote(6, 2));
    manager.handle_message(5, prevote(7, 3));
    manager.handle_message(5, prevote(8, 4));
    assert_eq!(manager.get_current_height_messages(7), vec![prevote(7, 1), prevote(7, 3)]);
    assert_eq!(manager.cached_at(6), 0);
    assert_eq!(manager.cached_at(8), 1);
    assert_eq!(manager.cached_len(), 1);
    assert_eq!(manager.get_current_height_messages(7), Vec::<Message>::new());
}

#[test]
fn a_height_begins_with_what_was_cached_for_it() {
    let mut manager = manager();
    manager.handle_message(5, prevote(6, 1));
    manager.handle_message(5, prevote(6, 2));
    manager.handle_message(5, prevote(7, 3));
    let driver: SingleHeightDriver<u32, u64, u8> = manager.run_height(6);
    assert_eq!(driver.height(), 6);
    assert_eq!(driver.buffered(), 2);
    assert_eq!(driver.pending_tasks(), 0);
    assert!(driver.is_live());
    assert_eq!(manager.cached_at(6), 0);
    assert_eq!(manager.cached_at(7), 1);
}

#[test]
fn the_message_cached_last_is_next() {
    let mut cached = vec![prevote(6, 1), prevote(6, 2), prevote(6, 3)];
    assert_eq!(next_message(&mut cached), Some(prevote(6, 3)));
    assert_eq!(next_message(&mut cached), Some(prevote(6, 2)));
    assert_eq!(cached, vec![prevote(6, 1)]);
    assert_eq!(next_message(&mut cached), Some(prevote(6, 1)));
    assert_eq!(next_message(&mut cached), None);
    assert_eq!(cached, Vec::<Message>::new());
}

#[test]
fn a_sync_counts_from_the_current_height_on() {
    assert_eq!(sync_height(7, Some(6)), None);
    assert_eq!(sync_height(7, Some(0)), None);
    assert_eq!(sync_height(7, Some(7)), Some(Ok(7)));
    assert_eq!(sync_height(7, Some(10)), Some(Ok(10)));
    assert_eq!(sync_height(0, Some(0)), Some(Ok(0)));
    assert_eq!(sync_height(7, Some(u64::MAX)), Some(Ok(u64::MAX)));
}

#[test]
fn a_closed_sync_stream_is_an_error() {
    assert_eq!(sync_height(7, None), Some(Err(ConsensusError::SyncError)));
}
