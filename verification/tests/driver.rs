use consensus_manager::driver::DriverAction;
use consensus_manager::driver::DriverEvent;
use consensus_manager::driver::HeightState;
use consensus_manager::driver::SingleHeightDriver;
use consensus_manager::manager::MultiHeightManager;
use consensus_manager::types::BlockHash;
use consensus_manager::types::ConsensusError;
use consensus_manager::types::ConsensusMessage;
use consensus_manager::types::Decision;
use consensus_manager::types::Duration;
use consensus_manager::types::NetworkFault;
use consensus_manager::types::Proposal;
use consensus_manager::types::ProposalInit;
use consensus_manager::types::ShcReturn;
use consensus_manager::types::ShcTask;
use consensus_manager::types::TimeoutsConfig;
use consensus_manager::types::ValidatorId;
use consensus_manager::types::Vote;
use consensus_manager::types::VoteType;

type Message = ConsensusMessage<u32>;
type Driver = SingleHeightDriver<u32, u64, &'static str>;
type Event = DriverEvent<u32, u64, &'static str>;
type Action = DriverAction<u32, &'static str>;

fn secs(secs: u64) -> Duration {
    Duration { secs, nanos: 0 }
}

fn prevote(height: u64, voter: u8) -> Message {
    ConsensusMessage::Vote(Vote {
        vote_type: VoteType::Prevote,
        height,
        round: 0,
        block_hash: Some(BlockHash([0xb1; 32])),
        voter: ValidatorId([voter; 32]),
    })
}

fn precommit(height: u64, voter: u8) -> Vote {
    Vote {
        vote_type: VoteType::Precommit,
        height,
        round: 0,
        block_hash: Some(BlockHash([0xb1; 32])),
        voter: ValidatorId([voter; 32]),
    }
}

fn proposal(height: u64) -> Message {
    ConsensusMessage::Proposal(Proposal {
        height,
        round: 0,
        proposer: ValidatorId([1; 32]),
        transactions: vec![10, 20, 30],
        block_hash: BlockHash([0xb1; 32]),
        valid_round: Some(0),
    })
}

fn task(delay: u64, event: &'static str) -> ShcTask<&'static str> {
    ShcTask { duration: secs(delay), event }
}

fn manager() -> MultiHeightManager<u32> {
    MultiHeightManager::new(ValidatorId([0; 32]), TimeoutsConfig::default())
}

fn no_tasks() -> Event {
    DriverEvent::Machine(Ok(ShcReturn::Tasks(vec![])))
}

fn tasks(tasks: Vec<ShcTask<&'static str>>) -> Event {
    DriverEvent::Machine(Ok(ShcReturn::Tasks(tasks)))
}

/// A driver for height 5 whose machine has started with no task.
fn running(manager: &mut MultiHeightManager<u32>) -> Driver {
    let mut driver: Driver = manager.run_height(5);
    assert_eq!(driver.step(manager, no_tasks(), secs(0)), DriverAction::Await(None));
    driver
}

#[test]
fn a_driver_begins_by_waiting_for_the_start_of_the_machine() {
    let mut manager = manager();
    let mut driver: Driver = manager.run_height(5);
    assert_eq!(driver.state(), &HeightState::Starting);
    assert_eq!(driver.step(&mut manager, DriverEvent::Timer, secs(1)), DriverAction::Continue);
    assert_eq!(
        driver.step(&mut manager, DriverEvent::Network(Some(Ok(prevote(5, 1)))), secs(1)),
        DriverAction::Continue
    );
    assert_eq!(driver.step(&mut manager, DriverEvent::Reported(true), secs(1)), DriverAction::Continue);
    assert_eq!(driver.state(), &HeightState::Starting);
    assert_eq!(
        driver.step(&mut manager, tasks(vec![task(3, "propose")]), secs(2)),
        DriverAction::Await(Some(5_000_000_000))
    );
    assert_eq!(driver.state(), &HeightState::Running);
    assert_eq!(driver.pending_tasks(), 1);
}

#[test]
fn a_decision_at_the_start_ends_the_height() {
    let mut manager = manager();
    let mut driver: Driver = manager.run_height(5);
    let decision = Decision { precommits: vec![precommit(5, 1)], block: 77 };
    let event: Event = DriverEvent::Machine(Ok(ShcReturn::Decision(decision.clone())));
    assert_eq!(driver.step(&mut manager, event, secs(0)), DriverAction::Finished);
    assert_eq!(driver.state(), &HeightState::Decided(decision.clone()));
    assert!(!driver.is_live());
    assert_eq!(driver.step(&mut manager, no_tasks(), secs(0)), DriverAction::Continue);
    assert_eq!(driver.into_result(), Some(Ok(decision)));
}

#[test]
fn an_error_of_the_machine_ends_the_height() {
    let mut manager = manager();
    let mut driver: Driver = manager.run_height(5);
    let error = ConsensusError::SingleHeightError("bad proposal".to_string());
    let event: Event = DriverEvent::Machine(Err(error.clone()));
    assert_eq!(driver.step(&mut manager, event, secs(0)), DriverAction::Finished);
    assert_eq!(driver.state(), &HeightState::Failed(error.clone()));
    assert_eq!(driver.into_result(), Some(Err(error)));
}

#[test]
fn a_message_of_the_height_goes_to_the_machine() {
    let mut manager = manager();
    let mut driver = running(&mut manager);
    let action = driver.step(&mut manager, DriverEvent::Network(Some(Ok(prevote(5, 2)))), secs(1));
    assert_eq!(action, DriverAction::HandleMessage(prevote(5, 2)));
    // Until the machine has answered, nothing else is taken.
    assert_eq!(
        driver.step(&mut manager, DriverEvent::Network(Some(Ok(prevote(5, 3)))), secs(1)),
        DriverAction::Continue
    );
    assert_eq!(driver.step(&mut manager, DriverEvent::Timer, secs(1)), DriverAction::Continue);
    assert_eq!(driver.step(&mut manager, no_tasks(), secs(1)), DriverAction::Await(None));
}

#[test]
fn a_proposal_of_the_height_goes_to_the_machine_in_parts() {
    let mut manager = manager();
    let mut driver = running(&mut manager);
    let action = driver.step(&mut manager, DriverEvent::Network(Some(Ok(proposal(5)))), secs(1));
    assert_eq!(
        action,
        DriverAction::HandleProposal(
            ProposalInit { height: 5, round: 0, proposer: ValidatorId([1; 32]), valid_round: Some(0) },
            vec![10, 20, 30],
            BlockHash([0xb1; 32]),
        )
    );
}

#[test]
fn a_message_for_a_later_height_is_cached_and_the_wait_goes_on() {
    let mut manager = manager();
    let mut driver: Driver = manager.run_height(5);
    driver.step(&mut manager, tasks(vec![task(3, "propose")]), secs(0));
    let action = driver.step(&mut manager, DriverEvent::Network(Some(Ok(prevote(6, 2)))), secs(1));
    assert_eq!(action, DriverAction::Await(Some(3_000_000_000)));
    assert_eq!(manager.cached_at(6), 1);
    assert_eq!(driver.state(), &HeightState::Running);
}

#[test]
fn a_message_for_an_earlier_height_is_dropped_and_the_wait_goes_on() {
    let mut manager = manager();
    let mut driver = running(&mut manager);
    let action = driver.step(&mut manager, DriverEvent::Network(Some(Ok(prevote(4, 2)))), secs(1));
    assert_eq!(action, DriverAction::Await(None));
    assert_eq!(manager.cached_len(), 0);
    assert_eq!(manager.cached_at(4), 0);
}

#[test]
fn buffered_messages_go_first_and_the_last_of_them_first() {
    let mut manager = manager();
    let mut earlier: Driver = manager.run_height(4);
    earlier.step(&mut manager, no_tasks(), secs(0));
    earlier.step(&mut manager, DriverEvent::Network(Some(Ok(prevote(5, 1)))), secs(0));
    earlier.step(&mut manager, DriverEvent::Network(Some(Ok(proposal(5)))), secs(0));
    earlier.step(&mut manager, DriverEvent::Network(Some(Ok(prevote(5, 3)))), secs(0));
    earlier.abort();

    let mut driver: Driver = manager.run_height(5);
    assert_eq!(driver.buffered(), 3);
    // The network is not listened to while the buffer has messages.
    assert_eq!(
        driver.step(&mut manager, DriverEvent::Network(Some(Ok(prevote(5, 9)))), secs(1)),
        DriverAction::Continue
    );
    assert_eq!(driver.step(&mut manager, no_tasks(), secs(1)), DriverAction::HandleMessage(prevote(5, 3)));
    assert_eq!(driver.buffered(), 2);
    assert_eq!(
        driver.step(&mut manager, DriverEvent::Network(Some(Ok(prevote(5, 9)))), secs(1)),
        DriverAction::Continue
    );
    let second = driver.step(&mut manager, no_tasks(), secs(1));
    assert_eq!(
        second,
        DriverAction::HandleProposal(
            ProposalInit { height: 5, round: 0, proposer: ValidatorId([1; 32]), valid_round: Some(0) },
            vec![10, 20, 30],
            BlockHash([0xb1; 32]),
        )
    );
    assert_eq!(driver.step(&mut manager, no_tasks(), secs(1)), DriverAction::HandleMessage(prevote(5, 1)));
    assert_eq!(driver.buffered(), 0);
    assert_eq!(driver.step(&mut manager, no_tasks(), secs(1)), DriverAction::Await(None));
    assert_eq!(
        driver.step(&mut manager, DriverEvent::Network(Some(Ok(prevote(5, 9)))), secs(1)),
        DriverAction::HandleMessage(prevote(5, 9))
    );
}

#[test]
fn a_task_comes_back_when_it_is_due() {
    let mut manager = manager();
    let mut driver: Driver = manager.run_height(5);
    let start = tasks(vec![task(3, "propose"), task(1, "prevote")]);
    assert_eq!(driver.step(&mut manager, start, secs(10)), DriverAction::Await(Some(11_000_000_000)));
    // Woken too early: the wait goes on.
    assert_eq!(
        driver.step(&mut manager, DriverEvent::Timer, Duration { secs: 10, nanos: 999_999_999 }),
        DriverAction::Await(Some(11_000_000_000))
    );
    assert_eq!(driver.pending_tasks(), 2);
    assert_eq!(
        driver.step(&mut manager, DriverEvent::Timer, secs(11)),
        DriverAction::HandleTask(task(1, "prevote"))
    );
    assert_eq!(driver.pending_tasks(), 1);
    let more = tasks(vec![task(1, "precommit")]);
    assert_eq!(driver.step(&mut manager, more, secs(11)), DriverAction::Await(Some(12_000_000_000)));
    assert_eq!(
        driver.step(&mut manager, DriverEvent::Timer, secs(20)),
        DriverAction::HandleTask(task(1, "precommit"))
    );
    assert_eq!(driver.step(&mut manager, no_tasks(), secs(20)), DriverAction::Await(Some(13_000_000_000)));
    assert_eq!(
        driver.step(&mut manager, DriverEvent::Timer, secs(20)),
        DriverAction::HandleTask(task(3, "propose"))
    );
    assert_eq!(driver.step(&mut manager, no_tasks(), secs(20)), DriverAction::Await(None));
    assert_eq!(driver.step(&mut manager, DriverEvent::Timer, secs(30)), DriverAction::Await(None));
}

#[test]
fn a_closed_network_ends_the_height() {
    let mut manager = manager();
    let mut driver = running(&mut manager);
    assert_eq!(driver.step(&mut manager, DriverEvent::Network(None), secs(1)), DriverAction::Finished);
    let error = ConsensusError::InternalNetworkError(NetworkFault::ReceiverClosed);
    assert_eq!(driver.state(), &HeightState::Failed(error.clone()));
    assert_eq!(driver.into_result(), Some(Err(error)));
}

#[test]
fn parse_error_report() {
    let mut manager = manager();
    let mut driver = running(&mut manager);
    let malformed: Event = DriverEvent::Network(Some(Err("missing field".to_string())));
    let mut reports = 0;
    let mut action = driver.step(&mut manager, malformed, secs(1));
    if action == DriverAction::ReportPeer {
        reports += 1;
        // Nothing but the word on the report is taken now.
        assert_eq!(driver.step(&mut manager, no_tasks(), secs(1)), DriverAction::Continue);
        assert_eq!(
            driver.step(&mut manager, DriverEvent::Network(Some(Ok(prevote(5, 1)))), secs(1)),
            DriverAction::Continue
        );
        action = driver.step(&mut manager, DriverEvent::Reported(true), secs(1));
    }
    assert_eq!(reports, 1);
    assert_eq!(action, DriverAction::Finished);
    assert_eq!(driver.step(&mut manager, DriverEvent::Reported(true), secs(1)), DriverAction::Continue);
    assert_eq!(
        driver.into_result(),
        Some(Err(ConsensusError::MessageConversionError("missing field".to_string())))
    );
}

#[test]
fn a_report_that_cannot_be_sent_is_a_network_error() {
    let mut manager = manager();
    let mut driver = running(&mut manager);
    let malformed: Event = DriverEvent::Network(Some(Err("missing field".to_string())));
    assert_eq!(driver.step(&mut manager, malformed, secs(1)), DriverAction::ReportPeer);
    assert_eq!(driver.step(&mut manager, DriverEvent::Reported(false), secs(1)), DriverAction::Finished);
    assert_eq!(
        driver.into_result(),
        Some(Err(ConsensusError::InternalNetworkError(NetworkFault::ReportFailed)))
    );
}

#[test]
fn an_aborted_height_takes_nothing_and_has_no_result() {
    let mut manager = manager();
    let mut driver = running(&mut manager);
    driver.abort();
    assert_eq!(driver.state(), &HeightState::Aborted);
    assert!(!driver.is_live());
    assert_eq!(
        driver.step(&mut manager, DriverEvent::Network(Some(Ok(prevote(5, 1)))), secs(1)),
        DriverAction::Continue
    );
    assert_eq!(driver.step(&mut manager, DriverEvent::Timer, secs(1)), DriverAction::Continue);
    assert_eq!(driver.into_result(), None);
}

#[test]
fn aborting_a_decided_height_leaves_the_decision() {
    let mut manager = manager();
    let mut driver: Driver = manager.run_height(5);
    let decision = Decision { precommits: vec![], block: 1 };
    let event: Event = DriverEvent::Machine(Ok(ShcReturn::Decision(decision.clone())));
    driver.step(&mut manager, event, secs(0));
    driver.abort();
    assert_eq!(driver.into_result(), Some(Ok(decision)));
}

#[test]
fn a_live_height_has_no_result() {
    let mut manager = manager();
    let driver = running(&mut manager);
    assert_eq!(driver.into_result(), None);
    let action: Action = DriverAction::Continue;
    assert_ne!(action, DriverAction::Finished);
}
