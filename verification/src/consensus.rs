//! The loop over the heights.
//!
//! The loop works on one height at a time. It leaves a height for one of two
//! reasons only: the machine has decided and the decision was handed to the
//! node, or the sync stream has reported that the network is at this height
//! or past it. A height that was left is never entered again.
//!
//! Like a driver, the loop does nothing by itself. Whoever runs it performs
//! each action and reports what came of it.

use vstd::prelude::*;
use crate::cache::above;
use crate::cache::all_above;
use crate::cache::lookup;
use crate::driver::lemma_step_cache;
use crate::driver::lemma_step_outcome;
use crate::driver::DriverAction;
use crate::driver::DriverEvent;
use crate::driver::DriverView;
use crate::driver::HeightState;
use crate::driver::SingleHeightDriver;
use crate::manager::lemma_drained;
use crate::manager::next_height;
use crate::manager::sound;
use crate::manager::spec_sync_height;
use crate::manager::sync_height;
use crate::manager::Cached;
use crate::manager::MultiHeightManager;
use crate::manager::DEFAULT_CACHE_LIMIT;
use crate::types::BlockHash;
use crate::types::ConsensusError;
use crate::types::ConsensusMessage;
use crate::types::Decision;
use crate::types::Duration;
use crate::types::ProposalInit;
use crate::types::ShcTask;
use crate::types::TimeoutsConfig;
use crate::types::ValidatorId;

verus! {

/// What has happened, as the loop is told.
#[derive(Debug, PartialEq, Eq)]
pub enum ConsensusEvent<C, B, E> {
    /// The delay before the first height has passed.
    Started,
    /// Something has happened that concerns the height in work.
    Driver(DriverEvent<C, B, E>),
    /// The sync stream has reported the height that the network has reached;
    /// `None` where it has closed. The stream is to be read only while a
    /// height is in work.
    Sync(Option<u64>),
    /// The node has taken the decision, or has failed to.
    DecisionDelivered(Result<(), ConsensusError>),
}

/// What is to be done next, as the loop says.
#[derive(Debug, PartialEq, Eq)]
pub enum ConsensusAction<C, B, E> {
    /// Wait for this long, so that peers can connect, before any other work.
    Sleep(Duration),
    /// Begin a height: publish `height` as the height of the node, count a
    /// sync if `synced` says so, get the validators of the height, make a
    /// single-height machine for them with `validator_id` and `timeouts`, and
    /// start it.
    StartHeight { height: u64, validator_id: ValidatorId, timeouts: TimeoutsConfig, synced: bool },
    /// Give the machine this proposal: its metadata, the chunks of its
    /// content in order, and the hash that ends the content.
    HandleProposal(ProposalInit, Vec<C>, BlockHash),
    /// Give the machine this message.
    HandleMessage(ConsensusMessage<C>),
    /// Give the machine a task that has come due.
    HandleTask(ShcTask<E>),
    /// Wait for the next message from the network, but no longer than until
    /// the clock reads this many nanoseconds; without a time, for as long as
    /// it takes.
    Await(Option<u128>),
    /// Report the peer that sent the malformed message.
    ReportPeer,
    /// Hand the decision of the height in work to the node.
    DecisionReached(Decision<B>),
    /// The event was not asked for and has changed nothing: go on with what
    /// was asked for last.
    Continue,
    /// The loop has ended with this error.
    Fail(ConsensusError),
}

/// What the loop is busy with.
#[derive(Debug)]
enum Phase<C, B, E> {
    /// The delay before the first height.
    Startup,
    /// A height.
    Running(SingleHeightDriver<C, B, E>),
    /// Handing the decision of a height to the node.
    Committing,
    /// Nothing any more: the loop has ended with an error.
    Stopped,
}

/// The model of what the loop is busy with.
pub ghost enum PhaseView<C, B, E> {
    Startup,
    Running(DriverView<C, B, E>),
    Committing,
    Stopped,
}

/// The model of the loop.
pub ghost struct LoopView<C, B, E> {
    /// The height in work, or the first height before the work begins.
    pub height: u64,
    /// The identity under which this node votes.
    pub validator_id: ValidatorId,
    /// The timeouts handed to each single-height machine.
    pub timeouts: TimeoutsConfig,
    /// The messages cached for later heights.
    pub cached: Cached<C>,
    /// The largest number of messages that the cache keeps.
    pub limit: nat,
    /// What the loop is busy with.
    pub phase: PhaseView<C, B, E>,
}

/// An action of a driver as an action of the loop. The end of a height is
/// none: the loop turns it into the handing over of the decision, or into its
/// own end.
pub open spec fn lifted<C, B, E>(action: DriverAction<C, E>) -> ConsensusAction<C, B, E> {
    match action {
        DriverAction::HandleProposal(init, content, fin) => ConsensusAction::HandleProposal(
            init,
            content,
            fin,
        ),
        DriverAction::HandleMessage(message) => ConsensusAction::HandleMessage(message),
        DriverAction::HandleTask(task) => ConsensusAction::HandleTask(task),
        DriverAction::Await(deadline) => ConsensusAction::Await(deadline),
        DriverAction::ReportPeer => ConsensusAction::ReportPeer,
        DriverAction::Finished => ConsensusAction::Continue,
        DriverAction::Continue => ConsensusAction::Continue,
    }
}

impl<C, B, E> LoopView<C, B, E> {
    /// The loop before its first step.
    pub open spec fn initial(
        start_height: u64,
        validator_id: ValidatorId,
        timeouts: TimeoutsConfig,
        limit: nat,
    ) -> Self {
        LoopView {
            height: start_height,
            validator_id,
            timeouts,
            cached: Cached::<C>::empty(),
            limit,
            phase: PhaseView::Startup,
        }
    }

    /// The cache is in order, nothing is cached for the height in work or
    /// for an earlier one, and the driver of the height in work is in order
    /// and not at its end.
    pub open spec fn wf(self) -> bool {
        &&& sound(self.cached, self.limit)
        &&& all_above(self.cached, self.height)
        &&& match self.phase {
            PhaseView::Running(driver) => driver.wf() && driver.live() && driver.height
                == self.height,
            _ => true,
        }
    }

    /// The event does not take the loop past the largest height.
    pub open spec fn admits(self, event: ConsensusEvent<C, B, E>) -> bool {
        match (self.phase, event) {
            (PhaseView::Running(_), ConsensusEvent::Sync(Some(reached))) => reached < self.height
                || reached < u64::MAX,
            (PhaseView::Committing, ConsensusEvent::DecisionDelivered(Ok(_))) => self.height
                < u64::MAX,
            _ => true,
        }
    }

    /// The loop at the beginning of `height`, and the action that begins it.
    /// The driver of the height has the messages that were cached for it;
    /// what was cached for the height or below is gone from the cache.
    pub open spec fn start_height(
        self,
        height: u64,
        synced: bool,
    ) -> (Self, ConsensusAction<C, B, E>) {
        (
            LoopView {
                height,
                cached: above(self.cached, height),
                phase: PhaseView::Running(
                    SingleHeightDriver::<C, B, E>::starting(height, lookup(self.cached, height)),
                ),
                ..self
            },
            ConsensusAction::StartHeight {
                height,
                validator_id: self.validator_id,
                timeouts: self.timeouts,
                synced,
            },
        )
    }

    /// The loop at its end, and the action that says so.
    pub open spec fn stop(self, error: ConsensusError) -> (Self, ConsensusAction<C, B, E>) {
        (LoopView { phase: PhaseView::Stopped, ..self }, ConsensusAction::Fail(error))
    }

    /// The loop after `event`, at the time `now`, and what is to be done
    /// next.
    pub open spec fn step(
        self,
        event: ConsensusEvent<C, B, E>,
        now: Duration,
    ) -> (Self, ConsensusAction<C, B, E>) {
        match (self.phase, event) {
            (PhaseView::Startup, ConsensusEvent::Started) => self.start_height(self.height, false),
            (PhaseView::Running(driver), ConsensusEvent::Driver(event)) => {
                let (driver, cached, action) = driver.step(self.cached, self.limit, event, now);
                match driver.state {
                    HeightState::Decided(decision) => (
                        LoopView { cached, phase: PhaseView::Committing, ..self },
                        ConsensusAction::DecisionReached(decision),
                    ),
                    HeightState::Failed(error) => LoopView { cached, ..self }.stop(error),
                    _ => (
                        LoopView { cached, phase: PhaseView::Running(driver), ..self },
                        lifted(action),
                    ),
                }
            },
            (PhaseView::Running(_), ConsensusEvent::Sync(item)) => match spec_sync_height(
                self.height,
                item,
            ) {
                None => (self, ConsensusAction::Continue),
                Some(Err(error)) => self.stop(error),
                Some(Ok(reached)) => self.start_height((reached + 1) as u64, true),
            },
            (PhaseView::Committing, ConsensusEvent::DecisionDelivered(Ok(_))) => self.start_height(
                (self.height + 1) as u64,
                false,
            ),
            (PhaseView::Committing, ConsensusEvent::DecisionDelivered(Err(error))) => self.stop(
                error,
            ),
            _ => (self, ConsensusAction::Continue),
        }
    }
}

/// A step leaves the loop in order.
pub proof fn lemma_step_wf<C, B, E>(
    start: LoopView<C, B, E>,
    event: ConsensusEvent<C, B, E>,
    now: Duration,
)
    requires
        start.wf(),
    ensures
        start.step(event, now).0.wf(),
{
    match (start.phase, event) {
        (PhaseView::Running(driver), ConsensusEvent::Driver(event)) => {
            crate::driver::lemma_step_wf(driver, start.cached, start.limit, event, now);
            lemma_step_cache(driver, start.cached, start.limit, event, now);
            lemma_step_outcome(driver, start.cached, start.limit, event, now);
        },
        (PhaseView::Running(_), ConsensusEvent::Sync(Some(reached))) => {
            lemma_drained(start.cached, start.limit, (reached + 1) as u64);
        },
        (PhaseView::Startup, ConsensusEvent::Started) => {
            lemma_drained(start.cached, start.limit, start.height);
        },
        (PhaseView::Committing, ConsensusEvent::DecisionDelivered(Ok(_))) => {
            lemma_drained(start.cached, start.limit, (start.height + 1) as u64);
        },
        _ => {},
    }
}

/// The consensus loop of a node.
#[derive(Debug)]
pub struct ConsensusLoop<C, B, E> {
    manager: MultiHeightManager<C>,
    current_height: u64,
    phase: Phase<C, B, E>,
}

impl<C, B, E> View for ConsensusLoop<C, B, E> {
    type V = LoopView<C, B, E>;

    closed spec fn view(&self) -> LoopView<C, B, E> {
        LoopView {
            height: self.current_height,
            validator_id: self.manager.spec_validator_id(),
            timeouts: self.manager.spec_timeouts(),
            cached: self.manager.cached(),
            limit: self.manager.cache_limit(),
            phase: match self.phase {
                Phase::Startup => PhaseView::Startup,
                Phase::Running(driver) => PhaseView::Running(driver@),
                Phase::Committing => PhaseView::Committing,
                Phase::Stopped => PhaseView::Stopped,
            },
        }
    }
}

/// Sets up the consensus loop of the node `validator_id`, which is to begin
/// at `start_height` once `consensus_delay` has passed. The first action is
/// that wait.
pub fn run_consensus<C, B, E>(
    start_height: u64,
    validator_id: ValidatorId,
    consensus_delay: Duration,
    timeouts: TimeoutsConfig,
) -> (started: (ConsensusLoop<C, B, E>, ConsensusAction<C, B, E>))
    ensures
        started.0.wf(),
        started.0@ == LoopView::<C, B, E>::initial(
            start_height,
            validator_id,
            timeouts,
            DEFAULT_CACHE_LIMIT as nat,
        ),
        started.1 == ConsensusAction::<C, B, E>::Sleep(consensus_delay),
{
    let manager = MultiHeightManager::new(validator_id, timeouts);
    proof {
        manager.lemma_wf();
    }
    let consensus = ConsensusLoop { manager, current_height: start_height, phase: Phase::Startup };
    (consensus, ConsensusAction::Sleep(consensus_delay))
}

impl<C, B, E> ConsensusLoop<C, B, E> {
    /// The loop is as its model says it should be.
    pub closed spec fn wf(&self) -> bool {
        &&& self@.wf()
        &&& self.manager.wf()
        &&& match self.phase {
            Phase::Running(driver) => driver.wf(),
            _ => true,
        }
    }

    /// What `wf` says, for callers.
    pub proof fn lemma_wf(&self)
        requires
            self.wf(),
        ensures
            self@.wf(),
    {
    }

    /// The height in work, or the first height before the work begins.
    pub fn current_height(&self) -> (height: u64)
        ensures
            height == self@.height,
    {
        self.current_height
    }

    /// What outlives the heights: this node's identity, its timeouts and its
    /// cache.
    pub fn manager(&self) -> (manager: &MultiHeightManager<C>)
        requires
            self.wf(),
        ensures
            manager.wf(),
            manager.cached() == self@.cached,
            manager.cache_limit() == self@.limit,
            manager.spec_validator_id() == self@.validator_id,
            manager.spec_timeouts() == self@.timeouts,
    {
        &self.manager
    }

    /// The driver of the height in work, while a height is in work.
    pub fn driver(&self) -> (driver: Option<&SingleHeightDriver<C, B, E>>)
        requires
            self.wf(),
        ensures
            match driver {
                Some(driver) => driver.wf() && self@.phase == PhaseView::Running(driver@),
                None => !(self@.phase is Running),
            },
    {
        match &self.phase {
            Phase::Running(driver) => Some(driver),
            _ => None,
        }
    }

    /// Whether the loop has ended.
    pub fn is_stopped(&self) -> (stopped: bool)
        ensures
            stopped == (self@.phase is Stopped),
    {
        match &self.phase {
            Phase::Stopped => true,
            _ => false,
        }
    }

    /// Whether the loop is handing a decision to the node.
    pub fn is_committing(&self) -> (committing: bool)
        ensures
            committing == (self@.phase is Committing),
    {
        match &self.phase {
            Phase::Committing => true,
            _ => false,
        }
    }

    /// Enters `height`.
    fn start_height(&mut self, height: u64, synced: bool) -> (action: ConsensusAction<C, B, E>)
        requires
            old(self).manager.wf(),
        ensures
            final(self).wf(),
            (final(self)@, action) == old(self)@.start_height(height, synced),
    {
        let driver = self.manager.run_height(height);
        proof {
            driver.lemma_wf();
            self.manager.lemma_wf();
        }
        self.current_height = height;
        self.phase = Phase::Running(driver);
        ConsensusAction::StartHeight {
            height,
            validator_id: self.manager.validator_id(),
            timeouts: self.manager.timeouts(),
            synced,
        }
    }

    /// Takes an event, at the time `now` on the loop's clock, and says what
    /// is to be done next.
    pub fn step(
        &mut self,
        event: ConsensusEvent<C, B, E>,
        now: Duration,
    ) -> (action: ConsensusAction<C, B, E>)
        requires
            old(self).wf(),
            old(self)@.admits(event),
        ensures
            final(self).wf(),
            (final(self)@, action) == old(self)@.step(event, now),
    {
        let mut phase = Phase::Stopped;
        core::mem::swap(&mut self.phase, &mut phase);
        match phase {
            Phase::Startup => {
                match event {
                    ConsensusEvent::Started => self.start_height(self.current_height, false),
                    _ => {
                        self.phase = Phase::Startup;
                        ConsensusAction::Continue
                    },
                }
            },
            Phase::Running(driver) => {
                let mut driver = driver;
                match event {
                    ConsensusEvent::Driver(event) => {
                        proof {
                            lemma_step_outcome(
                                driver@,
                                self.manager.cached(),
                                self.manager.cache_limit(),
                                event,
                                now,
                            );
                        }
                        let action = driver.step(&mut self.manager, event, now);
                        proof {
                            driver.lemma_wf();
                            self.manager.lemma_wf();
                        }
                        match action {
                            DriverAction::Finished => {
                                match driver.into_result() {
                                    Some(Ok(decision)) => {
                                        self.phase = Phase::Committing;
                                        ConsensusAction::DecisionReached(decision)
                                    },
                                    Some(Err(error)) => ConsensusAction::Fail(error),
                                    None => ConsensusAction::Continue,
                                }
                            },
                            DriverAction::HandleProposal(init, content, fin) => {
                                self.phase = Phase::Running(driver);
                                ConsensusAction::HandleProposal(init, content, fin)
                            },
                            DriverAction::HandleMessage(message) => {
                                self.phase = Phase::Running(driver);
                                ConsensusAction::HandleMessage(message)
                            },
                            DriverAction::HandleTask(task) => {
                                self.phase = Phase::Running(driver);
                                ConsensusAction::HandleTask(task)
                            },
                            DriverAction::Await(deadline) => {
                                self.phase = Phase::Running(driver);
                                ConsensusAction::Await(deadline)
                            },
                            DriverAction::ReportPeer => {
                                self.phase = Phase::Running(driver);
                                ConsensusAction::ReportPeer
                            },
                            DriverAction::Continue => {
                                self.phase = Phase::Running(driver);
                                ConsensusAction::Continue
                            },
                        }
                    },
                    ConsensusEvent::Sync(item) => {
                        match sync_height(self.current_height, item) {
                            None => {
                                self.phase = Phase::Running(driver);
                                ConsensusAction::Continue
                            },
                            Some(Err(error)) => ConsensusAction::Fail(error),
                            Some(Ok(reached)) => {
                                driver.abort();
                                let next = next_height(reached);
                                self.start_height(next, true)
                            },
                        }
                    },
                    _ => {
                        self.phase = Phase::Running(driver);
                        ConsensusAction::Continue
                    },
                }
            },
            Phase::Committing => {
                match event {
                    ConsensusEvent::DecisionDelivered(Ok(_)) => {
                        let next = next_height(self.current_height);
                        self.start_height(next, false)
                    },
                    ConsensusEvent::DecisionDelivered(Err(error)) => ConsensusAction::Fail(error),
                    _ => {
                        self.phase = Phase::Committing;
                        ConsensusAction::Continue
                    },
                }
            },
            Phase::Stopped => ConsensusAction::Continue,
        }
    }
}

} // verus!
