//! The work on one height.
//!
//! A driver stands between the single-height machine and the rest of the
//! world. It does not call the machine, read the network or sleep: whoever
//! runs it does, and tells the driver what came of it. For each such event the
//! driver says what is to be done next.
//!
//! A driver is used for one height and never again. It leaves the height with
//! the machine's decision, with an error, or because it was aborted.

use vstd::prelude::*;
use crate::cache::all_above;
use crate::manager::all_at;
use crate::manager::cached_after;
use crate::manager::dispatch_of;
use crate::manager::lemma_cached_after;
use crate::manager::next_message;
use crate::manager::sound;
use crate::manager::Cached;
use crate::manager::Dispatch;
use crate::manager::MultiHeightManager;
use crate::scheduler::has_ready;
use crate::scheduler::lemma_with_tasks_ordered;
use crate::scheduler::ordered;
use crate::scheduler::spec_next_deadline;
use crate::scheduler::with_tasks;
use crate::scheduler::Agenda;
use crate::scheduler::TaskScheduler;
use crate::types::BlockHash;
use crate::types::ConsensusError;
use crate::types::ConsensusMessage;
use crate::types::Decision;
use crate::types::Duration;
use crate::types::NetworkFault;
use crate::types::ProposalInit;
use crate::types::ShcReturn;
use crate::types::ShcTask;

verus! {

/// Where a height stands.
#[derive(Debug, PartialEq, Eq)]
pub enum HeightState<B> {
    /// The machine has been asked to start and has not answered yet.
    Starting,
    /// The machine takes messages and tasks.
    Running,
    /// The machine has decided. Nothing more happens at this height.
    Decided(Decision<B>),
    /// The height was given up because the network is past it. Nothing of
    /// it is used again.
    Aborted,
    /// The height has ended in an error, and the consensus loop with it.
    Failed(ConsensusError),
}

/// What a driver waits for.
#[derive(Debug, PartialEq, Eq)]
pub enum Awaiting {
    /// The answer of the machine to what it was given last.
    Machine,
    /// A message from the network, or the time of the next task.
    Input,
    /// Word on whether the sender of a malformed message could be reported.
    /// The text says why the message did not parse.
    Report(String),
}

/// What has happened, as a driver is told.
#[derive(Debug, PartialEq, Eq)]
pub enum DriverEvent<C, B, E> {
    /// The machine has answered.
    Machine(Result<ShcReturn<B, E>, ConsensusError>),
    /// The network has delivered a message, or a text that says why what it
    /// delivered is none; `None` where it has closed.
    Network(Option<Result<ConsensusMessage<C>, String>>),
    /// The wait for the next task has ended.
    Timer,
    /// The sender of the malformed message was reported, or could not be.
    Reported(bool),
}

/// What is to be done next, as a driver says.
#[derive(Debug, PartialEq, Eq)]
pub enum DriverAction<C, E> {
    /// Give the machine this proposal: its metadata, the chunks of its
    /// content in order, and the hash that ends the content.
    HandleProposal(ProposalInit, Vec<C>, BlockHash),
    /// Give the machine this message.
    HandleMessage(ConsensusMessage<C>),
    /// Give the machine a task that has come due.
    HandleTask(ShcTask<E>),
    /// Wait for the next message from the network, but no longer than until
    /// the clock reads this many nanoseconds; without a time, for as long as
    /// it takes.
    Await(Option<u128>),
    /// Report the peer that sent the malformed message.
    ReportPeer,
    /// The height is over: the driver holds its result.
    Finished,
    /// The event was not asked for and has changed nothing: go on with what
    /// was asked for last.
    Continue,
}

/// The model of a driver.
pub ghost struct DriverView<C, B, E> {
    /// The height that the driver works on.
    pub height: u64,
    /// Where the height stands.
    pub state: HeightState<B>,
    /// What the driver waits for.
    pub awaiting: Awaiting,
    /// The messages that were cached for the height and have not yet gone to
    /// the machine, in the order in which they came. The last goes first.
    pub buffer: Seq<ConsensusMessage<C>>,
    /// The pending tasks.
    pub agenda: Agenda<E>,
}

impl<C, B, E> DriverView<C, B, E> {
    /// The height is neither decided nor given up nor failed.
    pub open spec fn live(self) -> bool {
        self.state is Starting || self.state is Running
    }

    /// The tasks are in order, the buffered messages are for this height,
    /// and the network is waited for only once the buffer is empty.
    pub open spec fn wf(self) -> bool {
        &&& ordered(self.agenda)
        &&& all_at(self.buffer, self.height)
        &&& self.awaiting is Input ==> self.buffer.len() == 0
        &&& self.state is Starting ==> self.awaiting is Machine
    }

    /// The driver turns to its next message: the last of the buffer, and
    /// with an empty buffer to the network.
    pub open spec fn proceed(
        self,
        cached: Cached<C>,
        limit: nat,
    ) -> (Self, Cached<C>, DriverAction<C, E>)
        decreases self.buffer.len(), 0nat,
    {
        if self.buffer.len() == 0 {
            (
                DriverView { awaiting: Awaiting::Input, ..self },
                cached,
                DriverAction::Await(spec_next_deadline(self.agenda)),
            )
        } else {
            DriverView { buffer: self.buffer.drop_last(), ..self }.deliver(
                cached,
                limit,
                self.buffer.last(),
            )
        }
    }

    /// The driver has `message` in hand. One for this height goes to the
    /// machine. One for a later height is offered to the cache, one for an
    /// earlier height is dropped, and the driver turns to its next message.
    pub open spec fn deliver(self, cached: Cached<C>, limit: nat, message: ConsensusMessage<C>) -> (
        Self,
        Cached<C>,
        DriverAction<C, E>,
    )
        decreases self.buffer.len(), 1nat,
    {
        let cached = cached_after(cached, limit, self.height, message);
        match dispatch_of(self.height, message) {
            Dispatch::Proposal(init, content, fin) => (
                DriverView { awaiting: Awaiting::Machine, ..self },
                cached,
                DriverAction::HandleProposal(init, content, fin),
            ),
            Dispatch::Message(message) => (
                DriverView { awaiting: Awaiting::Machine, ..self },
                cached,
                DriverAction::HandleMessage(message),
            ),
            Dispatch::Nothing => self.proceed(cached, limit),
        }
    }

    /// The driver with its height ended in `error`.
    pub open spec fn failed(self, error: ConsensusError) -> Self {
        DriverView { state: HeightState::Failed(error), ..self }
    }

    /// The driver after `event`, at the time `now`; the cache after it; and
    /// what is to be done next.
    ///
    /// A driver whose height is over takes no event. A live driver takes the
    /// event that it waits for, and no other.
    pub open spec fn step(
        self,
        cached: Cached<C>,
        limit: nat,
        event: DriverEvent<C, B, E>,
        now: Duration,
    ) -> (Self, Cached<C>, DriverAction<C, E>) {
        if !self.live() {
            (self, cached, DriverAction::Continue)
        } else {
            match (self.awaiting, event) {
                (Awaiting::Machine, DriverEvent::Machine(Err(error))) => (
                    self.failed(error),
                    cached,
                    DriverAction::Finished,
                ),
                (Awaiting::Machine, DriverEvent::Machine(Ok(ShcReturn::Decision(decision)))) => (
                    DriverView { state: HeightState::Decided(decision), ..self },
                    cached,
                    DriverAction::Finished,
                ),
                (Awaiting::Machine, DriverEvent::Machine(Ok(ShcReturn::Tasks(tasks)))) => {
                    DriverView {
                        state: HeightState::Running,
                        agenda: with_tasks(self.agenda, tasks@, now),
                        ..self
                    }.proceed(cached, limit)
                },
                (Awaiting::Input, DriverEvent::Network(None)) => (
                    self.failed(ConsensusError::InternalNetworkError(NetworkFault::ReceiverClosed)),
                    cached,
                    DriverAction::Finished,
                ),
                (Awaiting::Input, DriverEvent::Network(Some(Err(text)))) => (
                    DriverView { awaiting: Awaiting::Report(text), ..self },
                    cached,
                    DriverAction::ReportPeer,
                ),
                (Awaiting::Input, DriverEvent::Network(Some(Ok(message)))) => self.deliver(
                    cached,
                    limit,
                    message,
                ),
                (Awaiting::Input, DriverEvent::Timer) => if has_ready(self.agenda, now) {
                    (
                        DriverView {
                            awaiting: Awaiting::Machine,
                            agenda: self.agenda.drop_first(),
                            ..self
                        },
                        cached,
                        DriverAction::HandleTask(self.agenda[0].1),
                    )
                } else {
                    (self, cached, DriverAction::Await(spec_next_deadline(self.agenda)))
                },
                (Awaiting::Report(text), DriverEvent::Reported(sent)) => (
                    DriverView { awaiting: Awaiting::Machine, ..self }.failed(
                        if sent {
                            ConsensusError::MessageConversionError(text)
                        } else {
                            ConsensusError::InternalNetworkError(NetworkFault::ReportFailed)
                        },
                    ),
                    cached,
                    DriverAction::Finished,
                ),
                _ => (self, cached, DriverAction::Continue),
            }
        }
    }

    /// The driver after its height was given up.
    pub open spec fn abort(self) -> Self {
        if self.live() {
            DriverView { state: HeightState::Aborted, ..self }
        } else {
            self
        }
    }

    /// How the height has ended, once it has: with the machine's decision or
    /// with an error. A height that is not over, or was given up, has neither.
    pub open spec fn result(self) -> Option<Result<Decision<B>, ConsensusError>> {
        match self.state {
            HeightState::Decided(decision) => Some(Ok(decision)),
            HeightState::Failed(error) => Some(Err(error)),
            _ => None,
        }
    }
}

/// Turning to the next message leaves the height where it stands, empties
/// the buffer or waits for the machine, and asks for something to be done.
pub proof fn lemma_proceed<C, B, E>(driver: DriverView<C, B, E>, cached: Cached<C>, limit: nat)
    ensures
        driver.proceed(cached, limit).0.state == driver.state,
        driver.proceed(cached, limit).0.height == driver.height,
        driver.proceed(cached, limit).0.agenda == driver.agenda,
        driver.proceed(cached, limit).0.awaiting is Input ==> driver.proceed(
            cached,
            limit,
        ).0.buffer.len() == 0,
        !(driver.proceed(cached, limit).0.awaiting is Report),
        !(driver.proceed(cached, limit).2 is Finished),
        !(driver.proceed(cached, limit).2 is Continue),
        driver.proceed(cached, limit).0.buffer.is_prefix_of(driver.buffer),
    decreases driver.buffer.len(), 0nat,
{
    if driver.buffer.len() > 0 {
        lemma_deliver(
            DriverView { buffer: driver.buffer.drop_last(), ..driver },
            cached,
            limit,
            driver.buffer.last(),
        );
    }
}

/// Dealing with a message leaves the height where it stands and asks for
/// something to be done.
pub proof fn lemma_deliver<C, B, E>(
    driver: DriverView<C, B, E>,
    cached: Cached<C>,
    limit: nat,
    message: ConsensusMessage<C>,
)
    ensures
        driver.deliver(cached, limit, message).0.state == driver.state,
        driver.deliver(cached, limit, message).0.height == driver.height,
        driver.deliver(cached, limit, message).0.agenda == driver.agenda,
        driver.deliver(cached, limit, message).0.awaiting is Input ==> driver.deliver(
            cached,
            limit,
            message,
        ).0.buffer.len() == 0,
        !(driver.deliver(cached, limit, message).0.awaiting is Report),
        !(driver.deliver(cached, limit, message).2 is Finished),
        !(driver.deliver(cached, limit, message).2 is Continue),
        driver.deliver(cached, limit, message).0.buffer.is_prefix_of(driver.buffer),
    decreases driver.buffer.len(), 1nat,
{
    if dispatch_of(driver.height, message) is Nothing {
        lemma_proceed(driver, cached_after(cached, limit, driver.height, message), limit);
    }
}

/// A step of a live driver ends the height exactly when it says so, and then
/// with a decision or an error. No step gives the height up, and none moves
/// the driver to another height.
pub proof fn lemma_step_outcome<C, B, E>(
    driver: DriverView<C, B, E>,
    cached: Cached<C>,
    limit: nat,
    event: DriverEvent<C, B, E>,
    now: Duration,
)
    ensures
        driver.step(cached, limit, event, now).0.height == driver.height,
        driver.live() ==> (driver.step(cached, limit, event, now).2 is Finished <==> !driver.step(
            cached,
            limit,
            event,
            now,
        ).0.live()),
        driver.live() ==> !(driver.step(cached, limit, event, now).0.state is Aborted),
{
    if driver.live() {
        match (driver.awaiting, event) {
            (Awaiting::Machine, DriverEvent::Machine(Ok(ShcReturn::Tasks(tasks)))) => {
                lemma_proceed(
                    DriverView {
                        state: HeightState::Running,
                        agenda: with_tasks(driver.agenda, tasks@, now),
                        ..driver
                    },
                    cached,
                    limit,
                );
            },
            (Awaiting::Input, DriverEvent::Network(Some(Ok(message)))) => {
                lemma_deliver(driver, cached, limit, message);
            },
            _ => {},
        }
    }
}

/// Turning to the next message leaves the cache in order, and above the
/// height of the driver where it was so.
pub proof fn lemma_proceed_cache<C, B, E>(
    driver: DriverView<C, B, E>,
    cached: Cached<C>,
    limit: nat,
)
    requires
        sound(cached, limit),
    ensures
        sound(driver.proceed(cached, limit).1, limit),
        all_above(cached, driver.height) ==> all_above(
            driver.proceed(cached, limit).1,
            driver.height,
        ),
    decreases driver.buffer.len(), 0nat,
{
    if driver.buffer.len() > 0 {
        lemma_deliver_cache(
            DriverView { buffer: driver.buffer.drop_last(), ..driver },
            cached,
            limit,
            driver.buffer.last(),
        );
    }
}

/// Dealing with a message leaves the cache in order, and above the height of
/// the driver where it was so.
pub proof fn lemma_deliver_cache<C, B, E>(
    driver: DriverView<C, B, E>,
    cached: Cached<C>,
    limit: nat,
    message: ConsensusMessage<C>,
)
    requires
        sound(cached, limit),
    ensures
        sound(driver.deliver(cached, limit, message).1, limit),
        all_above(cached, driver.height) ==> all_above(
            driver.deliver(cached, limit, message).1,
            driver.height,
        ),
    decreases driver.buffer.len(), 1nat,
{
    lemma_cached_after(cached, limit, driver.height, message);
    if dispatch_of(driver.height, message) is Nothing {
        lemma_proceed_cache(driver, cached_after(cached, limit, driver.height, message), limit);
    }
}

/// A step leaves the cache in order, and above the height of the driver
/// where it was so.
pub proof fn lemma_step_cache<C, B, E>(
    driver: DriverView<C, B, E>,
    cached: Cached<C>,
    limit: nat,
    event: DriverEvent<C, B, E>,
    now: Duration,
)
    requires
        sound(cached, limit),
    ensures
        sound(driver.step(cached, limit, event, now).1, limit),
        all_above(cached, driver.height) ==> all_above(
            driver.step(cached, limit, event, now).1,
            driver.height,
        ),
{
    if driver.live() {
        match (driver.awaiting, event) {
            (Awaiting::Machine, DriverEvent::Machine(Ok(ShcReturn::Tasks(tasks)))) => {
                lemma_proceed_cache(
                    DriverView {
                        state: HeightState::Running,
                        agenda: with_tasks(driver.agenda, tasks@, now),
                        ..driver
                    },
                    cached,
                    limit,
                );
            },
            (Awaiting::Input, DriverEvent::Network(Some(Ok(message)))) => {
                lemma_deliver_cache(driver, cached, limit, message);
            },
            _ => {},
        }
    }
}

/// A step leaves a driver in order.
pub proof fn lemma_step_wf<C, B, E>(
    driver: DriverView<C, B, E>,
    cached: Cached<C>,
    limit: nat,
    event: DriverEvent<C, B, E>,
    now: Duration,
)
    requires
        driver.wf(),
    ensures
        driver.step(cached, limit, event, now).0.wf(),
        driver.step(cached, limit, event, now).0.buffer.is_prefix_of(driver.buffer),
{
    let after = driver.step(cached, limit, event, now).0;
    if driver.live() {
        match (driver.awaiting, event) {
            (Awaiting::Machine, DriverEvent::Machine(Ok(ShcReturn::Tasks(tasks)))) => {
                lemma_with_tasks_ordered(driver.agenda, tasks@, now);
                lemma_proceed(
                    DriverView {
                        state: HeightState::Running,
                        agenda: with_tasks(driver.agenda, tasks@, now),
                        ..driver
                    },
                    cached,
                    limit,
                );
            },
            (Awaiting::Input, DriverEvent::Network(Some(Ok(message)))) => {
                lemma_deliver(driver, cached, limit, message);
            },
            (Awaiting::Input, DriverEvent::Timer) => {
                if has_ready(driver.agenda, now) {
                    let rest = driver.agenda.drop_first();
                    assert forall|i: int, j: int| 0 <= i < j < rest.len() implies rest[i].0
                        <= rest[j].0 by {
                        assert(rest[i] == driver.agenda[i + 1]);
                        assert(rest[j] == driver.agenda[j + 1]);
                    }
                }
            },
            _ => {},
        }
    }
    assert forall|k: int| 0 <= k < after.buffer.len() implies (
    #[trigger] after.buffer[k]).spec_height() == after.height by {
        assert(after.buffer[k] == driver.buffer[k]);
    }
}

/// The message that an action hands to the machine, if it hands one.
pub open spec fn handed<C, E>(action: DriverAction<C, E>) -> Option<Dispatch<C>> {
    match action {
        DriverAction::HandleProposal(init, content, fin) => Some(
            Dispatch::Proposal(init, content, fin),
        ),
        DriverAction::HandleMessage(message) => Some(Dispatch::Message(message)),
        _ => None,
    }
}

/// While a driver has buffered messages, a step hands the machine no message
/// but the last of them, which then leaves the buffer.
pub proof fn lemma_step_takes_from_buffer<C, B, E>(
    driver: DriverView<C, B, E>,
    cached: Cached<C>,
    limit: nat,
    event: DriverEvent<C, B, E>,
    now: Duration,
)
    requires
        driver.wf(),
        driver.buffer.len() > 0,
    ensures
        match handed(driver.step(cached, limit, event, now).2) {
            Some(dispatch) => dispatch == dispatch_of(driver.height, driver.buffer.last())
                && driver.step(cached, limit, event, now).0.buffer == driver.buffer.drop_last(),
            None => driver.step(cached, limit, event, now).0.buffer == driver.buffer,
        },
{
    if driver.live() {
        match (driver.awaiting, event) {
            (Awaiting::Machine, DriverEvent::Machine(Ok(ShcReturn::Tasks(tasks)))) => {
                assert(dispatch_of(driver.height, driver.buffer.last()) !is Nothing);
            },
            _ => {},
        }
    }
}

/// Events, each with the reading of the clock at which the driver is told.
pub type DriverTrace<C, B, E> = Seq<(DriverEvent<C, B, E>, Duration)>;

impl<C, B, E> DriverView<C, B, E> {
    /// The messages that the machine is handed, in their order, while the
    /// driver takes the events of `trace` one after the other.
    pub open spec fn deliveries(
        self,
        cached: Cached<C>,
        limit: nat,
        trace: DriverTrace<C, B, E>,
    ) -> Seq<Dispatch<C>>
        decreases trace.len(),
    {
        if trace.len() == 0 {
            Seq::empty()
        } else {
            let (next, cached, action) = self.step(cached, limit, trace[0].0, trace[0].1);
            let rest = next.deliveries(cached, limit, trace.drop_first());
            match handed(action) {
                Some(dispatch) => seq![dispatch] + rest,
                None => rest,
            }
        }
    }
}

/// Buffered messages go first.
///
/// Whatever happens to a driver, the messages that it hands to the machine
/// begin with those of its buffer, the last of the buffer first: a message
/// that comes from the network is handed over only after all of them.
pub proof fn lemma_buffered_messages_first<C, B, E>(
    driver: DriverView<C, B, E>,
    cached: Cached<C>,
    limit: nat,
    trace: DriverTrace<C, B, E>,
)
    requires
        driver.wf(),
    ensures
        forall|i: int|
            0 <= i < driver.deliveries(cached, limit, trace).len() && i < driver.buffer.len()
                ==> #[trigger] driver.deliveries(cached, limit, trace)[i] == dispatch_of(
                driver.height,
                driver.buffer[driver.buffer.len() - 1 - i],
            ),
    decreases trace.len(),
{
    if trace.len() > 0 && driver.buffer.len() > 0 {
        let (next, cached_next, action) = driver.step(cached, limit, trace[0].0, trace[0].1);
        let rest = next.deliveries(cached_next, limit, trace.drop_first());
        lemma_step_wf(driver, cached, limit, trace[0].0, trace[0].1);
        lemma_step_takes_from_buffer(driver, cached, limit, trace[0].0, trace[0].1);
        lemma_step_outcome(driver, cached, limit, trace[0].0, trace[0].1);
        lemma_buffered_messages_first(next, cached_next, limit, trace.drop_first());
        let all = driver.deliveries(cached, limit, trace);
        assert forall|i: int|
            0 <= i < all.len() && i < driver.buffer.len() implies #[trigger] all[i] == dispatch_of(
            driver.height,
            driver.buffer[driver.buffer.len() - 1 - i],
        ) by {
            match handed(action) {
                Some(dispatch) => {
                    if i > 0 {
                        assert(all[i] == rest[i - 1]);
                        assert(next.buffer[next.buffer.len() - 1 - (i - 1)]
                            == driver.buffer[driver.buffer.len() - 1 - i]);
                    }
                },
                None => {
                    assert(all[i] == rest[i]);
                },
            }
        }
    }
}

/// The work on one height.
#[derive(Debug)]
pub struct SingleHeightDriver<C, B, E> {
    height: u64,
    state: HeightState<B>,
    awaiting: Awaiting,
    buffer: Vec<ConsensusMessage<C>>,
    scheduler: TaskScheduler<E>,
}

impl<C, B, E> View for SingleHeightDriver<C, B, E> {
    type V = DriverView<C, B, E>;

    closed spec fn view(&self) -> DriverView<C, B, E> {
        DriverView {
            height: self.height,
            state: self.state,
            awaiting: self.awaiting,
            buffer: self.buffer@,
            agenda: self.scheduler@,
        }
    }
}

impl<C, B, E> SingleHeightDriver<C, B, E> {
    /// A driver at the beginning of `height` with `buffer` to work off.
    pub open spec fn starting(
        height: u64,
        buffer: Seq<ConsensusMessage<C>>,
    ) -> DriverView<C, B, E> {
        DriverView {
            height,
            state: HeightState::Starting,
            awaiting: Awaiting::Machine,
            buffer,
            agenda: Agenda::<E>::empty(),
        }
    }

    /// The driver is as its model says it should be.
    pub closed spec fn wf(&self) -> bool {
        &&& self@.wf()
        &&& self.scheduler.wf()
    }

    /// What `wf` says, for callers.
    pub proof fn lemma_wf(&self)
        requires
            self.wf(),
        ensures
            self@.wf(),
    {
    }

    /// A driver for `height` that has `buffer` to work off, the last message
    /// first, and waits for the answer of the machine's start.
    pub(crate) fn new(height: u64, buffer: Vec<ConsensusMessage<C>>) -> (driver: Self)
        requires
            all_at(buffer@, height),
        ensures
            driver.wf(),
            driver@ == Self::starting(height, buffer@),
    {
        SingleHeightDriver {
            height,
            state: HeightState::Starting,
            awaiting: Awaiting::Machine,
            buffer,
            scheduler: TaskScheduler::new(),
        }
    }

    /// The height that the driver works on.
    pub fn height(&self) -> (height: u64)
        ensures
            height == self@.height,
    {
        self.height
    }

    /// Where the height stands.
    pub fn state(&self) -> (state: &HeightState<B>)
        ensures
            *state == self@.state,
    {
        &self.state
    }

    /// The height is neither decided nor given up nor failed.
    pub fn is_live(&self) -> (live: bool)
        ensures
            live == self@.live(),
    {
        match &self.state {
            HeightState::Starting => true,
            HeightState::Running => true,
            _ => false,
        }
    }

    /// The number of cached messages that have not yet gone to the machine.
    pub fn buffered(&self) -> (count: usize)
        ensures
            count == self@.buffer.len(),
    {
        self.buffer.len()
    }

    /// The number of pending tasks.
    pub fn pending_tasks(&self) -> (count: usize)
        ensures
            count == self@.agenda.len(),
    {
        self.scheduler.len()
    }

    /// Gives the height up, unless it is over already.
    pub fn abort(&mut self)
        requires
            old(self).wf(),
        ensures
            final(self).wf(),
            final(self)@ == old(self)@.abort(),
    {
        if self.is_live() {
            self.state = HeightState::Aborted;
        }
    }

    /// How the height has ended, once it has.
    pub fn into_result(self) -> (result: Option<Result<Decision<B>, ConsensusError>>)
        ensures
            result == self@.result(),
    {
        match self.state {
            HeightState::Decided(decision) => Some(Ok(decision)),
            HeightState::Failed(error) => Some(Err(error)),
            _ => None,
        }
    }

    /// Turns to the next message: the last of the buffer, and with an empty
    /// buffer to the network.
    fn proceed(&mut self, manager: &mut MultiHeightManager<C>) -> (action: DriverAction<C, E>)
        requires
            old(self).wf(),
            old(manager).wf(),
            !(old(self)@.state is Starting),
        ensures
            final(self).wf(),
            final(manager).wf(),
            final(manager).spec_validator_id() == old(manager).spec_validator_id(),
            final(manager).spec_timeouts() == old(manager).spec_timeouts(),
            final(manager).cache_limit() == old(manager).cache_limit(),
            (final(self)@, final(manager).cached(), action) == old(self)@.proceed(
                old(manager).cached(),
                old(manager).cache_limit(),
            ),
            all_above(old(manager).cached(), old(self)@.height) ==> all_above(
                final(manager).cached(),
                old(self)@.height,
            ),
    {
        loop
            invariant
                self.wf(),
                manager.wf(),
                manager.spec_validator_id() == old(manager).spec_validator_id(),
                manager.spec_timeouts() == old(manager).spec_timeouts(),
                manager.cache_limit() == old(manager).cache_limit(),
                self@.height == old(self)@.height,
                !(self@.state is Starting),
                self@.proceed(manager.cached(), manager.cache_limit()) == old(self)@.proceed(
                    old(manager).cached(),
                    old(manager).cache_limit(),
                ),
                all_above(old(manager).cached(), old(self)@.height) ==> all_above(
                    manager.cached(),
                    old(self)@.height,
                ),
            decreases self.buffer.len(),
        {
            let ghost before = self@;
            match next_message(&mut self.buffer) {
                None => {
                    self.awaiting = Awaiting::Input;
                    return DriverAction::Await(self.scheduler.next_deadline());
                },
                Some(message) => {
                    match manager.handle_message(self.height, message) {
                        Dispatch::Proposal(init, content, fin) => {
                            self.awaiting = Awaiting::Machine;
                            return DriverAction::HandleProposal(init, content, fin);
                        },
                        Dispatch::Message(message) => {
                            self.awaiting = Awaiting::Machine;
                            return DriverAction::HandleMessage(message);
                        },
                        Dispatch::Nothing => {},
                    }
                },
            }
        }
    }

    /// Deals with a message from the network.
    fn deliver(
        &mut self,
        manager: &mut MultiHeightManager<C>,
        message: ConsensusMessage<C>,
    ) -> (action: DriverAction<C, E>)
        requires
            old(self).wf(),
            old(manager).wf(),
            !(old(self)@.state is Starting),
        ensures
            final(self).wf(),
            final(manager).wf(),
            final(manager).spec_validator_id() == old(manager).spec_validator_id(),
            final(manager).spec_timeouts() == old(manager).spec_timeouts(),
            final(manager).cache_limit() == old(manager).cache_limit(),
            (final(self)@, final(manager).cached(), action) == old(self)@.deliver(
                old(manager).cached(),
                old(manager).cache_limit(),
                message,
            ),
            all_above(old(manager).cached(), old(self)@.height) ==> all_above(
                final(manager).cached(),
                old(self)@.height,
            ),
    {
        match manager.handle_message(self.height, message) {
            Dispatch::Proposal(init, content, fin) => {
                self.awaiting = Awaiting::Machine;
                DriverAction::HandleProposal(init, content, fin)
            },
            Dispatch::Message(message) => {
                self.awaiting = Awaiting::Machine;
                DriverAction::HandleMessage(message)
            },
            Dispatch::Nothing => self.proceed(manager),
        }
    }

    /// Whether the driver waits for the machine.
    fn awaits_machine(&self) -> (yes: bool)
        ensures
            yes == (self@.awaiting is Machine),
    {
        match &self.awaiting {
            Awaiting::Machine => true,
            _ => false,
        }
    }

    /// Whether the driver waits for the network or a task.
    fn awaits_input(&self) -> (yes: bool)
        ensures
            yes == (self@.awaiting is Input),
    {
        match &self.awaiting {
            Awaiting::Input => true,
            _ => false,
        }
    }

    /// Takes an event, at the time `now` on the loop's clock, and says what
    /// is to be done next. A message for a later height goes to the cache of
    /// `manager`.
    pub fn step(
        &mut self,
        manager: &mut MultiHeightManager<C>,
        event: DriverEvent<C, B, E>,
        now: Duration,
    ) -> (action: DriverAction<C, E>)
        requires
            old(self).wf(),
            old(manager).wf(),
        ensures
            final(self).wf(),
            final(manager).wf(),
            final(manager).spec_validator_id() == old(manager).spec_validator_id(),
            final(manager).spec_timeouts() == old(manager).spec_timeouts(),
            final(manager).cache_limit() == old(manager).cache_limit(),
            (final(self)@, final(manager).cached(), action) == old(self)@.step(
                old(manager).cached(),
                old(manager).cache_limit(),
                event,
                now,
            ),
            all_above(old(manager).cached(), old(self)@.height) ==> all_above(
                final(manager).cached(),
                old(self)@.height,
            ),
    {
        if !self.is_live() {
            return DriverAction::Continue;
        }
        match event {
            DriverEvent::Machine(answer) => {
                if !self.awaits_machine() {
                    return DriverAction::Continue;
                }
                match answer {
                    Err(error) => {
                        self.state = HeightState::Failed(error);
                        DriverAction::Finished
                    },
                    Ok(ShcReturn::Decision(decision)) => {
                        self.state = HeightState::Decided(decision);
                        DriverAction::Finished
                    },
                    Ok(ShcReturn::Tasks(tasks)) => {
                        proof {
                            self.scheduler.lemma_wf();
                            lemma_with_tasks_ordered(self@.agenda, tasks@, now);
                        }
                        self.state = HeightState::Running;
                        self.scheduler.push_all(tasks, now);
                        self.proceed(manager)
                    },
                }
            },
            DriverEvent::Network(item) => {
                if !self.awaits_input() {
                    return DriverAction::Continue;
                }
                match item {
                    None => {
                        self.state = HeightState::Failed(
                            ConsensusError::InternalNetworkError(NetworkFault::ReceiverClosed),
                        );
                        DriverAction::Finished
                    },
                    Some(Err(text)) => {
                        self.awaiting = Awaiting::Report(text);
                        DriverAction::ReportPeer
                    },
                    Some(Ok(message)) => self.deliver(manager, message),
                }
            },
            DriverEvent::Timer => {
                if !self.awaits_input() {
                    return DriverAction::Continue;
                }
                match self.scheduler.next_ready(now) {
                    Some(task) => {
                        self.awaiting = Awaiting::Machine;
                        DriverAction::HandleTask(task)
                    },
                    None => DriverAction::Await(self.scheduler.next_deadline()),
                }
            },
            DriverEvent::Reported(sent) => {
                let mut awaited = Awaiting::Machine;
                core::mem::swap(&mut self.awaiting, &mut awaited);
                match awaited {
                    Awaiting::Report(text) => {
                        self.state = HeightState::Failed(
                            if sent {
                                ConsensusError::MessageConversionError(text)
                            } else {
                                ConsensusError::InternalNetworkError(NetworkFault::ReportFailed)
                            },
                        );
                        DriverAction::Finished
                    },
                    other => {
                        self.awaiting = other;
                        DriverAction::Continue
                    },
                }
            },
        }
    }
}

} // verus!
