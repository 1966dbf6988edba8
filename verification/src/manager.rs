//! What outlives a height: the identity of this node, the timeouts of its
//! machines, and the cache of messages that came early.

use vstd::prelude::*;
use crate::cache::above;
use crate::cache::all_above;
use crate::cache::ascending;
use crate::cache::inhabited;
use crate::cache::lemma_above_keeps;
use crate::cache::lemma_with_message_ascending;
use crate::cache::lemma_with_message_total;
use crate::cache::lookup;
use crate::cache::total;
use crate::cache::with_message;
use crate::cache::Entries;
use crate::cache::HeightCache;
use crate::driver::SingleHeightDriver;
use crate::types::BlockHash;
use crate::types::ConsensusError;
use crate::types::ConsensusMessage;
use crate::types::ProposalInit;
use crate::types::ProposalWrapper;
use crate::types::TimeoutsConfig;
use crate::types::ValidatorId;

verus! {

/// The number of early messages that a manager keeps unless it is told
/// otherwise. A peer that floods the node with messages for far heights
/// fills the cache and is then ignored until the node catches up.
pub const DEFAULT_CACHE_LIMIT: usize = 4096;

/// The cached messages of a node, as a model.
pub type Cached<C> = Entries<ConsensusMessage<C>>;

/// Every cached message is kept under its own height.
pub open spec fn keyed<C>(cached: Cached<C>) -> bool {
    forall|i: int, k: int|
        0 <= i < cached.len() && 0 <= k < cached[i].1.len() ==> (
        #[trigger] cached[i].1[k]).spec_height() == cached[i].0
}

/// Every message of the list is for `height`.
pub open spec fn all_at<C>(messages: Seq<ConsensusMessage<C>>, height: u64) -> bool {
    forall|k: int| 0 <= k < messages.len() ==> (#[trigger] messages[k]).spec_height() == height
}

/// The cache after `message` was offered to it for `height`: with the
/// message where there is room, unchanged where there is none.
pub open spec fn offered<C>(
    cached: Cached<C>,
    limit: nat,
    height: u64,
    message: ConsensusMessage<C>,
) -> Cached<C> {
    if total(cached) < limit {
        with_message(cached, height, message)
    } else {
        cached
    }
}

/// Where a message goes that arrived while the node works on a height.
#[derive(Debug, PartialEq, Eq)]
pub enum Dispatch<C> {
    /// To the single-height machine, as a proposal in its three parts.
    Proposal(ProposalInit, Vec<C>, BlockHash),
    /// To the single-height machine, as it is.
    Message(ConsensusMessage<C>),
    /// Nowhere: the message was for another height. The machine is not
    /// called, and the height goes on with no progress and no new task.
    Nothing,
}

/// Where `message` goes while the node works on `height`.
pub open spec fn dispatch_of<C>(height: u64, message: ConsensusMessage<C>) -> Dispatch<C> {
    if message.spec_height() != height {
        Dispatch::Nothing
    } else {
        match message {
            ConsensusMessage::Proposal(proposal) => Dispatch::Proposal(
                ProposalWrapper::spec_init(proposal),
                proposal.transactions,
                proposal.block_hash,
            ),
            ConsensusMessage::Vote(_) => Dispatch::Message(message),
        }
    }
}

/// The cache after `message` arrived while the node works on `height`: a
/// message for a later height is offered to it, any other leaves it as it is.
pub open spec fn cached_after<C>(
    cached: Cached<C>,
    limit: nat,
    height: u64,
    message: ConsensusMessage<C>,
) -> Cached<C> {
    if message.spec_height() > height {
        offered(cached, limit, message.spec_height(), message)
    } else {
        cached
    }
}

/// All but the first entry of a keyed cache are keyed.
proof fn lemma_rest_keyed<C>(cached: Cached<C>)
    requires
        keyed(cached),
        cached.len() > 0,
    ensures
        keyed(cached.drop_first()),
{
    let rest = cached.drop_first();
    assert forall|i: int, k: int| 0 <= i < rest.len() && 0 <= k < rest[i].1.len() implies (
    #[trigger] rest[i].1[k]).spec_height() == rest[i].0 by {
        assert(rest[i] == cached[i + 1]);
    }
}

/// A message that is kept under its own height leaves the cache keyed.
pub proof fn lemma_with_message_keyed<C>(cached: Cached<C>, message: ConsensusMessage<C>)
    requires
        keyed(cached),
    ensures
        keyed(with_message(cached, message.spec_height(), message)),
    decreases cached.len(),
{
    let height = message.spec_height();
    let after = with_message(cached, height, message);
    if cached.len() == 0 || cached[0].0 > height {
        assert forall|i: int, k: int| 0 <= i < after.len() && 0 <= k < after[i].1.len() implies (
        #[trigger] after[i].1[k]).spec_height() == after[i].0 by {
            if i > 0 {
                assert(after[i] == cached[i - 1]);
            }
        }
    } else if cached[0].0 == height {
        assert forall|i: int, k: int| 0 <= i < after.len() && 0 <= k < after[i].1.len() implies (
        #[trigger] after[i].1[k]).spec_height() == after[i].0 by {
            if i > 0 {
                assert(after[i] == cached[i]);
            } else if k < cached[0].1.len() {
                assert(after[0].1[k] == cached[0].1[k]);
            }
        }
    } else {
        let rest = cached.drop_first();
        lemma_rest_keyed(cached);
        lemma_with_message_keyed(rest, message);
        let tail = with_message(rest, height, message);
        assert forall|i: int, k: int| 0 <= i < after.len() && 0 <= k < after[i].1.len() implies (
        #[trigger] after[i].1[k]).spec_height() == after[i].0 by {
            if i > 0 {
                assert(after[i] == tail[i - 1]);
            } else {
                assert(after[0] == cached[0]);
            }
        }
    }
}

/// A message for a height above `floor` leaves every entry above `floor`.
pub proof fn lemma_with_message_above<C>(
    cached: Cached<C>,
    height: u64,
    message: ConsensusMessage<C>,
    floor: u64,
)
    requires
        all_above(cached, floor),
        height > floor,
    ensures
        all_above(with_message(cached, height, message), floor),
    decreases cached.len(),
{
    let after = with_message(cached, height, message);
    if cached.len() == 0 || cached[0].0 > height {
        assert forall|i: int| 0 <= i < after.len() implies (#[trigger] after[i]).0 > floor by {
            if i > 0 {
                assert(after[i] == cached[i - 1]);
            }
        }
    } else if cached[0].0 == height {
        assert forall|i: int| 0 <= i < after.len() implies (#[trigger] after[i]).0 > floor by {
            if i > 0 {
                assert(after[i] == cached[i]);
            }
        }
    } else {
        let rest = cached.drop_first();
        assert forall|i: int| 0 <= i < rest.len() implies (#[trigger] rest[i]).0 > floor by {
            assert(rest[i] == cached[i + 1]);
        }
        lemma_with_message_above(rest, height, message, floor);
        let tail = with_message(rest, height, message);
        assert forall|i: int| 0 <= i < after.len() implies (#[trigger] after[i]).0 > floor by {
            if i > 0 {
                assert(after[i] == tail[i - 1]);
            } else {
                assert(after[0] == cached[0]);
            }
        }
    }
}

/// In a keyed cache the messages found for a height are all for that height.
pub proof fn lemma_lookup_keyed<C>(cached: Cached<C>, height: u64)
    requires
        keyed(cached),
    ensures
        all_at(lookup(cached, height), height),
    decreases cached.len(),
{
    if cached.len() > 0 && cached[0].0 != height {
        let rest = cached.drop_first();
        lemma_rest_keyed(cached);
        lemma_lookup_keyed(rest, height);
    }
}

/// What is left of a keyed cache above `current` is keyed.
pub proof fn lemma_above_keyed<C>(cached: Cached<C>, current: u64)
    requires
        keyed(cached),
    ensures
        keyed(above(cached, current)),
    decreases cached.len(),
{
    if cached.len() > 0 && cached[0].0 <= current {
        let rest = cached.drop_first();
        lemma_rest_keyed(cached);
        lemma_above_keyed(rest, current);
    }
}

/// The cache is in order: its heights ascend, none is without a message,
/// every message is kept under its own height, and the messages are no more
/// than `limit`.
pub open spec fn sound<C>(cached: Cached<C>, limit: nat) -> bool {
    &&& ascending(cached)
    &&& inhabited(cached)
    &&& keyed(cached)
    &&& total(cached) <= limit
}

/// A message that arrives leaves the cache in order, and leaves it above
/// the height in work where it was so.
pub proof fn lemma_cached_after<C>(
    cached: Cached<C>,
    limit: nat,
    height: u64,
    message: ConsensusMessage<C>,
)
    requires
        sound(cached, limit),
    ensures
        sound(cached_after(cached, limit, height, message), limit),
        all_above(cached, height) ==> all_above(
            cached_after(cached, limit, height, message),
            height,
        ),
{
    if message.spec_height() > height && total(cached) < limit {
        lemma_with_message_ascending(cached, message.spec_height(), message, 0);
        lemma_with_message_total(cached, message.spec_height(), message);
        lemma_with_message_keyed(cached, message);
        if all_above(cached, height) {
            lemma_with_message_above(cached, message.spec_height(), message, height);
        }
    }
}

/// Taking out the messages of a height leaves the cache in order and above
/// that height, and what is taken out is for that height.
pub proof fn lemma_drained<C>(cached: Cached<C>, limit: nat, height: u64)
    requires
        sound(cached, limit),
    ensures
        sound(above(cached, height), limit),
        all_above(above(cached, height), height),
        all_at(lookup(cached, height), height),
{
    lemma_above_keeps(cached, height);
    lemma_above_keyed(cached, height);
    lemma_lookup_keyed(cached, height);
}

/// The successor of a height.
///
/// Calls `starknet_api::block::BlockNumber::unchecked_next`, which adds one to
/// the number it holds and does not check the range: the largest height is
/// left out here.
#[verifier::external_body]
pub(crate) fn next_height(height: u64) -> (next: u64)
    requires
        height < u64::MAX,
    ensures
        next == height + 1,
{
    starknet_api::block::BlockNumber(height).unchecked_next().0
}

/// Runs consensus height after height, and keeps what is not part of any one
/// height: messages that came for a height the node has not reached.
#[derive(Debug)]
pub struct MultiHeightManager<C> {
    validator_id: ValidatorId,
    cached_messages: HeightCache<ConsensusMessage<C>>,
    timeouts: TimeoutsConfig,
}

impl<C> MultiHeightManager<C> {
    /// The identity under which this node votes.
    pub closed spec fn spec_validator_id(&self) -> ValidatorId {
        self.validator_id
    }

    /// The timeouts handed to each single-height machine.
    pub closed spec fn spec_timeouts(&self) -> TimeoutsConfig {
        self.timeouts
    }

    /// The cached messages, smallest height first.
    pub closed spec fn cached(&self) -> Cached<C> {
        self.cached_messages@
    }

    /// The largest number of messages that the cache keeps.
    pub closed spec fn cache_limit(&self) -> nat {
        self.cached_messages.spec_limit()
    }

    /// The cache is in order and within its limit, and every message in it is
    /// kept under its own height.
    pub closed spec fn wf(&self) -> bool {
        &&& self.cached_messages.wf()
        &&& keyed(self.cached())
    }

    /// What `wf` says, for callers.
    pub proof fn lemma_wf(&self)
        requires
            self.wf(),
        ensures
            sound(self.cached(), self.cache_limit()),
    {
        self.cached_messages.lemma_wf();
    }

    /// A manager with an empty cache of the default size.
    pub fn new(
        validator_id: ValidatorId,
        timeouts: TimeoutsConfig,
    ) -> (manager: MultiHeightManager<C>)
        ensures
            manager.wf(),
            manager.spec_validator_id() == validator_id,
            manager.spec_timeouts() == timeouts,
            manager.cached() == Cached::<C>::empty(),
            manager.cache_limit() == DEFAULT_CACHE_LIMIT,
    {
        Self::with_cache_limit(validator_id, timeouts, DEFAULT_CACHE_LIMIT)
    }

    /// A manager with an empty cache that keeps at most `limit` messages.
    pub fn with_cache_limit(
        validator_id: ValidatorId,
        timeouts: TimeoutsConfig,
        limit: usize,
    ) -> (manager: MultiHeightManager<C>)
        ensures
            manager.wf(),
            manager.spec_validator_id() == validator_id,
            manager.spec_timeouts() == timeouts,
            manager.cached() == Cached::<C>::empty(),
            manager.cache_limit() == limit,
    {
        MultiHeightManager { validator_id, cached_messages: HeightCache::new(limit), timeouts }
    }

    /// The identity under which this node votes.
    pub fn validator_id(&self) -> (id: ValidatorId)
        ensures
            id == self.spec_validator_id(),
    {
        self.validator_id
    }

    /// The timeouts handed to each single-height machine.
    pub fn timeouts(&self) -> (timeouts: TimeoutsConfig)
        ensures
            timeouts == self.spec_timeouts(),
    {
        self.timeouts
    }

    /// The number of messages in the cache.
    pub fn cached_len(&self) -> (count: usize)
        requires
            self.wf(),
        ensures
            count == total(self.cached()),
    {
        self.cached_messages.len()
    }

    /// The number of messages cached for `height`.
    pub fn cached_at(&self, height: u64) -> (count: usize)
        requires
            self.wf(),
        ensures
            count == lookup(self.cached(), height).len(),
    {
        self.cached_messages.count_at(height)
    }

    /// Begins the work on `height`: takes the messages that were cached for
    /// it, drops what was cached for earlier heights, and sets up the driver,
    /// which waits for the answer of the machine's start.
    pub fn run_height<B, E>(&mut self, height: u64) -> (driver: SingleHeightDriver<C, B, E>)
        requires
            old(self).wf(),
        ensures
            final(self).wf(),
            final(self).spec_validator_id() == old(self).spec_validator_id(),
            final(self).spec_timeouts() == old(self).spec_timeouts(),
            final(self).cache_limit() == old(self).cache_limit(),
            final(self).cached() == above(old(self).cached(), height),
            all_above(final(self).cached(), height),
            driver.wf(),
            driver@ == SingleHeightDriver::<C, B, E>::starting(
                height,
                lookup(old(self).cached(), height),
            ),
    {
        let buffer = self.get_current_height_messages(height);
        SingleHeightDriver::new(height, buffer)
    }

    /// Decides where `message` goes while the node works on `height`. A
    /// message for a later height is cached, if there is room; one for an
    /// earlier height is dropped; one for this height is for the machine.
    pub fn handle_message(
        &mut self,
        height: u64,
        message: ConsensusMessage<C>,
    ) -> (dispatch: Dispatch<C>)
        requires
            old(self).wf(),
        ensures
            final(self).wf(),
            final(self).spec_validator_id() == old(self).spec_validator_id(),
            final(self).spec_timeouts() == old(self).spec_timeouts(),
            final(self).cache_limit() == old(self).cache_limit(),
            dispatch == dispatch_of(height, message),
            final(self).cached() == cached_after(
                old(self).cached(),
                old(self).cache_limit(),
                height,
                message,
            ),
            all_above(old(self).cached(), height) ==> all_above(final(self).cached(), height),
    {
        let message_height: u64 = message.height();
        if message_height != height {
            if message_height > height {
                proof {
                    lemma_with_message_keyed(self.cached(), message);
                    if all_above(self.cached(), height) {
                        lemma_with_message_above(self.cached(), message_height, message, height);
                    }
                }
                self.cached_messages.insert(message_height, message);
            }
            return Dispatch::Nothing;
        }
        match message {
            ConsensusMessage::Proposal(proposal) => {
                let (init, content, fin) = ProposalWrapper(proposal).into_parts();
                Dispatch::Proposal(init, content, fin)
            },
            ConsensusMessage::Vote(vote) => Dispatch::Message(ConsensusMessage::Vote(vote)),
        }
    }

    /// Takes out of the cache the messages kept for `height`, in the order of
    /// their arrival. What was kept for earlier heights is dropped, what was
    /// kept for later heights stays.
    pub fn get_current_height_messages(
        &mut self,
        height: u64,
    ) -> (messages: Vec<ConsensusMessage<C>>)
        requires
            old(self).wf(),
        ensures
            final(self).wf(),
            final(self).spec_validator_id() == old(self).spec_validator_id(),
            final(self).spec_timeouts() == old(self).spec_timeouts(),
            final(self).cache_limit() == old(self).cache_limit(),
            messages@ == lookup(old(self).cached(), height),
            all_at(messages@, height),
            final(self).cached() == above(old(self).cached(), height),
            all_above(final(self).cached(), height),
    {
        proof {
            self.cached_messages.lemma_wf();
            lemma_drained(self.cached(), self.cache_limit(), height);
        }
        self.cached_messages.drain_equal(height)
    }
}

/// The next message from those that were cached for the height: the one that
/// was cached last. `None` says that the next message is to come from the
/// network.
pub fn next_message<C>(cached_messages: &mut Vec<ConsensusMessage<C>>) -> (message: Option<
    ConsensusMessage<C>,
>)
    ensures
        old(cached_messages)@.len() == 0 ==> message is None && final(cached_messages)@ == old(
            cached_messages,
        )@,
        old(cached_messages)@.len() > 0 ==> message == Some(old(cached_messages)@.last())
            && final(cached_messages)@ == old(cached_messages)@.drop_last(),
{
    cached_messages.pop()
}

/// What an item of the sync stream means to a node that works on `height`:
/// `None`, where it reports an earlier height and is passed over;
/// `Some(Ok(h))`, where it reports that the network has reached `h`, which is
/// `height` or later; the sync error, where the stream has ended.
pub open spec fn spec_sync_height(
    height: u64,
    item: Option<u64>,
) -> Option<Result<u64, ConsensusError>> {
    match item {
        None => Some(Err(ConsensusError::SyncError)),
        Some(reached) => if reached >= height {
            Some(Ok(reached))
        } else {
            None
        },
    }
}

/// Judges one item of the sync stream for a node that works on `height`.
pub fn sync_height(height: u64, item: Option<u64>) -> (outcome: Option<Result<u64, ConsensusError>>)
    ensures
        outcome == spec_sync_height(height, item),
{
    match item {
        None => Some(Err(ConsensusError::SyncError)),
        Some(reached) => {
            if reached >= height {
                Some(Ok(reached))
            } else {
                None
            }
        },
    }
}

} // verus!
