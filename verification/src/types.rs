//! The values that travel between the network, the consensus core and the
//! single-height machine.
//!
//! The core reads very little of them: the height of a message, whether it is
//! a proposal, and the delay of a task. Everything else is carried through
//! unchanged, so the payloads that only the embedding node understands are
//! type parameters: `C` is one chunk of a proposal's content, `B` a decided
//! block, `E` the event that a task delivers to the single-height machine.

use vstd::prelude::*;

verus! {

/// The number of nanoseconds in one second.
pub const NANOS_PER_SEC: u128 = 1_000_000_000;

/// The identity of a validator: the 32 bytes of its address.
#[derive(Clone, Copy, Debug, PartialEq, Eq, Hash, Default)]
pub struct ValidatorId(pub [u8; 32]);

/// The identity of a block: the 32 bytes of its hash.
#[derive(Clone, Copy, Debug, PartialEq, Eq, Hash, Default)]
pub struct BlockHash(pub [u8; 32]);

/// A span of time: whole seconds and a nanosecond part.
///
/// The same type is used for a delay and for a reading of the clock, which is
/// the time that has passed since the consensus loop was entered.
#[derive(Clone, Copy, Debug, PartialEq, Eq, Hash, Default)]
pub struct Duration {
    pub secs: u64,
    pub nanos: u32,
}

impl Duration {
    /// The span in nanoseconds.
    pub open spec fn total_nanos(self) -> nat {
        (self.secs * NANOS_PER_SEC + self.nanos) as nat
    }

    /// The span in nanoseconds. It always fits: the largest span is below 2^95.
    pub fn as_nanos(&self) -> (n: u128)
        ensures
            n == self.total_nanos(),
            n < 0x8000_0000_0000_0000_0000_0000u128,
    {
        let secs: u128 = self.secs as u128;
        let nanos: u128 = self.nanos as u128;
        secs * NANOS_PER_SEC + nanos
    }
}

/// The timeouts of the single-height machine. The core hands them to each
/// machine it starts and never looks inside.
#[derive(Clone, Copy, Debug, PartialEq, Eq, Default)]
pub struct TimeoutsConfig {
    pub proposal_timeout: Duration,
    pub prevote_timeout: Duration,
    pub precommit_timeout: Duration,
}

/// The two kinds of vote.
#[derive(Clone, Copy, Debug, PartialEq, Eq, Hash, Default)]
pub enum VoteType {
    #[default]
    Prevote,
    Precommit,
}

/// A prevote or a precommit.
#[derive(Clone, Copy, Debug, PartialEq, Eq, Hash, Default)]
pub struct Vote {
    pub vote_type: VoteType,
    pub height: u64,
    pub round: u32,
    pub block_hash: Option<BlockHash>,
    pub voter: ValidatorId,
}

/// A proposed block together with its content.
#[derive(Clone, Debug, PartialEq, Eq, Default)]
pub struct Proposal<C> {
    pub height: u64,
    pub round: u32,
    pub proposer: ValidatorId,
    pub transactions: Vec<C>,
    pub block_hash: BlockHash,
    pub valid_round: Option<u32>,
}

/// A message of the single-height protocol.
#[derive(Clone, Debug, PartialEq, Eq)]
pub enum ConsensusMessage<C> {
    Proposal(Proposal<C>),
    Vote(Vote),
}

impl<C> ConsensusMessage<C> {
    /// The height that the message belongs to.
    pub open spec fn spec_height(&self) -> u64 {
        match self {
            ConsensusMessage::Proposal(proposal) => proposal.height,
            ConsensusMessage::Vote(vote) => vote.height,
        }
    }

    /// The height that the message belongs to.
    pub fn height(&self) -> (h: u64)
        ensures
            h == self.spec_height(),
    {
        match self {
            ConsensusMessage::Proposal(proposal) => proposal.height,
            ConsensusMessage::Vote(vote) => vote.height,
        }
    }
}

/// What a proposal says about itself, apart from the block's content.
#[derive(Clone, Copy, Debug, PartialEq, Eq)]
pub struct ProposalInit {
    pub height: u64,
    pub round: u32,
    pub proposer: ValidatorId,
    pub valid_round: Option<u32>,
}

/// A received proposal on its way to the single-height machine, which takes
/// it in three parts.
#[derive(Clone, Debug, PartialEq, Eq)]
pub struct ProposalWrapper<C>(pub Proposal<C>);

impl<C> ProposalWrapper<C> {
    /// The metadata of a proposal.
    pub open spec fn spec_init(proposal: Proposal<C>) -> ProposalInit {
        ProposalInit {
            height: proposal.height,
            round: proposal.round,
            proposer: proposal.proposer,
            valid_round: proposal.valid_round,
        }
    }

    /// Splits the proposal into its metadata, the chunks of its content in
    /// the order in which they are to be streamed, and the hash that closes
    /// the stream.
    pub fn into_parts(self) -> (parts: (ProposalInit, Vec<C>, BlockHash))
        ensures
            parts.0 == Self::spec_init(self.0),
            parts.1 == self.0.transactions,
            parts.2 == self.0.block_hash,
    {
        let proposal = self.0;
        let init = ProposalInit {
            height: proposal.height,
            round: proposal.round,
            proposer: proposal.proposer,
            valid_round: proposal.valid_round,
        };
        (init, proposal.transactions, proposal.block_hash)
    }
}

/// The block agreed on at one height, with the precommits that justify it.
#[derive(Clone, Debug, PartialEq, Eq)]
pub struct Decision<B> {
    pub precommits: Vec<Vote>,
    pub block: B,
}

/// An event that the single-height machine wants delivered back to itself
/// once `duration` has passed.
#[derive(Clone, Debug, PartialEq, Eq)]
pub struct ShcTask<E> {
    pub duration: Duration,
    pub event: E,
}

/// What the single-height machine answers to anything it is given: the
/// decision of the height, or tasks to schedule.
#[derive(Clone, Debug, PartialEq, Eq)]
pub enum ShcReturn<B, E> {
    Tasks(Vec<ShcTask<E>>),
    Decision(Decision<B>),
}

/// The two ways in which the network can fail the consensus loop.
#[derive(Clone, Copy, Debug, PartialEq, Eq)]
pub enum NetworkFault {
    /// The stream of inbound messages has ended.
    ReceiverClosed,
    /// The peer that sent a malformed message could not be reported.
    ReportFailed,
}

/// Why the consensus loop has ended. No error is recovered from.
#[derive(Clone, Debug, PartialEq, Eq)]
pub enum ConsensusError {
    /// The network has failed the loop.
    InternalNetworkError(NetworkFault),
    /// An inbound message could not be parsed; the text says why.
    MessageConversionError(String),
    /// The stream of sync heights has ended.
    SyncError,
    /// The embedding node has failed a call.
    ContextError(String),
    /// The single-height machine has failed.
    SingleHeightError(String),
}

impl ConsensusError {
    /// The text of the error, as a spec-level string.
    pub open spec fn spec_message(&self) -> Seq<char> {
        match self {
            ConsensusError::InternalNetworkError(NetworkFault::ReceiverClosed) => {
                "NetworkReceiver should never be closed"@
            },
            ConsensusError::InternalNetworkError(NetworkFault::ReportFailed) => {
                "Failed to send report"@
            },
            ConsensusError::MessageConversionError(text) => text@,
            ConsensusError::SyncError => "Sync receiver closed"@,
            ConsensusError::ContextError(text) => text@,
            ConsensusError::SingleHeightError(text) => text@,
        }
    }

    /// The text of the error.
    pub fn message(&self) -> (text: String)
        ensures
            text@ == self.spec_message(),
    {
        match self {
            ConsensusError::InternalNetworkError(NetworkFault::ReceiverClosed) => {
                "NetworkReceiver should never be closed".to_owned()
            },
            ConsensusError::InternalNetworkError(NetworkFault::ReportFailed) => {
                "Failed to send report".to_owned()
            },
            ConsensusError::MessageConversionError(text) => text.clone(),
            ConsensusError::SyncError => "Sync receiver closed".to_owned(),
            ConsensusError::ContextError(text) => text.clone(),
            ConsensusError::SingleHeightError(text) => text.clone(),
        }
    }
}

} // verus!
