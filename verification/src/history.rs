//! What holds of every run of the consensus loop.
//!
//! A run is told as a history: the events that the loop takes, one after the
//! other, each with the reading of the clock at which it takes it. The laws
//! below speak of every history that does not take the loop past the largest
//! height there is.

use vstd::prelude::*;
use crate::consensus::lemma_step_wf;
use crate::consensus::ConsensusAction;
use crate::consensus::ConsensusEvent;
use crate::consensus::LoopView;
use crate::driver::DriverEvent;
use crate::types::Decision;
use crate::types::Duration;
use crate::types::ShcReturn;
use crate::types::TimeoutsConfig;
use crate::types::ValidatorId;

verus! {

/// Events, each with the reading of the clock at which the loop is told.
pub type History<C, B, E> = Seq<(ConsensusEvent<C, B, E>, Duration)>;

/// No event of the history takes the loop past the largest height.
pub open spec fn admits_all<C, B, E>(start: LoopView<C, B, E>, history: History<C, B, E>) -> bool
    decreases history.len(),
{
    history.len() == 0 || (start.admits(history[0].0) && admits_all(
        start.step(history[0].0, history[0].1).0,
        history.drop_first(),
    ))
}

/// The loop after the history.
pub open spec fn after<C, B, E>(
    start: LoopView<C, B, E>,
    history: History<C, B, E>,
) -> LoopView<C, B, E>
    decreases history.len(),
{
    if history.len() == 0 {
        start
    } else {
        after(start.step(history[0].0, history[0].1).0, history.drop_first())
    }
}

/// The heights whose decision the loop hands to the node in the course of
/// the history, in the order in which it does.
pub open spec fn decided_heights<C, B, E>(
    start: LoopView<C, B, E>,
    history: History<C, B, E>,
) -> Seq<u64>
    decreases history.len(),
{
    if history.len() == 0 {
        Seq::empty()
    } else {
        let (next, action) = start.step(history[0].0, history[0].1);
        let rest = decided_heights(next, history.drop_first());
        if action is DecisionReached {
            seq![start.height] + rest
        } else {
            rest
        }
    }
}

/// The heights that the loop begins in the course of the history, in the
/// order in which it does. For each of them a driver is made.
pub open spec fn started_heights<C, B, E>(
    start: LoopView<C, B, E>,
    history: History<C, B, E>,
) -> Seq<u64>
    decreases history.len(),
{
    if history.len() == 0 {
        Seq::empty()
    } else {
        let (next, action) = start.step(history[0].0, history[0].1);
        let rest = started_heights(next, history.drop_first());
        match action {
            ConsensusAction::StartHeight { height, .. } => seq![height] + rest,
            _ => rest,
        }
    }
}

/// How often the loop leaves a height for a sync in the course of the
/// history.
pub open spec fn syncs<C, B, E>(start: LoopView<C, B, E>, history: History<C, B, E>) -> nat
    decreases history.len(),
{
    if history.len() == 0 {
        0
    } else {
        let (next, action) = start.step(history[0].0, history[0].1);
        let rest = syncs(next, history.drop_first());
        match action {
            ConsensusAction::StartHeight { synced: true, .. } => 1 + rest,
            _ => rest,
        }
    }
}

/// The heights grow strictly.
pub open spec fn ascending(heights: Seq<u64>) -> bool {
    forall|i: int, j: int| 0 <= i < j < heights.len() ==> heights[i] < heights[j]
}

/// No height is below `floor`.
pub open spec fn from_height(heights: Seq<u64>, floor: int) -> bool {
    forall|i: int| 0 <= i < heights.len() ==> floor <= #[trigger] heights[i]
}

/// A height before heights that ascend from above it makes an ascending
/// list that begins with it.
proof fn lemma_one_more(first: u64, rest: Seq<u64>)
    requires
        ascending(rest),
        from_height(rest, first + 1),
    ensures
        ascending(seq![first] + rest),
        from_height(seq![first] + rest, first as int),
{
    let all = seq![first] + rest;
    assert forall|i: int, j: int| 0 <= i < j < all.len() implies all[i] < all[j] by {
        assert(all[j] == rest[j - 1]);
        if i > 0 {
            assert(all[i] == rest[i - 1]);
        }
    }
    assert forall|i: int| 0 <= i < all.len() implies first <= #[trigger] all[i] by {
        if i > 0 {
            assert(all[i] == rest[i - 1]);
        }
    }
}

/// The height whose decision the loop hands over next, if nothing but
/// decisions moves it on.
pub open spec fn next_to_decide<C, B, E>(start: LoopView<C, B, E>) -> int {
    if start.phase is Committing {
        start.height + 1
    } else {
        start.height as int
    }
}

/// Heights are decided in ascending order.
///
/// The heights whose decisions the loop hands to the node grow strictly,
/// and none is below the height at which the loop stands. Once the loop has
/// handed over the decision of a height, or has ended, all that follow are
/// above that height.
pub proof fn lemma_decisions_ascend<C, B, E>(start: LoopView<C, B, E>, history: History<C, B, E>)
    requires
        admits_all(start, history),
    ensures
        ascending(decided_heights(start, history)),
        from_height(decided_heights(start, history), start.height as int),
        start.phase is Committing || start.phase is Stopped ==> from_height(
            decided_heights(start, history),
            start.height + 1,
        ),
    decreases history.len(),
{
    if history.len() > 0 {
        let (next, action) = start.step(history[0].0, history[0].1);
        lemma_decisions_ascend(next, history.drop_first());
        if action is DecisionReached {
            assert(next.phase is Committing && next.height == start.height);
            lemma_one_more(start.height, decided_heights(next, history.drop_first()));
        } else {
            assert(start.height <= next.height);
        }
    }
}

/// Without a sync, heights are decided one by one.
///
/// In a history in which the loop never leaves a height for a sync, the
/// decisions that it hands over are those of consecutive heights, from the
/// height at which it stands: from the first height, where the history is
/// that of a loop from its beginning.
pub proof fn lemma_decisions_consecutive<C, B, E>(
    start: LoopView<C, B, E>,
    history: History<C, B, E>,
)
    requires
        admits_all(start, history),
        syncs(start, history) == 0,
    ensures
        forall|i: int|
            0 <= i < decided_heights(start, history).len() ==> #[trigger] decided_heights(
                start,
                history,
            )[i] == next_to_decide(start) + i,
        start.phase is Stopped ==> decided_heights(start, history).len() == 0,
    decreases history.len(),
{
    if history.len() > 0 {
        let (next, action) = start.step(history[0].0, history[0].1);
        let rest = decided_heights(next, history.drop_first());
        let all = decided_heights(start, history);
        lemma_decisions_consecutive(next, history.drop_first());
        if action is DecisionReached {
            assert(next.phase is Committing && next.height == start.height);
            assert forall|i: int| 0 <= i < all.len() implies #[trigger] all[i] == next_to_decide(
                start,
            ) + i by {
                if i > 0 {
                    assert(all[i] == rest[i - 1]);
                }
            }
        } else {
            assert(next.phase is Stopped || next_to_decide(next) == next_to_decide(start));
        }
    }
}

/// No height is begun twice.
///
/// The heights that the loop begins grow strictly, so a driver is made for
/// a height at most once. None is below the height at which the loop stands,
/// and once the loop has begun that height, all that follow are above it.
pub proof fn lemma_heights_begin_once<C, B, E>(
    start: LoopView<C, B, E>,
    history: History<C, B, E>,
)
    requires
        admits_all(start, history),
    ensures
        ascending(started_heights(start, history)),
        from_height(started_heights(start, history), start.height as int),
        !(start.phase is Startup) ==> from_height(
            started_heights(start, history),
            start.height + 1,
        ),
    decreases history.len(),
{
    if history.len() > 0 {
        let (next, action) = start.step(history[0].0, history[0].1);
        lemma_heights_begin_once(next, history.drop_first());
        match action {
            ConsensusAction::StartHeight { height, .. } => {
                assert(next.phase is Running && next.height == height);
                assert(start.height <= height);
                assert(!(start.phase is Startup) ==> start.height < height);
                lemma_one_more(height, started_heights(next, history.drop_first()));
            },
            _ => {
                assert(start.height <= next.height);
                assert(next.phase is Startup ==> start.phase is Startup);
            },
        }
    }
}

/// A sync ends a height that has not been decided.
///
/// While a height is in work, word from the sync stream that the network has
/// reached that height or a later one has the loop begin the height after the
/// one reported, and count a sync. The decision of the height that was in
/// work is not handed over then, nor ever after.
pub proof fn lemma_sync_preempts<C, B, E>(
    start: LoopView<C, B, E>,
    reached: u64,
    now: Duration,
    history: History<C, B, E>,
)
    requires
        start.phase is Running,
        start.height <= reached < u64::MAX,
        admits_all(start.step(ConsensusEvent::Sync(Some(reached)), now).0, history),
    ensures
        start.step(ConsensusEvent::Sync(Some(reached)), now) == start.start_height(
            (reached + 1) as u64,
            true,
        ),
        start.step(ConsensusEvent::Sync(Some(reached)), now).0.height == reached + 1,
        from_height(
            decided_heights(start.step(ConsensusEvent::Sync(Some(reached)), now).0, history),
            start.height + 1,
        ),
{
    lemma_decisions_ascend(start.step(ConsensusEvent::Sync(Some(reached)), now).0, history);
}

/// A sync to an earlier height changes nothing.
pub proof fn lemma_stale_sync_ignored<C, B, E>(
    start: LoopView<C, B, E>,
    reached: u64,
    now: Duration,
)
    requires
        reached < start.height,
    ensures
        start.step(ConsensusEvent::Sync(Some(reached)), now) == (
            start,
            ConsensusAction::<C, B, E>::Continue,
        ),
{
}

/// A decision is handed over before the height moves on.
///
/// When the machine answers with a decision, the loop hands over that
/// decision and stays at its height. From there it moves to the next height
/// when the node has taken the decision. When the node has failed to, the
/// loop ends at the height of the decision with the node's error, and stays
/// there whatever follows.
pub proof fn lemma_decision_before_advance<C, B, E>(
    start: LoopView<C, B, E>,
    event: ConsensusEvent<C, B, E>,
    now: Duration,
    history: History<C, B, E>,
)
    requires
        start.wf(),
    ensures
        start.step(event, now).1 is DecisionReached ==> {
            &&& start.phase is Running
            &&& start.step(event, now).0.phase is Committing
            &&& start.step(event, now).0.height == start.height
        },
        start.phase is Running && start.phase->Running_0.awaiting is Machine ==> forall|
            decision: Decision<B>,
        |
            event == ConsensusEvent::<C, B, E>::Driver(
                DriverEvent::Machine(Ok(ShcReturn::Decision(decision))),
            ) ==> start.step(event, now).1 == ConsensusAction::<C, B, E>::DecisionReached(decision),
        start.phase is Committing ==> match event {
            ConsensusEvent::DecisionDelivered(Ok(_)) => start.step(event, now)
                == start.start_height((start.height + 1) as u64, false),
            ConsensusEvent::DecisionDelivered(Err(error)) => {
                &&& start.step(event, now) == start.stop(error)
                &&& after(start.step(event, now).0, history) == start.step(event, now).0
            },
            _ => start.step(event, now) == (start, ConsensusAction::<C, B, E>::Continue),
        },
        start.step(event, now).0.height != start.height ==> {
            ||| start.phase is Committing && event is DecisionDelivered
            ||| start.phase is Running && event is Sync
        },
{
    if start.phase is Committing {
        if let ConsensusEvent::DecisionDelivered(Err(_)) = event {
            lemma_stopped_stays(start.step(event, now).0, history);
        }
    }
}

/// The loop is in order at every point of every history.
///
/// Whatever happens, nothing is cached for the height in work or for an
/// earlier one, the cache is ascending, keyed by the heights of its messages
/// and within its limit, and the driver of the height in work waits for the
/// network only with an empty buffer.
pub proof fn lemma_always_in_order<C, B, E>(start: LoopView<C, B, E>, history: History<C, B, E>)
    requires
        start.wf(),
    ensures
        after(start, history).wf(),
    decreases history.len(),
{
    if history.len() > 0 {
        lemma_step_wf(start, history[0].0, history[0].1);
        lemma_always_in_order(start.step(history[0].0, history[0].1).0, history.drop_first());
    }
}

/// A loop is in order from its beginning on.
pub proof fn lemma_in_order_from_the_beginning<C, B, E>(
    start_height: u64,
    validator_id: ValidatorId,
    timeouts: TimeoutsConfig,
    limit: nat,
    history: History<C, B, E>,
)
    ensures
        after(
            LoopView::<C, B, E>::initial(start_height, validator_id, timeouts, limit),
            history,
        ).wf(),
{
    lemma_always_in_order(
        LoopView::<C, B, E>::initial(start_height, validator_id, timeouts, limit),
        history,
    );
}

/// A loop that has ended stays as it is.
pub proof fn lemma_stopped_stays<C, B, E>(start: LoopView<C, B, E>, history: History<C, B, E>)
    requires
        start.phase is Stopped,
    ensures
        after(start, history) == start,
    decreases history.len(),
{
    if history.len() > 0 {
        lemma_stopped_stays(start, history.drop_first());
    }
}

} // verus!
