//! The timed tasks of one height.
//!
//! The single-height machine hands out tasks that are to come back to it
//! after a delay. The scheduler keeps them by the time at which each is due,
//! as read on the clock of the consensus loop, and gives them back earliest
//! first. Tasks that are due at the same time come back in the order in which
//! they were pushed.

use vstd::prelude::*;
use crate::types::Duration;
use crate::types::ShcTask;

verus! {

/// The model of a scheduler: each pending task with the time at which it is
/// due, in nanoseconds on the loop's clock, earliest first.
pub type Agenda<E> = Seq<(u128, ShcTask<E>)>;

/// No task stands before one that is due earlier.
pub open spec fn ordered<E>(agenda: Agenda<E>) -> bool {
    forall|i: int, j: int| 0 <= i < j < agenda.len() ==> agenda[i].0 <= agenda[j].0
}

/// The time at which a task is due that is pushed at `now` with `delay`.
pub open spec fn due_time(now: Duration, delay: Duration) -> u128 {
    (now.total_nanos() + delay.total_nanos()) as u128
}

/// The agenda with one more task: behind every task that is due no later,
/// before every task that is due later.
pub open spec fn with_task<E>(agenda: Agenda<E>, due: u128, task: ShcTask<E>) -> Agenda<E>
    decreases agenda.len(),
{
    if agenda.len() == 0 || agenda[0].0 > due {
        seq![(due, task)] + agenda
    } else {
        seq![agenda[0]] + with_task(agenda.drop_first(), due, task)
    }
}

/// The agenda with all of `tasks`, pushed one after the other at `now`.
pub open spec fn with_tasks<E>(
    agenda: Agenda<E>,
    tasks: Seq<ShcTask<E>>,
    now: Duration,
) -> Agenda<E>
    decreases tasks.len(),
{
    if tasks.len() == 0 {
        agenda
    } else {
        with_tasks(
            with_task(agenda, due_time(now, tasks[0].duration), tasks[0]),
            tasks.drop_first(),
            now,
        )
    }
}

/// The new task stands at the first place whose task is due later.
proof fn lemma_with_task_at<E>(agenda: Agenda<E>, due: u128, task: ShcTask<E>, at: int)
    requires
        0 <= at <= agenda.len(),
        forall|i: int| 0 <= i < at ==> (#[trigger] agenda[i]).0 <= due,
        at < agenda.len() ==> agenda[at].0 > due,
    ensures
        with_task(agenda, due, task) == agenda.insert(at, (due, task)),
    decreases at,
{
    if at == 0 {
        assert(seq![(due, task)] + agenda == agenda.insert(0, (due, task)));
    } else {
        let rest = agenda.drop_first();
        assert(agenda[0].0 <= due);
        assert forall|i: int| 0 <= i < at - 1 implies (#[trigger] rest[i]).0 <= due by {
            assert(rest[i] == agenda[i + 1]);
        }
        if at < agenda.len() {
            assert(rest[at - 1] == agenda[at]);
        }
        lemma_with_task_at(rest, due, task, at - 1);
        assert(seq![agenda[0]] + rest.insert(at - 1, (due, task)) == agenda.insert(
            at,
            (due, task),
        ));
    }
}

/// Pushing a task keeps the agenda in order and makes it one longer.
pub proof fn lemma_with_task_ordered<E>(agenda: Agenda<E>, due: u128, task: ShcTask<E>)
    requires
        ordered(agenda),
    ensures
        ordered(with_task(agenda, due, task)),
        with_task(agenda, due, task).len() == agenda.len() + 1,
    decreases agenda.len(),
{
    let after = with_task(agenda, due, task);
    if agenda.len() == 0 || agenda[0].0 > due {
        assert forall|i: int, j: int| 0 <= i < j < after.len() implies after[i].0 <= after[j].0 by {
            if i > 0 {
                assert(after[i] == agenda[i - 1]);
            }
            assert(after[j] == agenda[j - 1]);
            if j > 1 {
                assert(agenda[0].0 <= agenda[j - 1].0);
            }
        }
    } else {
        let rest = agenda.drop_first();
        assert(ordered(rest)) by {
            assert forall|i: int, j: int| 0 <= i < j < rest.len() implies rest[i].0
                <= rest[j].0 by {
                assert(rest[i] == agenda[i + 1]);
                assert(rest[j] == agenda[j + 1]);
            }
        }
        lemma_with_task_ordered(rest, due, task);
        lemma_with_task_floor(rest, due, task, agenda[0].0);
        let tail = with_task(rest, due, task);
        assert forall|i: int, j: int| 0 <= i < j < after.len() implies after[i].0 <= after[j].0 by {
            assert(after[j] == tail[j - 1]);
            if i > 0 {
                assert(after[i] == tail[i - 1]);
            }
        }
    }
}

/// Where every task and the new one are due no earlier than `floor`, so is
/// every task afterwards.
proof fn lemma_with_task_floor<E>(agenda: Agenda<E>, due: u128, task: ShcTask<E>, floor: u128)
    requires
        floor <= due,
        forall|i: int| 0 <= i < agenda.len() ==> floor <= (#[trigger] agenda[i]).0,
    ensures
        forall|i: int|
            0 <= i < with_task(agenda, due, task).len() ==> floor <= (#[trigger] with_task(
                agenda,
                due,
                task,
            )[i]).0,
    decreases agenda.len(),
{
    let after = with_task(agenda, due, task);
    if agenda.len() == 0 || agenda[0].0 > due {
        assert forall|i: int| 0 <= i < after.len() implies floor <= (#[trigger] after[i]).0 by {
            if i > 0 {
                assert(after[i] == agenda[i - 1]);
            }
        }
    } else {
        let rest = agenda.drop_first();
        assert forall|i: int| 0 <= i < rest.len() implies floor <= (#[trigger] rest[i]).0 by {
            assert(rest[i] == agenda[i + 1]);
        }
        lemma_with_task_floor(rest, due, task, floor);
        let tail = with_task(rest, due, task);
        assert forall|i: int| 0 <= i < after.len() implies floor <= (#[trigger] after[i]).0 by {
            if i > 0 {
                assert(after[i] == tail[i - 1]);
            }
        }
    }
}

/// Pushing tasks one after the other keeps the agenda in order.
pub proof fn lemma_with_tasks_ordered<E>(agenda: Agenda<E>, tasks: Seq<ShcTask<E>>, now: Duration)
    requires
        ordered(agenda),
    ensures
        ordered(with_tasks(agenda, tasks, now)),
        with_tasks(agenda, tasks, now).len() == agenda.len() + tasks.len(),
    decreases tasks.len(),
{
    if tasks.len() > 0 {
        let due = due_time(now, tasks[0].duration);
        lemma_with_task_ordered(agenda, due, tasks[0]);
        lemma_with_tasks_ordered(with_task(agenda, due, tasks[0]), tasks.drop_first(), now);
    }
}

/// A pending task as it is stored.
#[derive(Debug)]
struct Pending<E> {
    due: u128,
    task: ShcTask<E>,
}

/// The pending tasks of one height.
#[derive(Debug)]
pub struct TaskScheduler<E> {
    pending: Vec<Pending<E>>,
}

impl<E> View for TaskScheduler<E> {
    type V = Agenda<E>;

    closed spec fn view(&self) -> Agenda<E> {
        Seq::new(self.pending@.len(), |i: int| (self.pending@[i].due, self.pending@[i].task))
    }
}

impl<E> TaskScheduler<E> {
    /// The tasks are kept earliest first.
    pub closed spec fn wf(&self) -> bool {
        ordered(self@)
    }

    /// What `wf` says, for callers.
    pub proof fn lemma_wf(&self)
        requires
            self.wf(),
        ensures
            ordered(self@),
    {
    }

    /// A scheduler without tasks.
    pub fn new() -> (scheduler: TaskScheduler<E>)
        ensures
            scheduler.wf(),
            scheduler@ == Agenda::<E>::empty(),
    {
        let scheduler = TaskScheduler { pending: Vec::new() };
        assert(scheduler@ == Agenda::<E>::empty());
        scheduler
    }

    /// The number of pending tasks.
    pub fn len(&self) -> (count: usize)
        ensures
            count == self@.len(),
    {
        self.pending.len()
    }

    /// Registers `task`, whose delay runs from `now`.
    pub fn push(&mut self, task: ShcTask<E>, now: Duration)
        requires
            old(self).wf(),
        ensures
            final(self).wf(),
            final(self)@ == with_task(old(self)@, due_time(now, task.duration), task),
    {
        let due: u128 = now.as_nanos() + task.duration.as_nanos();
        let ghost before = self@;
        let mut at: usize = 0;
        while at < self.pending.len() && self.pending[at].due <= due
            invariant
                at <= self.pending.len(),
                self@ == before,
                forall|i: int| 0 <= i < at ==> (#[trigger] self@[i]).0 <= due,
            decreases self.pending.len() - at,
        {
            at += 1;
        }
        self.pending.insert(at, Pending { due, task });
        proof {
            assert(self@ == before.insert(at as int, (due, task)));
            lemma_with_task_at(before, due, task, at as int);
            lemma_with_task_ordered(before, due, task);
        }
    }

    /// Registers all of `tasks`, in their order, with delays that run from
    /// `now`.
    pub fn push_all(&mut self, tasks: Vec<ShcTask<E>>, now: Duration)
        requires
            old(self).wf(),
        ensures
            final(self).wf(),
            final(self)@ == with_tasks(old(self)@, tasks@, now),
    {
        let ghost all = tasks@;
        assert(all.skip(0) == all);
        for task in iter: tasks
            invariant
                self.wf(),
                iter.seq() == all,
                with_tasks(self@, all.skip(iter.index() as int), now) == with_tasks(
                    old(self)@,
                    all,
                    now,
                ),
        {
            proof {
                let left = all.skip(iter.index() as int);
                assert(left[0] == task);
                assert(left.drop_first() == all.skip(iter.index() + 1));
            }
            self.push(task, now);
        }
    }

    /// The time at which the next task is due, if there is a task.
    pub fn next_deadline(&self) -> (deadline: Option<u128>)
        ensures
            deadline == spec_next_deadline(self@),
    {
        if self.pending.len() == 0 {
            None
        } else {
            Some(self.pending[0].due)
        }
    }

    /// Takes out the earliest task if it is due at `now`.
    pub fn next_ready(&mut self, now: Duration) -> (ready: Option<ShcTask<E>>)
        requires
            old(self).wf(),
        ensures
            final(self).wf(),
            ready == spec_next_ready(old(self)@, now),
            final(self)@ == without_ready(old(self)@, now),
    {
        if self.pending.len() == 0 {
            return None;
        }
        if self.pending[0].due > now.as_nanos() {
            return None;
        }
        let ghost before = self@;
        let first = self.pending.remove(0);
        proof {
            assert(self@ == before.drop_first());
            assert forall|i: int, j: int| 0 <= i < j < self@.len() implies self@[i].0
                <= self@[j].0 by {
                assert(self@[i] == before[i + 1]);
                assert(self@[j] == before[j + 1]);
            }
        }
        Some(first.task)
    }
}

/// The time at which the earliest task is due.
pub open spec fn spec_next_deadline<E>(agenda: Agenda<E>) -> Option<u128> {
    if agenda.len() == 0 {
        None
    } else {
        Some(agenda[0].0)
    }
}

/// Whether the earliest task is due at `now`.
pub open spec fn has_ready<E>(agenda: Agenda<E>, now: Duration) -> bool {
    agenda.len() > 0 && agenda[0].0 <= now.total_nanos()
}

/// The earliest task, if it is due at `now`.
pub open spec fn spec_next_ready<E>(agenda: Agenda<E>, now: Duration) -> Option<ShcTask<E>> {
    if has_ready(agenda, now) {
        Some(agenda[0].1)
    } else {
        None
    }
}

/// The agenda without the task that `spec_next_ready` gives.
pub open spec fn without_ready<E>(agenda: Agenda<E>, now: Duration) -> Agenda<E> {
    if has_ready(agenda, now) {
        agenda.drop_first()
    } else {
        agenda
    }
}

} // verus!
