use consensus_manager::scheduler::TaskScheduler;
use consensus_manager::types::Duration;
use consensus_manager::types::ShcTask;

fn at(secs: u64, nanos: u32) -> Duration {
    Duration { secs, nanos }
}

fn task(secs: u64, event: &'static str) -> ShcTask<&'static str> {
    ShcTask { duration: at(secs, 0), event }
}

#[test]
fn an_empty_scheduler_has_no_deadline_and_nothing_ready() {
    let mut scheduler: TaskScheduler<&'static str> = TaskScheduler::new();
    assert_eq!(scheduler.len(), 0);
    assert_eq!(scheduler.next_deadline(), None);
    assert_eq!(scheduler.next_ready(at(u64::MAX, 999_999_999)), None);
}

#[test]
fn the_deadline_is_the_push_time_plus_the_delay() {
    let mut scheduler: TaskScheduler<&'static str> = TaskScheduler::new();
    scheduler.push(ShcTask { duration: at(3, 500), event: "propose" }, at(10, 250));
    assert_eq!(scheduler.next_deadline(), Some(13_000_000_750));
}

#[test]
fn a_task_is_ready_from_its_deadline_on() {
    let mut scheduler: TaskScheduler<&'static str> = TaskScheduler::new();
    scheduler.push(task(3, "propose"), at(10, 0));
    assert_eq!(scheduler.next_ready(at(12, 999_999_999)), None);
    assert_eq!(scheduler.len(), 1);
    assert_eq!(scheduler.next_ready(at(13, 0)), Some(task(3, "propose")));
    assert_eq!(scheduler.len(), 0);
    assert_eq!(scheduler.next_deadline(), None);
}

#[test]
fn tasks_come_back_earliest_first() {
    let mut scheduler: TaskScheduler<&'static str> = TaskScheduler::new();
    scheduler.push(task(9, "precommit"), at(0, 0));
    scheduler.push(task(3, "propose"), at(0, 0));
    scheduler.push(task(6, "prevote"), at(0, 0));
    assert_eq!(scheduler.next_deadline(), Some(3_000_000_000));
    let late = at(100, 0);
    assert_eq!(scheduler.next_ready(late), Some(task(3, "propose")));
    assert_eq!(scheduler.next_ready(late), Some(task(6, "prevote")));
    assert_eq!(scheduler.next_ready(late), Some(task(9, "precommit")));
    assert_eq!(scheduler.next_ready(late), None);
}

#[test]
fn tasks_due_together_come_back_in_the_order_of_pushing() {
    let mut scheduler: TaskScheduler<&'static str> = TaskScheduler::new();
    scheduler.push(task(5, "first"), at(0, 0));
    scheduler.push(task(4, "second"), at(1, 0));
    scheduler.push(task(2, "early"), at(0, 0));
    scheduler.push(task(0, "third"), at(5, 0));
    let late = at(5, 0);
    assert_eq!(scheduler.next_ready(late), Some(task(2, "early")));
    assert_eq!(scheduler.next_ready(late), Some(task(5, "first")));
    assert_eq!(scheduler.next_ready(late), Some(task(4, "second")));
    assert_eq!(scheduler.next_ready(late), Some(task(0, "third")));
}

#[test]
fn push_all_pushes_in_order() {
    let mut scheduler: TaskScheduler<&'static str> = TaskScheduler::new();
    scheduler.push_all(vec![task(2, "a"), task(1, "b"), task(2, "c")], at(7, 0));
    assert_eq!(scheduler.len(), 3);
    assert_eq!(scheduler.next_deadline(), Some(8_000_000_000));
    let late = at(9, 0);
    assert_eq!(scheduler.next_ready(late), Some(task(1, "b")));
    assert_eq!(scheduler.next_ready(late), Some(task(2, "a")));
    assert_eq!(scheduler.next_ready(late), Some(task(2, "c")));
}

#[test]
fn the_longest_delay_at_the_latest_time_fits() {
    let mut scheduler: TaskScheduler<&'static str> = TaskScheduler::new();
    let longest = at(u64::MAX, u32::MAX);
    scheduler.push(ShcTask { duration: longest, event: "never" }, longest);
    let each: u128 = (u64::MAX as u128) * 1_000_000_000 + (u32::MAX as u128);
    assert_eq!(scheduler.next_deadline(), Some(2 * each));
    assert_eq!(scheduler.next_ready(longest), None);
}
