use yos_kernel::executer::{Executer, ScheduleStep, TaskWaker};
use yos_kernel::keyboard::{
    add_scancode, IgnoreKeypresses, ScancodeChannel, ScancodePoll, ScancodeStream,
};
use yos_kernel::queue::BoundedQueue;
use yos_kernel::task::{Task, TaskFuture, TaskIdAllocator, TaskId, TaskPoll};

/// A task that completes on its first poll.
struct Done;

impl TaskFuture for Done {
    fn poll(
        &mut self,
        _waker: &TaskWaker,
        _ready: &mut BoundedQueue,
        _channel: &mut ScancodeChannel,
    ) -> TaskPoll {
        TaskPoll::Ready
    }
}

/// A task that awaits three scancodes and sums them.
struct SumThree {
    stream: ScancodeStream,
    got: u32,
    sum: u64,
}

impl TaskFuture for SumThree {
    fn poll(
        &mut self,
        waker: &TaskWaker,
        _ready: &mut BoundedQueue,
        channel: &mut ScancodeChannel,
    ) -> TaskPoll {
        while self.got < 3 {
            match self.stream.poll_next(channel, waker) {
                ScancodePoll::Ready(b) => {
                    self.sum += b as u64;
                    self.got += 1;
                }
                ScancodePoll::Pending => return TaskPoll::Pending,
            }
        }
        TaskPoll::Ready
    }
}

#[test]
fn task_ids_are_distinct_and_strictly_increasing() {
    let mut ids = TaskIdAllocator::new();
    let mut seen: Vec<u64> = Vec::new();
    for _ in 0..10 {
        seen.push(TaskId::new(&mut ids).as_u64());
    }
    for i in 0..seen.len() {
        for j in (i + 1)..seen.len() {
            assert!(seen[i] < seen[j]);
            assert!(seen[i] != seen[j]);
        }
    }
}

#[test]
fn run_ready_tasks_retires_completed_tasks() {
    let mut ids = TaskIdAllocator::new();
    let mut ch = ScancodeChannel::new();
    let mut exec: Executer<Done> = Executer::new();
    let first = Task::new(Done, &mut ids);
    let first_id = first.id();
    exec.spawn(first);
    let second = Task::new(Done, &mut ids);
    let second_id = second.id();
    exec.spawn(second);
    assert!(exec.contains_task(first_id));
    assert!(exec.contains_task(second_id));
    assert_eq!(exec.ready_len(), 2);
    exec.run_ready_tasks(&mut ch);
    // Both tasks reported Ready on their first poll: both are gone.
    assert!(!exec.contains_task(first_id));
    assert!(!exec.contains_task(second_id));
    assert_eq!(exec.task_count(), 0);
    assert_eq!(exec.ready_len(), 0);
}

#[test]
fn completing_first_task_leaves_second_in_table_and_stale_wake_is_ignored() {
    let mut ids = TaskIdAllocator::new();
    let mut ch = ScancodeChannel::new();
    let stream = ScancodeStream::new(&mut ch);
    let mut exec: Executer<SumThree> = Executer::new();
    // The first task finishes on its first poll: its three scancodes are
    // already buffered.
    add_scancode(&mut ch, 1);
    add_scancode(&mut ch, 2);
    add_scancode(&mut ch, 3);
    let first = Task::new(SumThree { stream, got: 0, sum: 0 }, &mut ids);
    let first_id = first.id();
    exec.spawn(first);
    exec.run_ready_tasks(&mut ch);
    assert!(!exec.contains_task(first_id));
    // A second task stays suspended in the table.
    let mut ch2 = ScancodeChannel::new();
    let stream2 = ScancodeStream::new(&mut ch2);
    let second = Task::new(SumThree { stream: stream2, got: 0, sum: 0 }, &mut ids);
    let second_id = second.id();
    exec.spawn(second);
    exec.run_ready_tasks(&mut ch2);
    assert!(exec.contains_task(second_id));
    // Invoking the first task's stale waker after its removal is silently
    // ignored by the next scheduling round and harms nothing.
    exec.wake(first_id);
    exec.run_ready_tasks(&mut ch2);
    assert!(exec.contains_task(second_id));
    assert!(!exec.contains_task(first_id));
    assert_eq!(exec.task_count(), 1);
}

#[test]
fn three_buffered_scancodes_complete_sum_task_in_one_round() {
    let mut ids = TaskIdAllocator::new();
    let mut ch = ScancodeChannel::new();
    let stream = ScancodeStream::new(&mut ch);
    let mut exec: Executer<SumThree> = Executer::new();
    let task = Task::new(SumThree { stream, got: 0, sum: 0 }, &mut ids);
    let id = task.id();
    exec.spawn(task);
    // Three events arrive from (simulated) interrupt context while the
    // executor is otherwise idle.
    for b in [1u8, 2, 3] {
        if let Some(w) = add_scancode(&mut ch, b) {
            exec.wake(w);
        }
    }
    exec.run_ready_tasks(&mut ch);
    // The task drained all three reads and completed: it left the table.
    assert!(!exec.contains_task(id));
    assert_eq!(exec.task_count(), 0);
}

#[test]
fn sum_task_resumes_on_wakes_and_sums_to_six() {
    let mut ids = TaskIdAllocator::new();
    let mut ch = ScancodeChannel::new();
    let stream = ScancodeStream::new(&mut ch);
    let mut task = SumThree { stream, got: 0, sum: 0 };
    let waker = TaskWaker::new(TaskId::new(&mut ids));
    let mut ready = BoundedQueue::new(8);
    // Polled with nothing buffered, the task suspends with its wake
    // registered; each push then wakes it for exactly one more resumption.
    assert_eq!(task.poll(&waker, &mut ready, &mut ch), TaskPoll::Pending);
    assert_eq!(add_scancode(&mut ch, 1), Some(waker.id()));
    assert_eq!(task.poll(&waker, &mut ready, &mut ch), TaskPoll::Pending);
    assert_eq!(add_scancode(&mut ch, 2), Some(waker.id()));
    assert_eq!(task.poll(&waker, &mut ready, &mut ch), TaskPoll::Pending);
    assert_eq!(add_scancode(&mut ch, 3), Some(waker.id()));
    // The third read completes the task with the sum of the three bytes.
    assert_eq!(task.poll(&waker, &mut ready, &mut ch), TaskPoll::Ready);
    assert_eq!(task.sum, 6);
}

#[test]
fn ignore_keypresses_drains_and_suspends() {
    let mut ids = TaskIdAllocator::new();
    let mut ch = ScancodeChannel::new();
    let stream = ScancodeStream::new(&mut ch);
    let mut task = IgnoreKeypresses::new(stream);
    let waker = TaskWaker::new(TaskId::new(&mut ids));
    let mut ready = BoundedQueue::new(8);
    add_scancode(&mut ch, 4);
    add_scancode(&mut ch, 5);
    assert_eq!(task.poll(&waker, &mut ready, &mut ch), TaskPoll::Pending);
    // Everything buffered was consumed and the wake slot is registered.
    assert_eq!(ch.try_pop(), None);
}

#[test]
fn scheduling_step_skips_retires_and_suspends() {
    let mut ids = TaskIdAllocator::new();
    let mut ch = ScancodeChannel::new();
    let mut exec: Executer<Done> = Executer::new();
    // A stale id is skipped silently.
    assert_eq!(exec.poll_one(99, &mut ch), ScheduleStep::Skipped);
    assert_eq!(exec.task_count(), 0);
    // A task reporting Ready is retired.
    let task = Task::new(Done, &mut ids);
    let id = task.id();
    exec.spawn(task);
    assert_eq!(exec.poll_one(id.as_u64(), &mut ch), ScheduleStep::Retired);
    assert!(!exec.contains_task(id));
    // A task reporting Pending stays suspended in the table.
    let mut exec: Executer<SumThree> = Executer::new();
    let stream = ScancodeStream::new(&mut ch);
    let task = Task::new(SumThree { stream, got: 0, sum: 0 }, &mut ids);
    let id = task.id();
    exec.spawn(task);
    assert_eq!(exec.poll_one(id.as_u64(), &mut ch), ScheduleStep::Suspended);
    assert!(exec.contains_task(id));
}

#[test]
fn waker_pushes_its_task_id() {
    let mut ids = TaskIdAllocator::new();
    let id = TaskId::new(&mut ids);
    let waker = TaskWaker::new(id);
    let mut ready = BoundedQueue::new(4);
    waker.wake_by_ref(&mut ready);
    waker.wake(&mut ready);
    assert_eq!(ready.pop(), Some(id.as_u64()));
    assert_eq!(ready.pop(), Some(id.as_u64()));
    assert_eq!(ready.pop(), None);
}
