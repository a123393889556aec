use async_channel::{unbounded, Receiver, Sender};
use async_executor::Executor;
use bevy::tasks::{block_on, poll_once, Task};
use iyes_bevy_extras::task::{
    handle_start_tasks, handle_task_outputs, handle_task_outputs_progress, rc_handle_start_tasks,
    reset_task_helper_state, track_tasks, Progress, TaskHelper, TaskHelperState,
};
use std::sync::Arc;

/// A helper for tests. Each task it starts waits for one number on a
/// channel and returns it. The outputs it takes are collected in order.
struct Loader {
    executor: Arc<Executor<'static>>,
    batches: u32,
}

impl TaskHelper for Loader {
    type Output = i32;
    type InputRcParam<'w, 's> = bool;
    type InputParam<'w, 's> = Vec<Receiver<i32>>;
    type OutputParam<'w, 's> = Vec<i32>;

    fn rc_start_tasks(&self, param: &bool) -> bool {
        *param
    }

    fn start_tasks(&mut self, param: &mut Vec<Receiver<i32>>) -> Vec<Task<i32>> {
        self.batches += 1;
        let mut tasks = Vec::new();
        for gate in param.drain(..) {
            tasks.push(waiting_task(&self.executor, gate));
        }
        tasks
    }

    fn handle_output(&mut self, param: &mut Vec<i32>, out: i32) {
        param.push(out);
    }
}

fn waiting_task(executor: &Executor<'static>, gate: Receiver<i32>) -> Task<i32> {
    Task::new(executor.spawn(async move { gate.recv().await.unwrap() }))
}

fn settle(executor: &Executor<'static>) {
    while executor.try_tick() {}
}

/// Polls every tracked task once, oldest first, without waiting.
fn poll_all(state: &mut TaskHelperState<Loader>) -> Vec<Option<i32>> {
    let mut polled = Vec::new();
    for index in 0..state.tracked_count() {
        polled.push(block_on(poll_once(state.task_mut(index))));
    }
    polled
}

struct Bench {
    executor: Arc<Executor<'static>>,
    state: TaskHelperState<Loader>,
    gates: Vec<Sender<i32>>,
    outputs: Vec<i32>,
}

impl Bench {
    fn new() -> Bench {
        let executor = Arc::new(Executor::new());
        let state = TaskHelperState::new(Loader { executor: executor.clone(), batches: 0 });
        Bench { executor, state, gates: vec![], outputs: vec![] }
    }

    fn start(&mut self, count: usize) {
        let mut receivers = Vec::new();
        for _ in 0..count {
            let (tx, rx) = unbounded();
            self.gates.push(tx);
            receivers.push(rx);
        }
        assert!(handle_start_tasks(&mut self.state, &mut receivers).is_ok());
        assert!(receivers.is_empty());
        settle(&self.executor);
    }

    fn finish(&mut self, gate: usize, value: i32) {
        self.gates[gate].try_send(value).unwrap();
        settle(&self.executor);
    }

    fn poll(&mut self) {
        let polled = poll_all(&mut self.state);
        handle_task_outputs(&mut self.state, &mut self.outputs, polled);
    }

    fn poll_progress(&mut self) -> Progress {
        let polled = poll_all(&mut self.state);
        handle_task_outputs_progress(&mut self.state, &mut self.outputs, polled)
    }
}

#[test]
fn new_state_tracks_nothing() {
    let bench = Bench::new();
    assert_eq!(bench.state.progress(), Progress { done: 0, total: 0 });
    assert_eq!(bench.state.tracked_count(), 0);
    assert_eq!(bench.state.tracked_ids(), Vec::<u32>::new());
    assert_eq!(bench.state.helper_ref().batches, 0);
}

#[test]
fn three_tasks_two_of_which_finish() {
    let mut bench = Bench::new();
    bench.start(3);

    let first = bench.poll_progress();
    assert_eq!(first, Progress { done: 0, total: 3 });
    assert_eq!(bench.state.tracked_count(), 3);
    assert_eq!(bench.state.tracked_ids(), vec![0, 1, 2]);
    assert!(bench.outputs.is_empty());

    bench.finish(0, 100);
    bench.finish(2, 300);

    let second = bench.poll_progress();
    assert_eq!(second, Progress { done: 2, total: 3 });
    assert_eq!(bench.state.tracked_count(), 1);
    assert_eq!(bench.state.tracked_ids(), vec![1]);
    assert_eq!(bench.outputs, vec![100, 300]);
}

#[test]
fn starting_tasks_raises_the_total_by_their_number() {
    let mut bench = Bench::new();
    bench.start(2);
    assert_eq!(bench.state.progress(), Progress { done: 0, total: 2 });
    bench.start(0);
    assert_eq!(bench.state.progress(), Progress { done: 0, total: 2 });
    bench.start(5);
    assert_eq!(bench.state.progress(), Progress { done: 0, total: 7 });
    assert_eq!(bench.state.tracked_ids(), vec![0, 1, 2, 3, 4, 5, 6]);
    assert_eq!(bench.state.helper_ref().batches, 3);
}

#[test]
fn each_finished_task_raises_done_by_one_and_is_no_longer_tracked() {
    let mut bench = Bench::new();
    bench.start(4);
    bench.finish(1, 11);
    assert_eq!(bench.poll_progress(), Progress { done: 1, total: 4 });
    assert_eq!(bench.state.tracked_ids(), vec![0, 2, 3]);
    bench.finish(3, 33);
    assert_eq!(bench.poll_progress(), Progress { done: 2, total: 4 });
    assert_eq!(bench.state.tracked_ids(), vec![0, 2]);
    bench.finish(0, 0);
    bench.finish(2, 22);
    assert_eq!(bench.poll_progress(), Progress { done: 4, total: 4 });
    assert_eq!(bench.state.tracked_ids(), Vec::<u32>::new());
    assert_eq!(bench.outputs, vec![11, 33, 0, 22]);
    assert_eq!(bench.poll_progress(), Progress { done: 4, total: 4 });
    assert_eq!(bench.outputs, vec![11, 33, 0, 22]);
}

#[test]
fn reported_total_is_at_least_one() {
    let mut bench = Bench::new();
    assert_eq!(bench.poll_progress(), Progress { done: 0, total: 1 });
    assert_eq!(bench.state.progress(), Progress { done: 0, total: 0 });
    bench.start(1);
    assert_eq!(bench.poll_progress(), Progress { done: 0, total: 1 });
    assert_eq!(bench.state.progress(), Progress { done: 0, total: 1 });
}

#[test]
fn outputs_are_handed_over_oldest_task_first() {
    let mut bench = Bench::new();
    bench.start(3);
    bench.finish(2, 3);
    bench.finish(1, 2);
    bench.finish(0, 1);
    bench.poll();
    assert_eq!(bench.outputs, vec![1, 2, 3]);
    assert_eq!(bench.state.tracked_count(), 0);
}

#[test]
fn polling_without_progress_leaves_the_counts() {
    let mut bench = Bench::new();
    bench.start(2);
    bench.finish(0, 5);
    bench.poll();
    assert_eq!(bench.outputs, vec![5]);
    assert_eq!(bench.state.tracked_ids(), vec![1]);
    assert_eq!(bench.state.progress(), Progress { done: 0, total: 2 });
}

#[test]
fn a_task_that_never_finishes_stays() {
    let mut bench = Bench::new();
    bench.start(1);
    for _ in 0..10 {
        assert_eq!(bench.poll_progress(), Progress { done: 0, total: 1 });
    }
    assert_eq!(bench.state.tracked_ids(), vec![0]);
    assert!(bench.outputs.is_empty());
}

#[test]
fn reset_drops_every_task_and_zeroes_the_counts() {
    let mut bench = Bench::new();
    bench.start(3);
    bench.finish(0, 1);
    assert_eq!(bench.poll_progress(), Progress { done: 1, total: 3 });

    reset_task_helper_state(&mut bench.state);
    assert_eq!(bench.state.tracked_count(), 0);
    assert_eq!(bench.state.tracked_ids(), Vec::<u32>::new());
    assert_eq!(bench.state.progress(), Progress { done: 0, total: 0 });
    assert_eq!(bench.state.helper_ref().batches, 1);

    settle(&bench.executor);
    assert!(bench.gates[1].is_closed());
    assert!(bench.gates[2].is_closed());
    assert_eq!(bench.poll_progress(), Progress { done: 0, total: 1 });
    assert_eq!(bench.outputs, vec![1]);
}

#[test]
fn ids_start_again_after_a_reset() {
    let mut bench = Bench::new();
    bench.start(2);
    reset_task_helper_state(&mut bench.state);
    bench.start(2);
    assert_eq!(bench.state.tracked_ids(), vec![0, 1]);
    assert_eq!(bench.state.progress(), Progress { done: 0, total: 2 });
    bench.finish(3, 9);
    assert_eq!(bench.poll_progress(), Progress { done: 1, total: 2 });
    assert_eq!(bench.state.tracked_ids(), vec![0]);
}

#[test]
fn reset_of_a_fresh_state_changes_nothing() {
    let mut bench = Bench::new();
    reset_task_helper_state(&mut bench.state);
    assert_eq!(bench.state.tracked_count(), 0);
    assert_eq!(bench.state.progress(), Progress { done: 0, total: 0 });
}

#[test]
fn track_tasks_tracks_in_the_given_order() {
    let mut bench = Bench::new();
    let (tx_a, rx_a) = unbounded();
    let (tx_b, rx_b) = unbounded();
    let tasks = vec![waiting_task(&bench.executor, rx_a), waiting_task(&bench.executor, rx_b)];
    track_tasks(&mut bench.state, tasks);
    assert_eq!(bench.state.tracked_ids(), vec![0, 1]);
    assert_eq!(bench.state.progress(), Progress { done: 0, total: 2 });
    assert_eq!(bench.state.helper_ref().batches, 0);
    tx_b.try_send(70).unwrap();
    settle(&bench.executor);
    assert_eq!(bench.poll_progress(), Progress { done: 1, total: 2 });
    assert_eq!(bench.state.tracked_ids(), vec![0]);
    tx_a.try_send(60).unwrap();
    settle(&bench.executor);
    assert_eq!(bench.poll_progress(), Progress { done: 2, total: 2 });
    assert_eq!(bench.outputs, vec![70, 60]);
}

#[test]
fn a_task_that_is_ready_at_once_is_taken_at_the_next_poll() {
    let mut bench = Bench::new();
    let ready = Task::new(bench.executor.spawn(async { 8 }));
    track_tasks(&mut bench.state, vec![ready]);
    settle(&bench.executor);
    assert_eq!(bench.poll_progress(), Progress { done: 1, total: 1 });
    assert_eq!(bench.outputs, vec![8]);
    assert_eq!(bench.state.tracked_count(), 0);
}

#[test]
fn the_helper_decides_whether_to_start() {
    let bench = Bench::new();
    assert!(rc_handle_start_tasks(&bench.state, &true));
    assert!(!rc_handle_start_tasks(&bench.state, &false));
}

#[test]
fn given_results_remove_exactly_the_finished_tasks() {
    let mut bench = Bench::new();
    bench.start(3);
    let polled = vec![None, Some(20), Some(30)];
    let report = handle_task_outputs_progress(&mut bench.state, &mut bench.outputs, polled);
    assert_eq!(report, Progress { done: 2, total: 3 });
    assert_eq!(bench.state.tracked_ids(), vec![0]);
    assert_eq!(bench.state.progress(), Progress { done: 2, total: 3 });
    assert_eq!(bench.outputs, vec![20, 30]);
    settle(&bench.executor);
    assert!(!bench.gates[0].is_closed());
    assert!(bench.gates[1].is_closed());
    assert!(bench.gates[2].is_closed());
}

#[test]
fn given_results_without_progress_leave_the_counts() {
    let mut bench = Bench::new();
    bench.start(2);
    handle_task_outputs(&mut bench.state, &mut bench.outputs, vec![Some(1), None]);
    assert_eq!(bench.state.tracked_ids(), vec![1]);
    assert_eq!(bench.state.progress(), Progress { done: 0, total: 2 });
    assert_eq!(bench.outputs, vec![1]);
}

#[test]
fn given_results_with_nothing_finished_change_nothing() {
    let mut bench = Bench::new();
    bench.start(2);
    let report = handle_task_outputs_progress(&mut bench.state, &mut bench.outputs, vec![None, None]);
    assert_eq!(report, Progress { done: 0, total: 2 });
    assert_eq!(bench.state.tracked_ids(), vec![0, 1]);
    assert_eq!(bench.state.progress(), Progress { done: 0, total: 2 });
    assert!(bench.outputs.is_empty());
}

#[test]
fn clamped_progress_has_a_total_of_at_least_one() {
    assert_eq!(Progress { done: 0, total: 0 }.clamped(), Progress { done: 0, total: 1 });
    assert_eq!(Progress { done: 0, total: 1 }.clamped(), Progress { done: 0, total: 1 });
    assert_eq!(Progress { done: 3, total: 9 }.clamped(), Progress { done: 3, total: 9 });
}

#[test]
fn a_state_can_carry_on_from_earlier_counts() {
    let executor = Arc::new(Executor::new());
    let loader = Loader { executor: executor.clone(), batches: 0 };
    let state = TaskHelperState::with_progress(loader, Progress { done: 2, total: 5 }).unwrap();
    assert_eq!(state.progress(), Progress { done: 2, total: 5 });
    assert_eq!(state.tracked_count(), 0);
    let loader = Loader { executor, batches: 0 };
    assert!(TaskHelperState::with_progress(loader, Progress { done: 3, total: 2 }).is_none());
}

#[test]
fn a_batch_that_the_count_cannot_take_comes_back() {
    let executor = Arc::new(Executor::new());
    let loader = Loader { executor: executor.clone(), batches: 0 };
    let mut state =
        TaskHelperState::with_progress(loader, Progress { done: 0, total: u32::MAX - 1 }).unwrap();
    let (tx_a, rx_a) = unbounded::<i32>();
    let (_tx_b, rx_b) = unbounded::<i32>();
    let mut two = vec![rx_a, rx_b];
    let refused = handle_start_tasks(&mut state, &mut two);
    assert_eq!(refused.err().map(|batch| batch.len()), Some(2));
    assert_eq!(state.progress(), Progress { done: 0, total: u32::MAX - 1 });
    assert_eq!(state.tracked_count(), 0);
    assert_eq!(state.helper_ref().batches, 1);
    settle(&executor);
    assert!(tx_a.is_closed());

    let (tx_c, rx_c) = unbounded::<i32>();
    let mut one = vec![rx_c];
    assert!(handle_start_tasks(&mut state, &mut one).is_ok());
    assert_eq!(state.progress(), Progress { done: 0, total: u32::MAX });
    assert_eq!(state.tracked_ids(), vec![u32::MAX - 1]);
    tx_c.try_send(4).unwrap();
    settle(&executor);
    let mut outputs = Vec::new();
    let polled = poll_all(&mut state);
    assert_eq!(polled, vec![Some(4)]);
    assert_eq!(
        handle_task_outputs_progress(&mut state, &mut outputs, polled),
        Progress { done: 1, total: u32::MAX }
    );
    assert_eq!(outputs, vec![4]);
}

#[test]
fn polling_a_task_in_place_leaves_the_tracking_alone() {
    let mut bench = Bench::new();
    bench.start(3);
    bench.finish(1, 7);
    assert_eq!(block_on(poll_once(bench.state.task_mut(0))), None);
    assert_eq!(bench.state.tracked_ids(), vec![0, 1, 2]);
    assert_eq!(bench.state.progress(), Progress { done: 0, total: 3 });
    assert_eq!(poll_all(&mut bench.state), vec![None, Some(7), None]);
    assert_eq!(bench.state.tracked_ids(), vec![0, 1, 2]);
    assert!(bench.outputs.is_empty());
}

#[test]
fn the_tasks_that_stay_are_the_ones_that_had_not_finished() {
    let mut bench = Bench::new();
    bench.start(3);
    bench.finish(0, 1);
    bench.poll();
    assert_eq!(bench.state.tracked_ids(), vec![1, 2]);
    bench.finish(2, 3);
    assert_eq!(poll_all(&mut bench.state), vec![None, Some(3)]);
    bench.finish(1, 2);
    assert_eq!(block_on(poll_once(bench.state.task_mut(0))), Some(2));
}

#[test]
fn handing_over_given_results_settles_and_reports() {
    let mut bench = Bench::new();
    bench.start(3);
    let report = handle_task_outputs_progress(
        &mut bench.state,
        &mut bench.outputs,
        vec![Some(5), None, Some(6)],
    );
    assert_eq!(report, Progress { done: 2, total: 3 });
    assert_eq!(bench.state.tracked_ids(), vec![1]);
    assert_eq!(bench.outputs, vec![5, 6]);
    handle_task_outputs(&mut bench.state, &mut bench.outputs, vec![Some(9)]);
    assert_eq!(bench.state.tracked_ids(), Vec::<u32>::new());
    assert_eq!(bench.state.progress(), Progress { done: 2, total: 3 });
    assert_eq!(bench.outputs, vec![5, 6, 9]);
}
