//! Tracking of background tasks.
//!
//! A [`TaskHelper`] says when to start a batch of tasks, starts them, and
//! takes their outputs. A [`TaskHelperState`] owns the helper and the tasks
//! that are still running. Once per tick the host polls each tracked task
//! without waiting and reports what the polls gave; a task that has finished
//! hands its output to the helper and is no longer tracked. The state also
//! counts the tasks started and finished since the last reset.
//!
//! Polling is the host's part because a poll can fail: it raises the panic
//! of a task that panicked. The state hands out each tracked task for the
//! poll, see [`TaskHelperState::task_mut`], and takes the results in
//! [`handle_task_outputs`] or [`handle_task_outputs_progress`].

use bevy::tasks::Task;
use vstd::prelude::*;

verus! {

/// `bevy::tasks::Task`, the handle of a spawned future. The crate holds such
/// handles and hands them out; it never looks inside one or polls one.
#[verifier::external_type_specification]
#[verifier::external_body]
#[verifier::reject_recursive_types(T)]
pub struct ExTask<T>(Task<T>);

/// How many tasks have finished, out of how many.
#[derive(Clone, Copy, Debug, PartialEq, Eq, Structural)]
pub struct Progress {
    /// The tasks that have finished.
    pub done: u32,
    /// The tasks that were started.
    pub total: u32,
}

impl Progress {
    /// These counts as they are reported: with a total of at least one, so
    /// that the share of finished tasks can always be computed.
    pub open spec fn reported(self) -> Progress {
        Progress { done: self.done, total: if self.total == 0 { 1 } else { self.total } }
    }

    /// These counts with a total of at least one.
    pub fn clamped(self) -> (progress: Progress)
        ensures
            progress == self.reported(),
            progress.total >= 1,
    {
        let total = if self.total == 0 {
            1
        } else {
            self.total
        };
        Progress { done: self.done, total }
    }
}

/// What an application supplies to have its background tasks tracked.
///
/// Each operation that changes the helper comes with a relation between the
/// state before and the state after, which the implementation chooses. By
/// default a relation allows any outcome.
pub trait TaskHelper: Sized {
    /// What a task returns when it finishes.
    type Output;

    /// What the helper reads to decide whether to start tasks.
    type InputRcParam<'w, 's>;

    /// What the helper uses to start tasks.
    type InputParam<'w, 's>;

    /// What the helper uses to take an output.
    type OutputParam<'w, 's>;

    /// Whether the helper wants to start a batch of tasks, given `param`.
    open spec fn wants_start(&self, param: &Self::InputRcParam<'_, '_>) -> bool {
        true
    }

    /// Whether starting a batch with `param` may leave the helper as `after`
    /// and the parameter as `param_after`, and return `tasks`.
    open spec fn started(
        &self,
        param: Self::InputParam<'_, '_>,
        after: Self,
        param_after: Self::InputParam<'_, '_>,
        tasks: Seq<Task<Self::Output>>,
    ) -> bool {
        true
    }

    /// Whether taking the output `out` with `param` may leave the helper as
    /// `after` and the parameter as `param_after`.
    open spec fn handled(
        &self,
        param: Self::OutputParam<'_, '_>,
        out: Self::Output,
        after: Self,
        param_after: Self::OutputParam<'_, '_>,
    ) -> bool {
        true
    }

    /// Decides whether a batch of tasks is to be started now.
    fn rc_start_tasks(&self, param: &Self::InputRcParam<'_, '_>) -> (start: bool)
        ensures
            start == self.wants_start(param),
    ;

    /// Starts a batch of tasks and hands them over for tracking. The batch
    /// may be empty.
    fn start_tasks(&mut self, param: &mut Self::InputParam<'_, '_>) -> (tasks: Vec<
        Task<Self::Output>,
    >)
        ensures
            old(self).started(*old(param), *final(self), *final(param), tasks@),
    ;

    /// Takes the output of a task that has finished.
    fn handle_output(&mut self, param: &mut Self::OutputParam<'_, '_>, out: Self::Output)
        ensures
            old(self).handled(*old(param), out, *final(self), *final(param)),
    ;
}

/// Whether handing the outputs `outs` to `helper` one after the other, first
/// to last, may leave the helper as `after` and its parameter as
/// `param_after`.
pub open spec fn handled_all<T: TaskHelper>(
    helper: T,
    param: T::OutputParam<'_, '_>,
    outs: Seq<T::Output>,
    after: T,
    param_after: T::OutputParam<'_, '_>,
) -> bool
    decreases outs.len(),
{
    if outs.len() == 0 {
        after == helper && param_after == param
    } else {
        exists|mid: T, param_mid: T::OutputParam<'_, '_>|
            {
                &&& handled_all(helper, param, outs.drop_last(), mid, param_mid)
                &&& #[trigger] mid.handled(param_mid, outs.last(), after, param_after)
            }
    }
}

/// Handing over one more output extends what [`handled_all`] relates.
pub proof fn lemma_handled_all_push<T: TaskHelper>(
    helper: T,
    param: T::OutputParam<'_, '_>,
    outs: Seq<T::Output>,
    mid: T,
    param_mid: T::OutputParam<'_, '_>,
    out: T::Output,
    after: T,
    param_after: T::OutputParam<'_, '_>,
)
    requires
        handled_all(helper, param, outs, mid, param_mid),
        mid.handled(param_mid, out, after, param_after),
    ensures
        handled_all(helper, param, outs.push(out), after, param_after),
{
    let longer = outs.push(out);
    assert(longer.drop_last() =~= outs);
    assert(longer.last() == out);
    assert(handled_all(helper, param, longer.drop_last(), mid, param_mid));
}

/// The outputs of the tasks that had finished, in the order of the polls.
pub open spec fn completed<O>(polled: Seq<Option<O>>) -> Seq<O>
    decreases polled.len(),
{
    if polled.len() == 0 {
        Seq::empty()
    } else {
        match polled.last() {
            Some(out) => completed(polled.drop_last()).push(out),
            None => completed(polled.drop_last()),
        }
    }
}

/// What stays of `items`, one for each tracked task, after polls that gave
/// `polled`: `items[i]` stays when `polled[i]` is `None`. The order is kept.
/// It is used on the ids of the tracked tasks and on the tasks themselves.
pub open spec fn kept<A, O>(items: Seq<A>, polled: Seq<Option<O>>) -> Seq<A>
    decreases items.len(),
{
    if items.len() == 0 || polled.len() != items.len() {
        Seq::empty()
    } else {
        match polled.last() {
            Some(_) => kept(items.drop_last(), polled.drop_last()),
            None => kept(items.drop_last(), polled.drop_last()).push(items.last()),
        }
    }
}

/// The ids that a batch of `count` tasks gets when `total` tasks were started
/// before it: `total`, `total + 1`, and so on.
pub open spec fn fresh_ids(total: u32, count: nat) -> Seq<u32> {
    Seq::new(count, |i: int| (total + i) as u32)
}

/// A task that is tracked, under the number it was given when it started.
#[verifier::reject_recursive_types(O)]
struct AwaitingTask<O> {
    id: u32,
    task: Task<O>,
}

/// A helper together with the tasks it has started and that have not
/// finished yet, and the count of tasks started and finished since the last
/// reset.
///
/// A tracked task is known by its id: the number of tasks that were started
/// between the last reset and its own start.
#[verifier::reject_recursive_types(T)]
pub struct TaskHelperState<T: TaskHelper> {
    t: T,
    progress: Progress,
    awaiting: Vec<AwaitingTask<T::Output>>,
}

impl<T: TaskHelper> TaskHelperState<T> {
    /// Whether the state is one that this module builds: no tracked task has
    /// an id at or above the count of started tasks, the ids grow from the
    /// oldest tracked task to the newest, and the tasks done and the tasks
    /// tracked together are no more than the tasks started.
    pub closed spec fn wf(&self) -> bool {
        &&& self.progress.done + self.ids().len() <= self.progress.total
        &&& forall|i: int| 0 <= i < self.ids().len() ==> #[trigger] self.ids()[i] < self.progress.total
        &&& forall|i: int, j: int|
            0 <= i < j < self.ids().len() ==> #[trigger] self.ids()[i] < #[trigger] self.ids()[j]
    }

    /// The helper.
    pub closed spec fn helper(&self) -> T {
        self.t
    }

    /// The count of tasks finished and started since the last reset.
    pub closed spec fn spec_progress(&self) -> Progress {
        self.progress
    }

    /// The ids of the tracked tasks, oldest first.
    pub closed spec fn ids(&self) -> Seq<u32> {
        Seq::new(self.awaiting@.len(), |i: int| self.awaiting@[i].id)
    }

    /// The tracked tasks, oldest first.
    pub closed spec fn tasks(&self) -> Seq<Task<T::Output>> {
        Seq::new(self.awaiting@.len(), |i: int| self.awaiting@[i].task)
    }

    /// A state that tracks nothing and has counted nothing.
    pub fn new(t: T) -> (state: TaskHelperState<T>)
        ensures
            state.wf(),
            state.helper() == t,
            state.spec_progress() == (Progress { done: 0, total: 0 }),
            state.ids() == Seq::<u32>::empty(),
            state.tasks() == Seq::<Task<T::Output>>::empty(),
    {
        let progress = Progress { done: 0, total: 0 };
        let state = TaskHelperState { t, progress, awaiting: Vec::new() };
        assert(state.ids() =~= Seq::<u32>::empty());
        assert(state.tasks() =~= Seq::<Task<T::Output>>::empty());
        state
    }

    /// A state that tracks nothing and carries on from the counts in
    /// `progress`, or `None` where these count more tasks done than started.
    pub fn with_progress(t: T, progress: Progress) -> (state: Option<TaskHelperState<T>>)
        ensures
            state is Some <==> progress.done <= progress.total,
            state matches Some(state) ==> {
                &&& state.wf()
                &&& state.helper() == t
                &&& state.spec_progress() == progress
                &&& state.ids() == Seq::<u32>::empty()
                &&& state.tasks() == Seq::<Task<T::Output>>::empty()
            },
    {
        if progress.done <= progress.total {
            let state = TaskHelperState { t, progress, awaiting: Vec::new() };
            assert(state.ids() =~= Seq::<u32>::empty());
            assert(state.tasks() =~= Seq::<Task<T::Output>>::empty());
            Some(state)
        } else {
            None
        }
    }

    /// The helper.
    pub fn helper_ref(&self) -> (helper: &T)
        ensures
            *helper == self.helper(),
    {
        &self.t
    }

    /// The count of tasks finished and started since the last reset.
    #[verifier::when_used_as_spec(spec_progress)]
    pub fn progress(&self) -> (progress: Progress)
        ensures
            progress == self.spec_progress(),
    {
        self.progress
    }

    /// The ids of the tracked tasks, oldest first.
    pub fn tracked_ids(&self) -> (ids: Vec<u32>)
        ensures
            ids@ == self.ids(),
    {
        let mut ids: Vec<u32> = Vec::new();
        let mut i: usize = 0;
        while i < self.awaiting.len()
            invariant
                i <= self.awaiting@.len(),
                ids@ == self.ids().take(i as int),
            decreases self.awaiting@.len() - i,
        {
            ids.push(self.awaiting[i].id);
            assert(self.ids().take(i + 1) =~= self.ids().take(i as int).push(
                self.awaiting@[i as int].id,
            ));
            i = i + 1;
        }
        assert(self.ids().take(i as int) =~= self.ids());
        ids
    }

    /// The tracked task at `index`, counted from the oldest, to be polled
    /// in place. Whatever is done to the task, it stays tracked under its
    /// id and in its place, and nothing else changes.
    pub fn task_mut(&mut self, index: usize) -> (task: &mut Task<T::Output>)
        requires
            index < old(self).ids().len(),
        ensures
            *task == old(self).tasks()[index as int],
            final(self).tasks() == old(self).tasks().update(index as int, *final(task)),
            final(self).ids() == old(self).ids(),
            final(self).helper() == old(self).helper(),
            final(self).spec_progress() == old(self).spec_progress(),
            final(self).wf() == old(self).wf(),
    {
        &mut self.awaiting[index].task
    }

    /// How many tasks are tracked.
    pub fn tracked_count(&self) -> (count: usize)
        ensures
            count == self.ids().len(),
    {
        self.awaiting.len()
    }

    /// In a well-formed state no id is tracked twice, every tracked id is
    /// below the count of started tasks, and the tasks done and the tasks
    /// tracked together are no more than the tasks started.
    pub proof fn lemma_wf_ids(&self)
        requires
            self.wf(),
        ensures
            self.ids().no_duplicates(),
            self.ids().len() == self.tasks().len(),
            forall|i: int|
                0 <= i < self.ids().len() ==> #[trigger] self.ids()[i]
                    < self.spec_progress().total,
            self.spec_progress().done + self.ids().len() <= self.spec_progress().total,
    {
        assert forall|i: int, j: int|
            0 <= i < self.ids().len() && 0 <= j < self.ids().len() && i != j implies self.ids()[i]
            != self.ids()[j] by {
            if i < j {
                assert(self.ids()[i] < self.ids()[j]);
            } else {
                assert(self.ids()[j] < self.ids()[i]);
            }
        }
    }
}

/// After a poll of every tracked task, the tasks that stay and the outputs
/// that came make up the tasks that were tracked: the task with id `ids[i]`
/// stays exactly when `polled[i]` is `None`, and no other id appears.
pub proof fn lemma_kept_ids<O>(ids: Seq<u32>, polled: Seq<Option<O>>)
    requires
        ids.len() == polled.len(),
        ids.no_duplicates(),
    ensures
        kept(ids, polled).len() + completed(polled).len() == ids.len(),
        kept(ids, polled).no_duplicates(),
        forall|id: u32| #[trigger] kept(ids, polled).contains(id) ==> ids.contains(id),
        forall|i: int|
            0 <= i < ids.len() ==> (kept(ids, polled).contains(#[trigger] ids[i])
                <==> polled[i] is None),
    decreases ids.len(),
{
    if ids.len() > 0 {
        let front = ids.drop_last();
        let front_polled = polled.drop_last();
        lemma_kept_ids(front, front_polled);
        let rest = kept(front, front_polled);
        let all = kept(ids, polled);
        assert forall|id: u32| #[trigger] all.contains(id) implies ids.contains(id) by {
            let k = choose|k: int| 0 <= k < all.len() && all[k] == id;
            if k < rest.len() {
                assert(rest.contains(all[k]));
                let m = choose|m: int| 0 <= m < front.len() && front[m] == id;
                assert(ids[m] == id);
            } else {
                assert(ids[ids.len() - 1] == id);
            }
        }
        assert(!rest.contains(ids.last())) by {
            if rest.contains(ids.last()) {
                let m = choose|m: int| 0 <= m < front.len() && front[m] == ids.last();
                assert(ids[m] == ids[ids.len() - 1]);
            }
        }
        assert forall|i: int| 0 <= i < ids.len() implies (all.contains(#[trigger] ids[i])
            <==> polled[i] is None) by {
            if i < ids.len() - 1 {
                assert(front[i] == ids[i]);
                assert(front_polled[i] == polled[i]);
                if rest.contains(ids[i]) {
                    let k = choose|k: int| 0 <= k < rest.len() && rest[k] == ids[i];
                    assert(all[k] == ids[i]);
                }
                if all.contains(ids[i]) {
                    let k = choose|k: int| 0 <= k < all.len() && all[k] == ids[i];
                    if k < rest.len() {
                        assert(rest[k] == ids[i]);
                    } else {
                        assert(ids[ids.len() - 1] == ids[i]);
                    }
                }
            } else {
                if polled.last() is None {
                    assert(all[all.len() - 1] == ids[i]);
                } else {
                    assert(all == rest);
                }
            }
        }
    }
}

/// Stops tracking every task and sets both counts to zero. The tasks are
/// dropped, which cancels them. The helper is left as it is.
pub fn reset_task_helper_state<T: TaskHelper>(state: &mut TaskHelperState<T>)
    ensures
        final(state).wf(),
        final(state).ids() == Seq::<u32>::empty(),
        final(state).tasks() == Seq::<Task<T::Output>>::empty(),
        final(state).spec_progress() == (Progress { done: 0, total: 0 }),
        final(state).helper() == old(state).helper(),
{
    state.awaiting.clear();
    state.progress.done = 0;
    state.progress.total = 0;
    assert(state.ids() =~= Seq::<u32>::empty());
    assert(state.tasks() =~= Seq::<Task<T::Output>>::empty());
}

/// Asks the helper whether a batch of tasks is to be started now.
pub fn rc_handle_start_tasks<T: TaskHelper>(
    state: &TaskHelperState<T>,
    param: &T::InputRcParam<'_, '_>,
) -> (start: bool)
    ensures
        start == state.helper().wants_start(param),
{
    state.t.rc_start_tasks(param)
}

/// Begins to track `tasks`, in their order, and counts them as started. The
/// helper is left as it is.
pub fn track_tasks<T: TaskHelper>(state: &mut TaskHelperState<T>, tasks: Vec<Task<T::Output>>)
    requires
        old(state).wf(),
        old(state).spec_progress().total + tasks@.len() <= u32::MAX,
    ensures
        final(state).wf(),
        final(state).helper() == old(state).helper(),
        final(state).spec_progress() == (Progress {
            done: old(state).spec_progress().done,
            total: (old(state).spec_progress().total + tasks@.len()) as u32,
        }),
        final(state).ids() == old(state).ids() + fresh_ids(
            old(state).spec_progress().total,
            tasks@.len(),
        ),
        final(state).tasks() == old(state).tasks() + tasks@,
{
    let ghost batch = tasks@;
    let ghost first = old(state).spec_progress().total;
    for task in it: tasks
        invariant
            it.seq() == batch,
            first == old(state).spec_progress().total,
            first + batch.len() <= u32::MAX,
            state.t == old(state).t,
            state.progress.done == old(state).progress.done,
            state.progress.total == first + it.index(),
            state.progress.done + state.ids().len() <= state.progress.total,
            forall|i: int|
                0 <= i < state.ids().len() ==> #[trigger] state.ids()[i] < state.progress.total,
            forall|i: int, j: int|
                0 <= i < j < state.ids().len() ==> #[trigger] state.ids()[i]
                    < #[trigger] state.ids()[j],
            state.ids() == old(state).ids() + fresh_ids(first, it.index() as nat),
            state.tasks() == old(state).tasks() + batch.take(it.index() as int),
    {
        let ghost before = *state;
        let id = state.progress.total;
        state.awaiting.push(AwaitingTask { id, task });
        state.progress.total = id + 1;
        assert(state.ids() =~= before.ids().push(id));
        assert(state.tasks() =~= before.tasks().push(task));
        assert(fresh_ids(first, (it.index() + 1) as nat) =~= fresh_ids(first, it.index() as nat).push(
            id,
        ));
        assert(batch.take(it.index() + 1) =~= batch.take(it.index() as int).push(task));
    }
    assert(batch.take(batch.len() as int) =~= batch);
}

/// Lets the helper start a batch of tasks and begins to track them, in the
/// order in which the helper returned them. Each is counted as started.
///
/// The count of started tasks is a `u32`. Where the batch would take it past
/// `u32::MAX`, nothing is tracked or counted and the batch comes back in
/// `Err`, for the caller to deal with.
pub fn handle_start_tasks<T: TaskHelper>(
    state: &mut TaskHelperState<T>,
    param: &mut T::InputParam<'_, '_>,
) -> (tracking: Result<(), Vec<Task<T::Output>>>)
    requires
        old(state).wf(),
    ensures
        final(state).wf(),
        final(state).spec_progress().done == old(state).spec_progress().done,
        exists|tasks: Seq<Task<T::Output>>|
            {
                &&& #[trigger] old(state).helper().started(
                    *old(param),
                    final(state).helper(),
                    *final(param),
                    tasks,
                )
                &&& tracking is Ok <==> old(state).spec_progress().total + tasks.len() <= u32::MAX
                &&& match tracking {
                    Ok(_) => {
                        &&& final(state).spec_progress().total == old(state).spec_progress().total
                            + tasks.len()
                        &&& final(state).ids() == old(state).ids() + fresh_ids(
                            old(state).spec_progress().total,
                            tasks.len(),
                        )
                        &&& final(state).tasks() == old(state).tasks() + tasks
                    },
                    Err(batch) => {
                        &&& batch@ == tasks
                        &&& final(state).spec_progress().total == old(state).spec_progress().total
                        &&& final(state).ids() == old(state).ids()
                        &&& final(state).tasks() == old(state).tasks()
                    },
                }
            },
{
    let tasks = state.t.start_tasks(param);
    let ghost batch = tasks@;
    assert(old(state).helper().started(*old(param), state.helper(), *param, batch));
    let room = (u32::MAX - state.progress.total) as usize;
    if tasks.len() <= room {
        track_tasks(state, tasks);
        Ok(())
    } else {
        Err(tasks)
    }
}

/// Settles the tracked tasks by what their polls gave: `polled[i]` is the
/// result of polling the `i`-th tracked task, oldest first.
///
/// A task whose poll gave an output is no longer tracked, and its output is
/// handed to the helper; the outputs go to the helper in the order of the
/// polls. With `counted`, every such task is also counted as done. A task
/// whose poll gave nothing stays tracked, as it is, under its id and in its
/// place among those that stay.
fn settle_polled<T: TaskHelper>(
    state: &mut TaskHelperState<T>,
    param: &mut T::OutputParam<'_, '_>,
    polled: Vec<Option<T::Output>>,
    counted: bool,
)
    requires
        old(state).wf(),
        polled@.len() == old(state).ids().len(),
    ensures
        final(state).wf(),
        final(state).ids() == kept(old(state).ids(), polled@),
        final(state).tasks() == kept(old(state).tasks(), polled@),
        handled_all(
            old(state).helper(),
            *old(param),
            completed(polled@),
            final(state).helper(),
            *final(param),
        ),
        final(state).spec_progress().total == old(state).spec_progress().total,
        final(state).spec_progress().done == old(state).spec_progress().done + if counted {
            completed(polled@).len()
        } else {
            0
        },
{
    let mut polled = polled;
    let mut pending: Vec<AwaitingTask<T::Output>> = Vec::new();
    core::mem::swap(&mut state.awaiting, &mut pending);
    let ghost outcomes = polled@;
    let ghost ids = old(state).ids();
    let ghost tasks = old(state).tasks();
    assert(state.ids() =~= kept(ids.take(0), outcomes.take(0)));
    assert(state.tasks() =~= kept(tasks.take(0), outcomes.take(0)));
    let mut i: usize = 0;
    for entry in it: pending
        invariant
            i == it.index(),
            ids.len() <= usize::MAX,
            it.seq().len() == ids.len(),
            forall|i: int| 0 <= i < ids.len() ==> ids[i] == (#[trigger] it.seq()[i]).id,
            tasks.len() == ids.len(),
            forall|i: int| 0 <= i < ids.len() ==> tasks[i] == (#[trigger] it.seq()[i]).task,
            forall|i: int| 0 <= i < ids.len() ==> (#[trigger] ids[i]) < old(state).progress.total,
            forall|i: int, j: int|
                0 <= i < j < ids.len() ==> (#[trigger] ids[i]) < (#[trigger] ids[j]),
            polled@.len() == outcomes.len() == ids.len(),
            forall|i: int| it.index() <= i < ids.len() ==> polled@[i] == outcomes[i],
            state.progress.total == old(state).progress.total,
            state.progress.done == old(state).progress.done + if counted {
                completed(outcomes.take(it.index() as int)).len()
            } else {
                0
            },
            state.progress.done + state.awaiting@.len() + (ids.len() - it.index())
                <= state.progress.total,
            forall|i: int|
                0 <= i < state.awaiting@.len() ==> (#[trigger] state.awaiting@[i]).id
                    < state.progress.total,
            forall|i: int, j: int|
                0 <= i < j < state.awaiting@.len() ==> (#[trigger] state.awaiting@[i]).id < (
                #[trigger] state.awaiting@[j]).id,
            forall|i: int|
                0 <= i < state.awaiting@.len() && it.index() < ids.len() ==> (
                #[trigger] state.awaiting@[i]).id < ids[it.index() as int],
            state.ids() == kept(ids.take(it.index() as int), outcomes.take(it.index() as int)),
            state.tasks() == kept(
                tasks.take(it.index() as int),
                outcomes.take(it.index() as int),
            ),
            handled_all(
                old(state).t,
                *old(param),
                completed(outcomes.take(it.index() as int)),
                state.t,
                *param,
            ),
    {
        let ghost before = *state;
        let ghost param_before = *param;
        let ghost at = it.index() as int;
        let mut outcome: Option<T::Output> = None;
        core::mem::swap(&mut polled[i], &mut outcome);
        proof {
            assert(outcome == outcomes[at]);
            assert(outcomes.take(at + 1).drop_last() =~= outcomes.take(at));
            assert(outcomes.take(at + 1).last() == outcomes[at]);
            assert(ids.take(at + 1).drop_last() =~= ids.take(at));
            assert(tasks.take(at + 1).drop_last() =~= tasks.take(at));
        }
        match outcome {
            Some(out) => {
                state.t.handle_output(param, out);
                if counted {
                    state.progress.done = state.progress.done + 1;
                }
                proof {
                    assert(completed(outcomes.take(at + 1)) == completed(outcomes.take(at)).push(
                        out,
                    ));
                    lemma_handled_all_push(
                        old(state).t,
                        *old(param),
                        completed(outcomes.take(at)),
                        before.t,
                        param_before,
                        out,
                        state.t,
                        *param,
                    );
                    assert(state.ids() =~= before.ids());
                    assert(state.tasks() =~= before.tasks());
                }
            },
            None => {
                state.awaiting.push(entry);
                proof {
                    assert(completed(outcomes.take(at + 1)) == completed(outcomes.take(at)));
                    assert(state.ids() =~= before.ids().push(entry.id));
                    assert(state.tasks() =~= before.tasks().push(entry.task));
                }
            },
        }
        i = i + 1;
    }
    assert(ids.take(ids.len() as int) =~= ids);
    assert(tasks.take(ids.len() as int) =~= tasks);
    assert(outcomes.take(ids.len() as int) =~= outcomes);
}

/// Takes what one poll of every tracked task gave: `polled[i]` is the result
/// of polling the `i`-th tracked task, oldest first.
///
/// The output of each task that has finished is handed to the helper, in the
/// order of the polls, and that task is no longer tracked. The other tasks
/// stay tracked, and the counts are left as they are.
pub fn handle_task_outputs<T: TaskHelper>(
    state: &mut TaskHelperState<T>,
    param: &mut T::OutputParam<'_, '_>,
    polled: Vec<Option<T::Output>>,
)
    requires
        old(state).wf(),
        polled@.len() == old(state).ids().len(),
    ensures
        final(state).wf(),
        final(state).ids() == kept(old(state).ids(), polled@),
        final(state).tasks() == kept(old(state).tasks(), polled@),
        handled_all(
            old(state).helper(),
            *old(param),
            completed(polled@),
            final(state).helper(),
            *final(param),
        ),
        final(state).spec_progress() == old(state).spec_progress(),
{
    settle_polled(state, param, polled, false);
}

/// Takes what one poll of every tracked task gave: `polled[i]` is the result
/// of polling the `i`-th tracked task, oldest first.
///
/// The output of each task that has finished is handed to the helper, in the
/// order of the polls; that task is no longer tracked and is counted as
/// done. The other tasks stay tracked. Returns the counts, with a total of
/// at least one.
pub fn handle_task_outputs_progress<T: TaskHelper>(
    state: &mut TaskHelperState<T>,
    param: &mut T::OutputParam<'_, '_>,
    polled: Vec<Option<T::Output>>,
) -> (progress: Progress)
    requires
        old(state).wf(),
        polled@.len() == old(state).ids().len(),
    ensures
        final(state).wf(),
        final(state).ids() == kept(old(state).ids(), polled@),
        final(state).tasks() == kept(old(state).tasks(), polled@),
        handled_all(
            old(state).helper(),
            *old(param),
            completed(polled@),
            final(state).helper(),
            *final(param),
        ),
        final(state).spec_progress() == (Progress {
            done: (old(state).spec_progress().done + completed(polled@).len()) as u32,
            total: old(state).spec_progress().total,
        }),
        progress == final(state).spec_progress().reported(),
        progress.total >= 1,
{
    settle_polled(state, param, polled, true);
    state.progress.clamped()
}

} // verus!
