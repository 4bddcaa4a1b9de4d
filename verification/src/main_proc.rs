use crate::cloud_manager::Task;
use crate::errors::{CatError, CloudError, DownloadError};
use vstd::prelude::*;

verus! {

/// Walks a list of statuses one step at a time and then keeps giving the last one.
pub struct StatusIter<'a, T> {
    index: usize,
    data: &'a [T],
}

/// Position reached after `n` steps from the start, over `len` statuses.
pub open spec fn steps_taken(n: nat, len: nat) -> nat {
    if n < len {
        n
    } else {
        len
    }
}

/// Position of the status given at position `index` of `len` statuses.
pub open spec fn status_given(index: nat, len: nat) -> int {
    if index < len {
        index as int
    } else {
        len - 1
    }
}

impl<'a, T> StatusIter<'a, T> {
    #[verifier::type_invariant]
    closed spec fn inv(self) -> bool {
        self.index <= self.data@.len()
    }

    /// Number of steps taken since the start or the last reset.
    pub closed spec fn position(&self) -> nat {
        self.index as nat
    }

    pub closed spec fn statuses(&self) -> Seq<T> {
        self.data@
    }

}

impl<'a, T: Clone> StatusIter<'a, T> {
    pub fn new(data: &'a [T]) -> (r: Self)
        ensures
            r.position() == 0,
            r.statuses() == data@,
    {
        Self { index: 0, data }
    }

    /// Starts again from the first status.
    pub fn reset(&mut self)
        ensures
            final(self).position() == 0,
            final(self).statuses() == old(self).statuses(),
    {
        self.index = 0;
    }

    /// The next status, or the last one again once all were given.
    pub fn next_status(&mut self) -> (r: &'a T)
        requires
            old(self).statuses().len() > 0,
        ensures
            final(self).statuses() == old(self).statuses(),
            final(self).position() == steps_taken(old(self).position() + 1, old(self).statuses().len()),
            old(self).position() <= old(self).statuses().len(),
            *r == old(self).statuses()[status_given(old(self).position(), old(self).statuses().len())],
    {
        proof { use_type_invariant(&*self); }
        if self.index < self.data.len() {
            let next_item = &self.data[self.index];
            self.index = self.index + 1;
            next_item
        } else {
            &self.data[self.index - 1]
        }
    }
}

/// From the start, the `n`-th status given (counting from zero) is status `n`
/// until the list runs out, and the last status from then on.
pub proof fn law_status_sticks_at_last(n: nat, len: nat)
    requires
        len > 0,
    ensures
        status_given(steps_taken(n, len), len) == if n < len { n as int } else { len - 1 },
        steps_taken(steps_taken(n, len) + 1, len) == steps_taken(n + 1, len),
{
}

/// Whether a finished job's result lets the work go on: success does, and so
/// does a failed request of a download, which is only reported; any other
/// error is handed on.
pub fn tolerate_request_error(result: Result<(), CatError>) -> (r: Result<(), CatError>)
    ensures
        match result {
            Ok(()) => r is Ok,
            Err(CatError::Cloud(CloudError::Download(DownloadError::Request(_)))) => r is Ok,
            Err(e) => r == Err::<(), CatError>(e),
        },
{
    match result {
        Ok(()) => Ok(()),
        Err(CatError::Cloud(CloudError::Download(DownloadError::Request(_)))) => Ok(()),
        Err(e) => Err(e),
    }
}

/// What the download refresh does with a task of the cloud: delete it first
/// when it failed, and download its files when it is complete.
#[derive(Debug, Clone, Copy, PartialEq, Eq, Structural)]
pub struct TaskPlan {
    pub delete_failed: bool,
    pub download: bool,
}

/// The plan for a task: a task with status -1 failed, one at 100 percent is
/// complete.
pub fn plan_task(task: &Task) -> (r: TaskPlan)
    ensures
        r.delete_failed == (task.status == -1),
        r.download == (task.percent_done == 100),
{
    TaskPlan { delete_failed: task.status == -1, download: task.percent_done == 100 }
}

/// The number of failed downloads of a task after one more, and whether the
/// refresh stops: it does once the count passes `limit`.
pub fn after_download_error(count: u32, limit: u32) -> (r: (u32, bool))
    requires
        count < u32::MAX,
    ensures
        r.0 == count + 1,
        r.1 == (count + 1 > limit),
{
    let n = count + 1;
    (n, n > limit)
}

/// What the download refresh does with a task still downloading.
#[derive(Debug, Clone, Copy, PartialEq, Eq, Structural)]
pub enum SlowQueueStep {
    /// First seen downloading: the time is recorded.
    Record,
    /// Still within the time allowed.
    Wait,
    /// Downloading for too long: the task moves to the slow queue.
    MoveToSlow,
}

/// Seconds a task may download before it moves to the slow queue.
pub const SLOW_AFTER_SECS: u64 = 1800;

/// The step for a task still downloading, given the seconds since it was
/// first seen downloading, if it was.
pub fn slow_queue_step(elapsed_secs: Option<u64>) -> (r: SlowQueueStep)
    ensures
        r == match elapsed_secs {
            None => SlowQueueStep::Record,
            Some(e) => if e > SLOW_AFTER_SECS { SlowQueueStep::MoveToSlow } else { SlowQueueStep::Wait },
        },
{
    match elapsed_secs {
        None => SlowQueueStep::Record,
        Some(e) => if e > SLOW_AFTER_SECS {
            SlowQueueStep::MoveToSlow
        } else {
            SlowQueueStep::Wait
        },
    }
}

/// What the download refresh does with a task in one round.
#[derive(Debug, Clone, Copy, PartialEq, Eq, Structural)]
pub enum TaskNext {
    /// The task is complete: its files are downloaded.
    Download,
    /// The task is still downloading, as the slow queue step says.
    Downloading(SlowQueueStep),
}

/// The round's decision for a task: whether a failed task is deleted first,
/// and what comes next.
#[derive(Debug, Clone, Copy, PartialEq, Eq, Structural)]
pub struct RefreshAction {
    pub delete_failed: bool,
    pub next: TaskNext,
}

/// The decision of the download refresh for a task, given the seconds since
/// it was first seen downloading, if it was: a task with status -1 is
/// deleted first; a complete task is downloaded; one still downloading is
/// recorded, waited for, or moved to the slow queue.
pub fn refresh_task_step(task: &Task, elapsed_secs: Option<u64>) -> (r: RefreshAction)
    ensures
        r.delete_failed == (task.status == -1),
        task.percent_done == 100 ==> r.next == TaskNext::Download,
        task.percent_done != 100 ==> r.next == TaskNext::Downloading(match elapsed_secs {
            None => SlowQueueStep::Record,
            Some(e) => if e > SLOW_AFTER_SECS { SlowQueueStep::MoveToSlow } else { SlowQueueStep::Wait },
        }),
{
    let plan = plan_task(task);
    let next = if plan.download {
        TaskNext::Download
    } else {
        TaskNext::Downloading(slow_queue_step(elapsed_secs))
    };
    RefreshAction { delete_failed: plan.delete_failed, next }
}

} // verus!
