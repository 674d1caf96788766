use vstd::prelude::*;
use crate::errors::JoinFailure;

verus! {

/// Where a spawned unit of background work stands.
#[derive(Debug)]
pub enum TaskState<T> {
    /// It has not ended yet.
    Running,
    /// It ran to its end and returned this.
    Returned(T),
    /// It panicked.
    Panicked,
    /// It was cancelled before it ended.
    Cancelled,
    /// It has ended and its outcome has been handed out.
    Joined,
}

/// What aborting does to a task: one that still runs is cancelled, one that
/// has ended is left as it is.
pub open spec fn aborted<T>(task: TaskState<T>) -> TaskState<T> {
    match task {
        TaskState::Running => TaskState::Cancelled,
        other => other,
    }
}

/// What awaiting a task gives: nothing yet while it runs, then its result or
/// the reason why there is none.
pub open spec fn join_outcome<T>(task: TaskState<T>) -> Option<Result<T, JoinFailure>> {
    match task {
        TaskState::Running => None,
        TaskState::Returned(output) => Some(Ok(output)),
        TaskState::Panicked => Some(Err(JoinFailure::Panicked)),
        TaskState::Cancelled | TaskState::Joined => Some(Err(JoinFailure::Cancelled)),
    }
}

/// What is left of a task once its outcome has been asked for.
pub open spec fn joined<T>(task: TaskState<T>) -> TaskState<T> {
    match task {
        TaskState::Running => TaskState::Running,
        _ => TaskState::Joined,
    }
}

/// A handle to a background task that cancels the task when the handle is
/// given up before the task has ended.
#[derive(Debug)]
pub struct AutoAbortJoinHandle<T> {
    task: TaskState<T>,
}

impl<T> AutoAbortJoinHandle<T> {
    /// The state of the wrapped task.
    pub closed spec fn task(&self) -> TaskState<T> {
        self.task
    }

    /// Wraps a task.
    pub fn new(task: TaskState<T>) -> (handle: Self)
        ensures
            handle.task() == task,
    {
        AutoAbortJoinHandle { task }
    }

    /// Whether the task has ended, in whatever way.
    pub fn is_finished(&self) -> (finished: bool)
        ensures
            finished == !(self.task() is Running),
    {
        match &self.task {
            TaskState::Running => false,
            _ => true,
        }
    }

    /// Whether the task was cancelled before it ended.
    pub fn is_cancelled(&self) -> (cancelled: bool)
        ensures
            cancelled == (self.task() is Cancelled),
    {
        match &self.task {
            TaskState::Cancelled => true,
            _ => false,
        }
    }

    /// Records that the task returns `output`. A task that has already ended
    /// stays as it ended.
    pub fn complete(&mut self, output: T)
        ensures
            final(self).task() == (if old(self).task() is Running {
                TaskState::Returned(output)
            } else {
                old(self).task()
            }),
    {
        if !self.is_finished() {
            self.task = TaskState::Returned(output);
        }
    }

    /// Asks for the task's outcome, as awaiting the handle does: `None` while
    /// the task runs, afterwards its result or the reason why there is none.
    /// The outcome is handed out once.
    pub fn join(&mut self) -> (outcome: Option<Result<T, JoinFailure>>)
        requires
            !(old(self).task() is Joined),
        ensures
            outcome == join_outcome(old(self).task()),
            final(self).task() == joined(old(self).task()),
    {
        if !self.is_finished() {
            return None;
        }
        let mut task = TaskState::Joined;
        core::mem::swap(&mut self.task, &mut task);
        match task {
            TaskState::Returned(output) => Some(Ok(output)),
            TaskState::Panicked => Some(Err(JoinFailure::Panicked)),
            _ => Some(Err(JoinFailure::Cancelled)),
        }
    }

    /// Gives the handle up, which is what leaving its scope does: a task that
    /// still runs is cancelled. Returns the state the task is left in.
    pub fn abort(self) -> (left: TaskState<T>)
        ensures
            left == aborted(self.task()),
    {
        match self.task {
            TaskState::Running => TaskState::Cancelled,
            other => other,
        }
    }
}

} // verus!
