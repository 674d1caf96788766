use vstd::prelude::*;
use bytes::Bytes;
use crate::chunk::{chunk_bytes, chunk_slice, concat, lemma_concat_first};
use crate::errors::{IoFailure, JoinFailure};
use crate::queue::{ChunkQueue, CAPACITY};
use crate::task::{aborted, join_outcome, joined, AutoAbortJoinHandle, TaskState};

verus! {

/// What a writer and its worker amount to at one moment.
pub struct WriterView {
    /// The contents of the chunks that `write` has accepted, in call order.
    pub accepted: Seq<Seq<u8>>,
    /// The contents of the chunks that wait in the queue, oldest first.
    pub pending: Seq<Seq<u8>>,
    /// The bytes that the worker has written to the file.
    pub written: Seq<u8>,
    /// Whether the producer's side of the queue is closed.
    pub closed: bool,
    /// Where the worker stands.
    pub task: TaskState<Result<(), IoFailure>>,
    /// Whether `done` has reported success.
    pub completed: bool,
}

/// What awaiting the worker gives: its own result, or an I/O failure that
/// stands for a worker that panicked or was cancelled.
pub open spec fn wait_outcome(task: TaskState<Result<(), IoFailure>>) -> Option<
    Result<(), IoFailure>,
> {
    match join_outcome(task) {
        None => None,
        Some(Ok(result)) => Some(result),
        Some(Err(failure)) => Some(Err(IoFailure::Task(failure))),
    }
}

/// Whether a worker has run to its end and returned success.
pub open spec fn succeeded(task: TaskState<Result<(), IoFailure>>) -> bool {
    task matches TaskState::Returned(result) && result is Ok
}

/// Appends `bytes` to `file`.
fn append(file: &mut Vec<u8>, bytes: &[u8])
    ensures
        final(file)@ == old(file)@ + bytes@,
{
    let mut i: usize = 0;
    while i < bytes.len()
        invariant
            i <= bytes.len(),
            file@ == old(file)@ + bytes@.take(i as int),
        decreases bytes.len() - i,
    {
        file.push(bytes[i]);
        assert(bytes@.take(i as int + 1) =~= bytes@.take(i as int).push(bytes@[i as int]));
        i += 1;
    }
    assert(bytes@.take(i as int) =~= bytes@);
}

/// What the worker has just seen.
#[derive(Debug)]
pub enum WorkerEvent {
    /// The queue handed out a chunk, or `None` once it is closed and empty.
    Received(Option<Bytes>),
    /// Writing the last chunk to the file came to this.
    Wrote(Result<(), IoFailure>),
    /// Flushing the file came to this.
    Flushed(Result<(), IoFailure>),
}

/// What the worker does next.
#[derive(Debug)]
pub enum WorkerAction {
    /// Take the next chunk from the queue, waiting for one if need be.
    Receive,
    /// Write this chunk to the file, all of it.
    Write(Bytes),
    /// Flush the file.
    Flush,
    /// End, with this result.
    Exit(Result<(), IoFailure>),
}

/// The worker's loop, one decision at a time. It starts by receiving. Each
/// chunk received is written, and after a write that went well the next is
/// received. The first write that fails ends the loop with its failure. A
/// queue that is closed and empty is answered by a flush, whose outcome ends
/// the loop. Once the writer has been given up, whatever has just happened,
/// the loop ends as cancelled: nothing more is written and nothing flushed.
pub open spec fn worker_action(given_up: bool, event: WorkerEvent) -> WorkerAction {
    if given_up {
        WorkerAction::Exit(Err(IoFailure::Task(JoinFailure::Cancelled)))
    } else {
        match event {
            WorkerEvent::Received(Some(chunk)) => WorkerAction::Write(chunk),
            WorkerEvent::Received(None) => WorkerAction::Flush,
            WorkerEvent::Wrote(Ok(_)) => WorkerAction::Receive,
            WorkerEvent::Wrote(Err(failure)) => WorkerAction::Exit(Err(failure)),
            WorkerEvent::Flushed(outcome) => WorkerAction::Exit(outcome),
        }
    }
}

/// Decides what the worker does after `event`; `given_up` says whether the
/// writer has been given up in the meantime.
pub fn worker_step(given_up: bool, event: WorkerEvent) -> (action: WorkerAction)
    ensures
        action == worker_action(given_up, event),
{
    if given_up {
        return WorkerAction::Exit(Err(IoFailure::Task(JoinFailure::Cancelled)));
    }
    match event {
        WorkerEvent::Received(Some(chunk)) => WorkerAction::Write(chunk),
        WorkerEvent::Received(None) => WorkerAction::Flush,
        WorkerEvent::Wrote(Ok(_)) => WorkerAction::Receive,
        WorkerEvent::Wrote(Err(failure)) => WorkerAction::Exit(Err(failure)),
        WorkerEvent::Flushed(outcome) => WorkerAction::Exit(outcome),
    }
}

/// What a call of `write` reports.
#[derive(Debug)]
pub enum WriteStatus {
    /// The chunk is in the queue.
    Accepted,
    /// The queue is full and the worker alive: the chunk comes back, to be
    /// offered again once the worker has taken a turn.
    Blocked(Bytes),
    /// The worker has ended; this is its outcome.
    Failed(IoFailure),
}

impl WriterView {
    /// What holds of every writer: the queue respects its capacity; while
    /// the worker runs, the file followed by the waiting chunks is exactly
    /// what was accepted, in order; a worker ends in success only after the
    /// producer closed the queue and every accepted byte is in the file.
    pub open spec fn inv(self) -> bool {
        &&& self.pending.len() <= CAPACITY
        &&& self.task is Running ==> self.written + concat(self.pending) == concat(self.accepted)
        &&& succeeded(self.task) ==> self.closed && self.pending.len() == 0 && self.written
            == concat(self.accepted)
        &&& self.completed ==> self.closed && self.task is Joined && self.written == concat(
            self.accepted,
        )
    }

    /// A writer as `new` makes it.
    pub open spec fn fresh() -> WriterView {
        WriterView {
            accepted: Seq::empty(),
            pending: Seq::empty(),
            written: Seq::empty(),
            closed: false,
            task: TaskState::Running,
            completed: false,
        }
    }

    /// Whether `write` may be called: no earlier call has reported the
    /// worker's end, and `done` has not been called.
    pub open spec fn writable(self) -> bool {
        !(self.task is Joined) && !self.closed
    }

    /// The writer after `write` was offered a chunk of content `chunk`.
    pub open spec fn after_write(self, chunk: Seq<u8>) -> WriterView {
        if self.task is Running {
            if self.pending.len() < CAPACITY {
                WriterView {
                    accepted: self.accepted.push(chunk),
                    pending: self.pending.push(chunk),
                    ..self
                }
            } else {
                self
            }
        } else {
            WriterView { task: TaskState::Joined, ..self }
        }
    }

    /// The writer after the worker took one turn, in which the disk answered
    /// `disk` to what the worker asked of it. With a chunk waiting the worker
    /// writes it; with none and the queue closed it flushes and ends; with
    /// none and the queue open, or once it has ended, it does nothing.
    pub open spec fn after_turn(self, disk: Result<(), IoFailure>) -> WriterView {
        if !(self.task is Running) {
            self
        } else if self.pending.len() > 0 {
            match disk {
                Ok(_) => WriterView {
                    pending: self.pending.drop_first(),
                    written: self.written + self.pending.first(),
                    ..self
                },
                Err(_) => WriterView {
                    pending: self.pending.drop_first(),
                    task: TaskState::Returned(disk),
                    ..self
                },
            }
        } else if self.closed {
            WriterView { task: TaskState::Returned(disk), ..self }
        } else {
            self
        }
    }

    /// The writer after a call of `done`.
    pub open spec fn after_done(self) -> WriterView {
        WriterView {
            closed: true,
            task: joined(self.task),
            completed: succeeded(self.task),
            ..self
        }
    }

    /// The writer after it was given up.
    pub open spec fn after_abort(self) -> WriterView {
        WriterView { closed: true, task: aborted(self.task), ..self }
    }

    /// The writer after the worker took one turn for each answer in `disk`.
    pub open spec fn after_turns(self, disk: Seq<Result<(), IoFailure>>) -> WriterView
        decreases disk.len(),
    {
        if disk.len() == 0 {
            self
        } else {
            self.after_turns(disk.drop_last()).after_turn(disk.last())
        }
    }
}

/// Bridges a sequence of chunks to the one worker that writes them to a
/// file, through a bounded queue. This is the bridge without its I/O: the
/// caller says what the disk answered, and runs the worker's turns.
pub struct AsyncFileWriter {
    handle: AutoAbortJoinHandle<Result<(), IoFailure>>,
    queue: ChunkQueue,
    file: Vec<u8>,
    accepted: Ghost<Seq<Seq<u8>>>,
    completed: bool,
}

impl View for AsyncFileWriter {
    type V = WriterView;

    closed spec fn view(&self) -> WriterView {
        WriterView {
            accepted: self.accepted@,
            pending: self.queue.pending(),
            written: self.file@,
            closed: self.queue.shut(),
            task: self.handle.task(),
            completed: self.completed,
        }
    }
}

impl AsyncFileWriter {
    pub open spec fn wf(&self) -> bool {
        self@.inv()
    }

    /// Starts a writer on a destination that the caller has prepared:
    /// `opened` is what creating the missing parent directories and creating
    /// or truncating the file came to. Where that failed there is no writer
    /// and no worker, only the failure.
    pub fn new(opened: Result<(), IoFailure>) -> (made: Result<AsyncFileWriter, IoFailure>)
        ensures
            match opened {
                Ok(_) => made matches Ok(writer) && writer.wf() && writer@ == WriterView::fresh(),
                Err(failure) => made matches Err(reported) && reported == failure,
            },
    {
        match opened {
            Ok(_) => {
                let writer = AsyncFileWriter {
                    handle: AutoAbortJoinHandle::new(TaskState::Running),
                    queue: ChunkQueue::new(),
                    file: Vec::new(),
                    accepted: Ghost(Seq::empty()),
                    completed: false,
                };
                proof {
                    assert(concat(Seq::<Seq<u8>>::empty()) =~= Seq::<u8>::empty());
                    assert(writer@.written + concat(writer@.pending) =~= concat(writer@.accepted));
                }
                Ok(writer)
            },
            Err(failure) => Err(failure),
        }
    }

    /// Awaits the worker: `None` while it runs, then its result, with a
    /// worker that panicked or was cancelled reported as an I/O failure.
    fn wait(handle: &mut AutoAbortJoinHandle<Result<(), IoFailure>>) -> (outcome: Option<
        Result<(), IoFailure>,
    >)
        requires
            !(old(handle).task() is Joined),
        ensures
            outcome == wait_outcome(old(handle).task()),
            final(handle).task() == joined(old(handle).task()),
    {
        match handle.join() {
            None => None,
            Some(Ok(result)) => Some(result),
            Some(Err(failure)) => Some(Err(IoFailure::Task(failure))),
        }
    }

    /// Offers `bytes` to the queue, racing that against the worker's end. A
    /// worker that has ended wins: its failure is reported, at once and
    /// whatever room the queue has. Otherwise the chunk is accepted where
    /// there is room, and handed back where there is none.
    ///
    /// Not to be called again once it has reported a failure, nor after
    /// `done`.
    pub fn write(&mut self, bytes: Bytes) -> (status: WriteStatus)
        requires
            old(self).wf(),
            old(self)@.writable(),
        ensures
            final(self).wf(),
            final(self)@ == old(self)@.after_write(chunk_bytes(bytes)),
            match old(self)@.task {
                TaskState::Running => if old(self)@.pending.len() < CAPACITY {
                    status is Accepted
                } else {
                    status == WriteStatus::Blocked(bytes)
                },
                other => wait_outcome(other) matches Some(Err(failure)) && status
                    == WriteStatus::Failed(failure),
            },
    {
        match Self::wait(&mut self.handle) {
            Some(Err(failure)) => WriteStatus::Failed(failure),
            Some(Ok(_)) => {
                // A worker ends in success only after the queue was closed.
                proof {
                    assert(succeeded(old(self)@.task));
                    assert(false);
                }
                WriteStatus::Accepted
            },
            None => match self.queue.try_send(bytes) {
                Some(refused) => WriteStatus::Blocked(refused),
                None => {
                    proof {
                        self.accepted@ = self.accepted@.push(chunk_bytes(bytes));
                        let before = old(self)@;
                        let after = self@;
                        assert(after.pending.drop_last() =~= before.pending);
                        assert(after.accepted.drop_last() =~= before.accepted);
                        assert(after.written + concat(after.pending) =~= (before.written + concat(
                            before.pending,
                        )) + chunk_bytes(bytes));
                    }
                    WriteStatus::Accepted
                },
            },
        }
    }

    /// Lets the worker take one turn; `disk` is what the disk answers to the
    /// write or flush that the turn asks for, if it asks for one.
    pub fn worker_turn(&mut self, disk: Result<(), IoFailure>)
        requires
            old(self).wf(),
        ensures
            final(self).wf(),
            final(self)@ == old(self)@.after_turn(disk),
    {
        let given_up = self.handle.is_cancelled();
        if self.handle.is_finished() && !given_up {
            return ;
        }
        let received = if given_up {
            None
        } else {
            self.queue.recv()
        };
        if !given_up && received.is_none() && !self.queue.is_closed() {
            return ;
        }
        match worker_step(given_up, WorkerEvent::Received(received)) {
            WorkerAction::Write(chunk) => {
                if disk.is_ok() {
                    append(&mut self.file, chunk_slice(&chunk));
                    proof {
                        lemma_concat_first(old(self)@.pending);
                        let before = old(self)@;
                        let after = self@;
                        assert(after.written + concat(after.pending) =~= before.written + concat(
                            before.pending,
                        ));
                    }
                }
                match worker_step(given_up, WorkerEvent::Wrote(disk)) {
                    WorkerAction::Exit(result) => {
                        self.handle.complete(result);
                    },
                    _ => {},
                }
            },
            WorkerAction::Flush => {
                match worker_step(given_up, WorkerEvent::Flushed(disk)) {
                    WorkerAction::Exit(result) => {
                        self.handle.complete(result);
                        proof {
                            assert(concat(self@.pending) =~= Seq::<u8>::empty());
                            assert(self@.written =~= self@.written + concat(self@.pending));
                        }
                    },
                    _ => {},
                }
            },
            _ => {},
        }
    }

    /// Closes the producer's side and awaits the worker: `None` while the
    /// worker still runs, then the worker's outcome. It is success exactly
    /// where the worker returned success, and then every byte of every
    /// accepted chunk is in the file, in the order of the calls of `write`.
    ///
    /// Not to be called once it, or `write`, has reported the worker's end.
    pub fn done(&mut self) -> (outcome: Option<Result<(), IoFailure>>)
        requires
            old(self).wf(),
            !(old(self)@.task is Joined),
        ensures
            final(self).wf(),
            final(self)@ == old(self)@.after_done(),
            outcome == wait_outcome(old(self)@.task),
            (outcome matches Some(result) && result is Ok) <==> succeeded(old(self)@.task),
            (outcome matches Some(result) && result is Ok) ==> final(self)@.written == concat(
                final(self)@.accepted,
            ),
    {
        self.queue.close();
        let outcome = Self::wait(&mut self.handle);
        self.completed = match &outcome {
            Some(Ok(_)) => true,
            _ => false,
        };
        outcome
    }

    /// Gives the writer up, as leaving its scope without `done` does: the
    /// queue is closed and a worker that still runs is cancelled, so that no
    /// later turn writes or flushes anything.
    pub fn abort(&mut self)
        requires
            old(self).wf(),
        ensures
            final(self).wf(),
            final(self)@ == old(self)@.after_abort(),
    {
        self.queue.close();
        let mut handle = AutoAbortJoinHandle::new(TaskState::Joined);
        core::mem::swap(&mut self.handle, &mut handle);
        self.handle = AutoAbortJoinHandle::new(handle.abort());
    }

    /// The bytes that the worker has written to the file so far.
    pub fn written(&self) -> (bytes: &Vec<u8>)
        ensures
            bytes@ == self@.written,
    {
        &self.file
    }

    /// How many chunks wait in the queue.
    pub fn backlog(&self) -> (n: usize)
        requires
            self.wf(),
        ensures
            n == self@.pending.len(),
    {
        self.queue.len()
    }

    /// Whether the worker has ended, in whatever way.
    pub fn worker_ended(&self) -> (ended: bool)
        ensures
            ended == !(self@.task is Running),
    {
        self.handle.is_finished()
    }
}

/// Every step keeps what holds of every writer.
pub proof fn lemma_steps_keep_inv(w: WriterView, chunk: Seq<u8>, disk: Result<(), IoFailure>)
    requires
        w.inv(),
    ensures
        WriterView::fresh().inv(),
        w.writable() ==> w.after_write(chunk).inv(),
        w.after_turn(disk).inv(),
        !(w.task is Joined) ==> w.after_done().inv(),
        w.after_abort().inv(),
{
    let fresh = WriterView::fresh();
    assert(concat(Seq::<Seq<u8>>::empty()) =~= Seq::<u8>::empty());
    assert(fresh.written + concat(fresh.pending) =~= concat(fresh.accepted));
    if w.writable() && w.task is Running && w.pending.len() < CAPACITY {
        let after = w.after_write(chunk);
        assert(after.pending.drop_last() =~= w.pending);
        assert(after.accepted.drop_last() =~= w.accepted);
        assert(after.written + concat(after.pending) =~= (w.written + concat(w.pending)) + chunk);
    }
    if w.task is Running {
        let after = w.after_turn(disk);
        if w.pending.len() > 0 {
            if disk is Ok {
                lemma_concat_first(w.pending);
                assert(after.written + concat(after.pending) =~= w.written + concat(w.pending));
            }
        } else {
            assert(concat(w.pending) =~= Seq::<u8>::empty());
            assert(w.written =~= w.written + concat(w.pending));
        }
    }
}

/// Order and completeness: once the worker has ended in success, the file
/// holds the bytes of every accepted chunk, in the order of acceptance, and
/// nothing else.
pub proof fn lemma_success_means_all_written(w: WriterView)
    requires
        w.inv(),
        succeeded(w.task) || w.completed,
    ensures
        w.written == concat(w.accepted),
        w.closed,
{
}

/// Backpressure: with the queue at its capacity and the worker alive, one
/// more chunk is not taken in and nothing changes; after one turn of the
/// worker there is room for exactly one chunk again.
pub proof fn lemma_backpressure(w: WriterView, chunk: Seq<u8>, disk: Result<(), IoFailure>)
    requires
        w.inv(),
        w.task is Running,
        w.pending.len() == CAPACITY,
    ensures
        w.after_write(chunk) == w,
        w.after_turn(disk).pending.len() == CAPACITY - 1,
        disk is Ok ==> w.after_turn(disk).after_write(chunk).accepted == w.accepted.push(chunk)
            && w.after_turn(disk).after_write(chunk).pending.len() == CAPACITY,
{
}

/// Abort: once a writer has been given up, no turn of the worker changes
/// anything, however many are tried; a worker that had not ended in success
/// before never does so afterwards. The worker's own decision, once it is
/// told that the writer was given up, is to end without success, whatever
/// has just happened to it.
pub proof fn lemma_abort_stops_worker(w: WriterView, disk: Seq<Result<(), IoFailure>>)
    requires
        w.inv(),
    ensures
        !(w.after_abort().task is Running),
        w.task is Running ==> w.after_abort().task is Cancelled,
        w.after_abort().after_turns(disk) == w.after_abort(),
        !succeeded(w.task) ==> !succeeded(w.after_abort().after_turns(disk).task),
        forall|event: WorkerEvent| #[trigger]
            worker_action(true, event) matches WorkerAction::Exit(Err(_)),
    decreases disk.len(),
{
    if disk.len() > 0 {
        lemma_abort_stops_worker(w, disk.drop_last());
    }
}

} // verus!
