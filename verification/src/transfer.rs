use vstd::prelude::*;
use bytes::Bytes;
use crate::chunk::{chunk_bytes, concat};
use crate::download::{
    download, lemma_failure_leaves_no_file, parsed_url, Action, Download, DownloadView, Event,
    Stage,
};
use crate::errors::{BinstallError, IoFailure};
use crate::http::HttpReply;
use crate::queue::CAPACITY;
use crate::writer::{
    lemma_steps_keep_inv, wait_outcome, AsyncFileWriter, WriteStatus, WriterView,
};

verus! {

/// What the world outside hands to a transfer.
#[derive(Debug)]
pub enum Input {
    /// The GET came to this.
    Response(HttpReply),
    /// Preparing the destination file came to this.
    Opened(Result<(), IoFailure>),
    /// The body yielded a chunk.
    Chunk(Bytes),
    /// Reading the body failed.
    BodyFailed(String),
    /// The body is exhausted.
    BodyEnded,
    /// The worker takes a turn, and the disk answers this to what it asks.
    WorkerTurn(Result<(), IoFailure>),
    /// The caller gives the transfer up.
    Cancelled,
}

/// What a transfer says to an input.
#[derive(Debug)]
pub enum Output {
    /// Go on.
    Continue,
    /// The queue is full: hand this chunk in again after a turn of the worker.
    Retry(Bytes),
    /// The transfer has ended, with this result.
    Finished(Result<(), BinstallError>),
    /// The transfer was given up.
    Abandoned,
    /// The input does not belong to the stage and changed nothing.
    Ignored,
}

/// A download together with its writer, at one moment.
pub struct TransferView {
    pub download: DownloadView,
    pub writer: Option<WriterView>,
}

/// Whether `output` passes on what a download in the state `before` answers
/// to `event`.
pub open spec fn passes_on(before: DownloadView, event: Event, output: Output) -> bool {
    match output {
        Output::Continue => before.answers(event, Action::OpenWriter) || before.answers(
            event,
            Action::NextChunk,
        ) || before.answers(event, Action::Finish),
        Output::Retry(_) => false,
        Output::Finished(Ok(_)) => before.answers(event, Action::Succeed),
        Output::Finished(Err(error)) => before.answers(
            event,
            Action::Fail { error, cleanup: before.armed },
        ),
        Output::Abandoned => before.answers(event, Action::Abandon { cleanup: before.armed }),
        Output::Ignored => before.answers(event, Action::Ignore),
    }
}

impl TransferView {
    /// The content of the destination file, or `None` where this transfer
    /// has left no file there.
    pub open spec fn destination(self) -> Option<Seq<u8>> {
        match self.writer {
            Some(writer) => if self.download.present {
                Some(writer.written)
            } else {
                None
            },
            None => None,
        }
    }

    /// Whether `write` would hand the chunk back.
    pub open spec fn blocked(self) -> bool {
        self.writer matches Some(writer) && writer.task is Running && writer.pending.len()
            == CAPACITY
    }

    /// What holds of every transfer: the download and the writer are each in
    /// order, there is a writer from the moment the destination was opened,
    /// and the writer has accepted exactly the chunks that were served.
    pub open spec fn inv(self) -> bool {
        &&& self.download.inv()
        &&& match self.download.stage {
            Stage::Requesting | Stage::Opening => self.writer is None,
            Stage::Reading => self.writer matches Some(writer) && writer.inv()
                && writer.writable() && writer.accepted == self.download.served,
            Stage::Writing => false,
            Stage::Closing => self.writer matches Some(writer) && writer.inv() && writer.closed
                && writer.task is Running && writer.accepted == self.download.served,
            Stage::Succeeded => self.writer matches Some(writer) && writer.inv()
                && writer.completed && writer.accepted == self.download.served,
            Stage::Failed => self.writer matches Some(writer) ==> writer.inv(),
        }
    }

    /// The transfer after the writer has been closed and asked for its end.
    pub open spec fn after_close(self, download: DownloadView, writer: WriterView) -> TransferView {
        match wait_outcome(writer.task) {
            None => TransferView { download, writer: Some(writer.after_done()) },
            Some(outcome) => TransferView {
                download: download.after(Event::Finished(outcome)),
                writer: Some(writer.after_done()),
            },
        }
    }

    /// The transfer after `input`.
    pub open spec fn after(self, input: Input) -> TransferView {
        match (self.download.stage, input, self.writer) {
            (Stage::Requesting, Input::Response(reply), _) => TransferView {
                download: self.download.after(Event::Response(reply)),
                ..self
            },
            (Stage::Opening, Input::Opened(Ok(_)), _) => TransferView {
                download: self.download.after(Event::Opened(Ok(()))),
                writer: Some(WriterView::fresh()),
            },
            (Stage::Opening, Input::Opened(Err(failure)), _) => TransferView {
                download: self.download.after(Event::Opened(Err(failure))),
                ..self
            },
            (Stage::Reading, Input::Chunk(chunk), Some(writer)) => if self.blocked() {
                self
            } else {
                let served = self.download.after(Event::Chunk(chunk));
                let written = writer.after_write(chunk_bytes(chunk));
                match wait_outcome(writer.task) {
                    Some(Err(failure)) => TransferView {
                        download: served.after(Event::Written(Err(failure))),
                        writer: Some(written.after_abort()),
                    },
                    _ => TransferView {
                        download: served.after(Event::Written(Ok(()))),
                        writer: Some(written),
                    },
                }
            },
            (Stage::Reading, Input::BodyFailed(cause), Some(writer)) => TransferView {
                download: self.download.after(Event::BodyFailed(cause)),
                writer: Some(writer.after_abort()),
            },
            (Stage::Reading, Input::BodyEnded, Some(writer)) => self.after_close(
                self.download.after(Event::BodyEnded),
                writer,
            ),
            (Stage::Reading, Input::WorkerTurn(disk), Some(writer)) => TransferView {
                writer: Some(writer.after_turn(disk)),
                ..self
            },
            (Stage::Closing, Input::WorkerTurn(disk), Some(writer)) => self.after_close(
                self.download,
                writer.after_turn(disk),
            ),
            (_, Input::Cancelled, _) => if self.download.ended() {
                self
            } else {
                TransferView {
                    download: self.download.after(Event::Cancelled),
                    writer: match self.writer {
                        Some(writer) => Some(writer.after_abort()),
                        None => None,
                    },
                }
            },
            _ => self,
        }
    }

    /// Whether `output` is what the transfer says to `input`.
    pub open spec fn says(self, input: Input, output: Output) -> bool {
        match (self.download.stage, input, self.writer) {
            (Stage::Requesting, Input::Response(reply), _) => passes_on(
                self.download,
                Event::Response(reply),
                output,
            ),
            (Stage::Opening, Input::Opened(opened), _) => passes_on(
                self.download,
                Event::Opened(opened),
                output,
            ),
            (Stage::Reading, Input::Chunk(chunk), Some(writer)) => if self.blocked() {
                output == Output::Retry(chunk)
            } else {
                passes_on(
                    self.download.after(Event::Chunk(chunk)),
                    Event::Written(
                        match wait_outcome(writer.task) {
                            Some(Err(failure)) => Err(failure),
                            _ => Ok(()),
                        },
                    ),
                    output,
                )
            },
            (Stage::Reading, Input::BodyFailed(cause), Some(writer)) => passes_on(
                self.download,
                Event::BodyFailed(cause),
                output,
            ),
            (Stage::Reading, Input::BodyEnded, Some(writer)) => match wait_outcome(writer.task) {
                None => output is Continue,
                Some(outcome) => passes_on(
                    self.download.after(Event::BodyEnded),
                    Event::Finished(outcome),
                    output,
                ),
            },
            (Stage::Reading, Input::WorkerTurn(disk), Some(writer)) => output is Continue,
            (Stage::Closing, Input::WorkerTurn(disk), Some(writer)) => match wait_outcome(
                writer.after_turn(disk).task,
            ) {
                None => output is Continue,
                Some(outcome) => passes_on(self.download, Event::Finished(outcome), output),
            },
            (_, Input::Cancelled, _) => passes_on(self.download, Event::Cancelled, output),
            _ => output is Ignored,
        }
    }
}

/// A download and its writer, run together: the whole pipeline without its
/// I/O. The caller hands in what the network and the disk did, in the order
/// in which it happened, and lets the worker take its turns when it likes.
pub struct Transfer {
    download: Download,
    writer: Option<AsyncFileWriter>,
}

impl View for Transfer {
    type V = TransferView;

    closed spec fn view(&self) -> TransferView {
        TransferView {
            download: self.download@,
            writer: match self.writer {
                Some(writer) => Some(writer@),
                None => None,
            },
        }
    }
}

/// What an action of the download means to the caller of a transfer.
fn report(action: Action) -> (output: Output)
    ensures
        match action {
            Action::OpenWriter | Action::NextChunk | Action::Finish => output is Continue,
            Action::Write(_) => output is Continue,
            Action::Succeed => output matches Output::Finished(Ok(_)),
            Action::Fail { error, .. } => output == Output::Finished(
                Err::<(), BinstallError>(error),
            ),
            Action::Abandon { .. } => output is Abandoned,
            Action::Ignore => output is Ignored,
        },
{
    match action {
        Action::Succeed => Output::Finished(Ok(())),
        Action::Fail { error, .. } => Output::Finished(Err(error)),
        Action::Abandon { .. } => Output::Abandoned,
        Action::Ignore => Output::Ignored,
        _ => Output::Continue,
    }
}

impl Transfer {
    pub open spec fn wf(&self) -> bool {
        self@.inv()
    }

    /// Begins the transfer of `url`: parses it, and returns the transfer
    /// whose GET is to be sent, or the URL-parse error for a malformed URL.
    pub fn start(url: &str) -> (started: Result<Transfer, BinstallError>)
        ensures
            match parsed_url(url@) {
                Some(parsed) => started matches Ok(transfer) && transfer.wf() && transfer@ == (
                TransferView { download: DownloadView::start(parsed), writer: None }),
                None => started matches Err(BinstallError::UrlParse(_)),
            },
    {
        match download(url) {
            Ok(download) => Ok(Transfer { download, writer: None }),
            Err(error) => Err(error),
        }
    }

    /// The URL to send the GET to.
    pub fn url(&self) -> (url: &String)
        ensures
            url@ == self@.download.url,
    {
        self.download.url()
    }

    pub fn stage(&self) -> (stage: Stage)
        ensures
            stage == self@.download.stage,
    {
        self.download.stage()
    }

    /// The content of the destination file, or `None` where this transfer
    /// has left no file there.
    pub fn destination(&self) -> (content: Option<&Vec<u8>>)
        ensures
            match content {
                Some(bytes) => self@.destination() == Some(bytes@),
                None => self@.destination().is_none(),
            },
    {
        match &self.writer {
            Some(writer) => if self.download.is_present() {
                Some(writer.written())
            } else {
                None
            },
            None => None,
        }
    }

    /// Closes the writer and asks for its end; passes the end on to the
    /// download where there is one.
    fn close(&mut self) -> (output: Output)
        requires
            old(self)@.download.inv(),
            old(self)@.download.stage == Stage::Closing,
            old(self)@.writer matches Some(writer) && writer.inv() && !(writer.task is Joined)
                && writer.accepted == old(self)@.download.served,
        ensures
            final(self).wf(),
            old(self)@.writer matches Some(writer) && final(self)@ == old(self)@.after_close(
                old(self)@.download,
                writer,
            ) && match wait_outcome(writer.task) {
                None => output is Continue,
                Some(outcome) => passes_on(old(self)@.download, Event::Finished(outcome), output),
            },
    {
        let mut writer = self.writer.take().unwrap();
        let outcome = writer.done();
        self.writer = Some(writer);
        match outcome {
            None => Output::Continue,
            Some(outcome) => report(self.download.step(Event::Finished(outcome))),
        }
    }

    /// Takes in what happened outside and says how the transfer goes on.
    pub fn advance(&mut self, input: Input) -> (output: Output)
        requires
            old(self).wf(),
        ensures
            final(self).wf(),
            final(self)@ == old(self)@.after(input),
            old(self)@.says(input, output),
    {
        let stage = self.download.stage();
        match input {
            Input::Response(reply) => {
                if stage != Stage::Requesting {
                    return Output::Ignored;
                }
                report(self.download.step(Event::Response(reply)))
            },
            Input::Opened(opened) => {
                if stage != Stage::Opening {
                    return Output::Ignored;
                }
                match AsyncFileWriter::new(opened) {
                    Ok(writer) => {
                        self.writer = Some(writer);
                        assert(self@.download.served =~= Seq::<Seq<u8>>::empty());
                        report(self.download.step(Event::Opened(Ok(()))))
                    },
                    Err(failure) => report(self.download.step(Event::Opened(Err(failure)))),
                }
            },
            Input::Chunk(chunk) => {
                if stage != Stage::Reading {
                    return Output::Ignored;
                }
                let mut writer = self.writer.take().unwrap();
                if !writer.worker_ended() && writer.backlog() >= CAPACITY {
                    self.writer = Some(writer);
                    return Output::Retry(chunk);
                }
                match self.download.step(Event::Chunk(chunk)) {
                    Action::Write(chunk) => {
                        let answer = match writer.write(chunk) {
                            WriteStatus::Failed(failure) => {
                                writer.abort();
                                Err(failure)
                            },
                            _ => Ok(()),
                        };
                        self.writer = Some(writer);
                        report(self.download.step(Event::Written(answer)))
                    },
                    _ => {
                        self.writer = Some(writer);
                        Output::Ignored
                    },
                }
            },
            Input::BodyFailed(cause) => {
                if stage != Stage::Reading {
                    return Output::Ignored;
                }
                let mut writer = self.writer.take().unwrap();
                writer.abort();
                self.writer = Some(writer);
                report(self.download.step(Event::BodyFailed(cause)))
            },
            Input::BodyEnded => {
                if stage != Stage::Reading {
                    return Output::Ignored;
                }
                let _ = self.download.step(Event::BodyEnded);
                self.close()
            },
            Input::WorkerTurn(disk) => {
                if stage == Stage::Reading {
                    let mut writer = self.writer.take().unwrap();
                    writer.worker_turn(disk);
                    self.writer = Some(writer);
                    Output::Continue
                } else if stage == Stage::Closing {
                    let mut writer = self.writer.take().unwrap();
                    writer.worker_turn(disk);
                    self.writer = Some(writer);
                    self.close()
                } else {
                    Output::Ignored
                }
            },
            Input::Cancelled => {
                if stage == Stage::Succeeded || stage == Stage::Failed {
                    return Output::Ignored;
                }
                match self.writer.take() {
                    Some(mut writer) => {
                        writer.abort();
                        self.writer = Some(writer);
                    },
                    None => {},
                }
                report(self.download.step(Event::Cancelled))
            },
        }
    }
}

/// Every input keeps what holds of every transfer.
pub proof fn lemma_inputs_keep_inv(transfer: TransferView, input: Input)
    requires
        transfer.inv(),
    ensures
        transfer.after(input).inv(),
{
    let download = transfer.download;
    let unused: Result<(), IoFailure> = Ok(());
    match (download.stage, input, transfer.writer) {
        (Stage::Requesting, Input::Response(reply), _) => {
            lemma_failure_leaves_no_file(download, Event::Response(reply));
        },
        (Stage::Opening, Input::Opened(opened), _) => {
            lemma_failure_leaves_no_file(download, Event::Opened(opened));
            lemma_steps_keep_inv(WriterView::fresh(), Seq::empty(), unused);
            assert(download.served =~= Seq::<Seq<u8>>::empty());
        },
        (Stage::Reading, Input::Chunk(chunk), Some(writer)) => {
            if !transfer.blocked() {
                let served = download.after(Event::Chunk(chunk));
                lemma_failure_leaves_no_file(download, Event::Chunk(chunk));
                lemma_steps_keep_inv(writer, chunk_bytes(chunk), unused);
                lemma_steps_keep_inv(writer.after_write(chunk_bytes(chunk)), Seq::empty(), unused);
                match wait_outcome(writer.task) {
                    Some(Err(failure)) => {
                        lemma_failure_leaves_no_file(served, Event::Written(Err(failure)));
                    },
                    _ => {
                        lemma_failure_leaves_no_file(served, Event::Written(Ok(())));
                    },
                }
            }
        },
        (Stage::Reading, Input::BodyFailed(cause), Some(writer)) => {
            lemma_failure_leaves_no_file(download, Event::BodyFailed(cause));
            lemma_steps_keep_inv(writer, Seq::empty(), unused);
        },
        (Stage::Reading, Input::BodyEnded, Some(writer)) => {
            lemma_failure_leaves_no_file(download, Event::BodyEnded);
            lemma_steps_keep_inv(writer, Seq::empty(), unused);
            match wait_outcome(writer.task) {
                Some(outcome) => {
                    lemma_failure_leaves_no_file(
                        download.after(Event::BodyEnded),
                        Event::Finished(outcome),
                    );
                },
                None => {},
            }
        },
        (Stage::Reading, Input::WorkerTurn(disk), Some(writer)) => {
            lemma_steps_keep_inv(writer, Seq::empty(), disk);
        },
        (Stage::Closing, Input::WorkerTurn(disk), Some(writer)) => {
            lemma_steps_keep_inv(writer, Seq::empty(), disk);
            let turned = writer.after_turn(disk);
            lemma_steps_keep_inv(turned, Seq::empty(), unused);
            match wait_outcome(turned.task) {
                Some(outcome) => {
                    lemma_failure_leaves_no_file(download, Event::Finished(outcome));
                },
                None => {},
            }
        },
        (_, Input::Cancelled, _) => {
            lemma_failure_leaves_no_file(download, Event::Cancelled);
            match transfer.writer {
                Some(writer) => {
                    lemma_steps_keep_inv(writer, Seq::empty(), unused);
                },
                None => {},
            }
        },
        _ => {},
    }
}

/// A transfer that has succeeded has left a file at the destination that
/// holds exactly the chunks that the body served, one after the other, in
/// the order served.
pub proof fn lemma_success_leaves_what_was_served(transfer: TransferView)
    requires
        transfer.inv(),
        transfer.download.stage == Stage::Succeeded,
    ensures
        transfer.destination() == Some(concat(transfer.download.served)),
{
}

/// A transfer that has failed or was given up, at whatever stage and for
/// whatever reason, has left no file at the destination.
pub proof fn lemma_failure_leaves_nothing(transfer: TransferView)
    requires
        transfer.inv(),
        transfer.download.stage == Stage::Failed,
    ensures
        transfer.destination().is_none(),
{
}

} // verus!
