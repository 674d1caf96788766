use vstd::prelude::*;
use vstd::string::StringExecFns;
use bytes::Bytes;
use crate::chunk::chunk_bytes;
use crate::errors::{BinstallError, HttpCause, IoFailure};
use crate::http::{is_success, status_is_success, HttpReply};

verus! {

/// The normal form that `url::Url::parse` gives the URL written as `input`,
/// or `None` where it reports a parse error.
pub uninterp spec fn parsed_url(input: Seq<char>) -> Option<Seq<char>>;

/// Parses `input` with `url::Url::parse` and hands out the URL in its
/// serialised form. Trusted: the outcome is `parsed_url(input)`; the error's
/// text is whatever the parser says.
#[verifier::external_body]
pub(crate) fn parse_url(input: &str) -> (parsed: Result<String, String>)
    ensures
        match parsed {
            Ok(url) => parsed_url(input@) == Some(url@),
            Err(_) => parsed_url(input@).is_none(),
        },
{
    match ::url::Url::parse(input) {
        Ok(url) => Ok(String::from(url)),
        Err(error) => Err(error.to_string()),
    }
}

/// The error that a failure of the writer amounts to: a worker that
/// panicked or was cancelled is a task failure, everything else an I/O
/// failure.
pub open spec fn writer_error(failure: IoFailure) -> BinstallError {
    match failure {
        IoFailure::Task(cause) => BinstallError::TaskJoin(cause),
        other => BinstallError::Io(other),
    }
}

fn report_writer(failure: IoFailure) -> (error: BinstallError)
    ensures
        error == writer_error(failure),
{
    match failure {
        IoFailure::Task(cause) => BinstallError::from(cause),
        other => BinstallError::from(other),
    }
}

/// How far a download has come.
#[derive(Clone, Copy, Debug, PartialEq, Eq, Structural)]
pub enum Stage {
    /// The GET has been sent; the response is awaited.
    Requesting,
    /// The response was a success; the writer is being opened.
    Opening,
    /// The next item of the body is awaited.
    Reading,
    /// A chunk has been handed to the writer; its answer is awaited.
    Writing,
    /// The body has ended; the writer is being finished.
    Closing,
    /// The file is complete and stays.
    Succeeded,
    /// The download has failed or was cancelled; no file is left.
    Failed,
}

/// What happened outside since the last step.
#[derive(Debug)]
pub enum Event {
    /// The GET came to this.
    Response(HttpReply),
    /// Opening the writer at the destination came to this.
    Opened(Result<(), IoFailure>),
    /// The body yielded a chunk.
    Chunk(Bytes),
    /// Reading the body failed.
    BodyFailed(String),
    /// The body is exhausted.
    BodyEnded,
    /// The writer answered the last `write`.
    Written(Result<(), IoFailure>),
    /// The writer answered `done`.
    Finished(Result<(), IoFailure>),
    /// The caller gave the download up.
    Cancelled,
}

/// What to do next.
#[derive(Debug)]
pub enum Action {
    /// Open a writer at the destination and register the cleanup guard.
    OpenWriter,
    /// Await the next item of the body.
    NextChunk,
    /// Hand this chunk to the writer.
    Write(Bytes),
    /// Call `done` on the writer.
    Finish,
    /// Disarm the cleanup guard and report success.
    Succeed,
    /// Give the writer up, remove the destination where `cleanup` says so,
    /// and report `error`.
    Fail { error: BinstallError, cleanup: bool },
    /// Give the writer up and remove the destination where `cleanup` says so.
    Abandon { cleanup: bool },
    /// Nothing: the event does not belong to the stage.
    Ignore,
}

/// A download at one moment.
pub struct DownloadView {
    /// The URL, in its normal form.
    pub url: Seq<char>,
    pub stage: Stage,
    /// Whether the cleanup guard is registered and armed.
    pub armed: bool,
    /// Whether the file that this download created is at the destination.
    pub present: bool,
    /// The contents of the chunks that the body has yielded, in order.
    pub served: Seq<Seq<u8>>,
    /// The contents of the chunks that the writer has accepted, in order.
    pub forwarded: Seq<Seq<u8>>,
}

impl DownloadView {
    /// A download whose GET has just been sent.
    pub open spec fn start(url: Seq<char>) -> DownloadView {
        DownloadView {
            url,
            stage: Stage::Requesting,
            armed: false,
            present: false,
            served: Seq::empty(),
            forwarded: Seq::empty(),
        }
    }

    /// Whether the download has ended.
    pub open spec fn ended(self) -> bool {
        self.stage == Stage::Succeeded || self.stage == Stage::Failed
    }

    /// What holds of every download. Before the writer is open there is no
    /// guard and no file. From then on, until the end, the guard is armed
    /// and the writer has accepted every chunk served, but the one in
    /// flight. The guard is disarmed only with success; after a failure
    /// no file is left.
    pub open spec fn inv(self) -> bool {
        match self.stage {
            Stage::Requesting | Stage::Opening => !self.armed && !self.present
                && self.served.len() == 0 && self.forwarded.len() == 0,
            Stage::Reading | Stage::Closing => self.armed && self.present && self.forwarded
                == self.served,
            Stage::Writing => self.armed && self.present && self.served.len() > 0
                && self.forwarded == self.served.drop_last(),
            Stage::Succeeded => !self.armed && self.present && self.forwarded == self.served,
            Stage::Failed => !self.armed && !self.present,
        }
    }

    /// The download after it has failed or was given up: the guard has run.
    pub open spec fn failed(self) -> DownloadView {
        DownloadView { stage: Stage::Failed, armed: false, present: false, ..self }
    }

    /// The download after `event`.
    pub open spec fn after(self, event: Event) -> DownloadView {
        match (self.stage, event) {
            (Stage::Requesting, Event::Response(HttpReply::Status(status))) => if is_success(
                status,
            ) {
                DownloadView { stage: Stage::Opening, ..self }
            } else {
                self.failed()
            },
            (Stage::Requesting, Event::Response(HttpReply::Failed(_))) => self.failed(),
            (Stage::Opening, Event::Opened(Ok(_))) => DownloadView {
                stage: Stage::Reading,
                armed: true,
                present: true,
                ..self
            },
            (Stage::Opening, Event::Opened(Err(_))) => self.failed(),
            (Stage::Reading, Event::Chunk(chunk)) => DownloadView {
                stage: Stage::Writing,
                served: self.served.push(chunk_bytes(chunk)),
                ..self
            },
            (Stage::Reading, Event::BodyFailed(_)) => self.failed(),
            (Stage::Reading, Event::BodyEnded) => DownloadView { stage: Stage::Closing, ..self },
            (Stage::Writing, Event::Written(Ok(_))) => DownloadView {
                stage: Stage::Reading,
                forwarded: self.served,
                ..self
            },
            (Stage::Writing, Event::Written(Err(_))) => self.failed(),
            (Stage::Closing, Event::Finished(Ok(_))) => DownloadView {
                stage: Stage::Succeeded,
                armed: false,
                ..self
            },
            (Stage::Closing, Event::Finished(Err(_))) => self.failed(),
            (_, Event::Cancelled) => if self.ended() {
                self
            } else {
                self.failed()
            },
            _ => self,
        }
    }

    /// Whether `error` is the HTTP error of a GET of this download's URL
    /// with the cause `cause`.
    pub open spec fn is_http_error(self, error: BinstallError, cause: HttpCause) -> bool {
        error matches BinstallError::Http { method, url, cause: given } && method@ == "GET"@
            && url@ == self.url && given == cause
    }

    /// Whether `action` is what a download in this state answers to `event`.
    pub open spec fn answers(self, event: Event, action: Action) -> bool {
        match (self.stage, event) {
            (Stage::Requesting, Event::Response(HttpReply::Status(status))) => if is_success(
                status,
            ) {
                action is OpenWriter
            } else {
                action matches Action::Fail { error, cleanup } && !cleanup && self.is_http_error(
                    error,
                    HttpCause::Status(status),
                )
            },
            (Stage::Requesting, Event::Response(HttpReply::Failed(cause))) => action matches Action::Fail {
                error,
                cleanup,
            } && !cleanup && self.is_http_error(error, HttpCause::Transport(cause)),
            (Stage::Opening, Event::Opened(Ok(_))) => action is NextChunk,
            (Stage::Opening, Event::Opened(Err(failure))) => action == (Action::Fail {
                error: BinstallError::Io(failure),
                cleanup: false,
            }),
            (Stage::Reading, Event::Chunk(chunk)) => action == Action::Write(chunk),
            (Stage::Reading, Event::BodyFailed(cause)) => action matches Action::Fail {
                error,
                cleanup,
            } && cleanup && self.is_http_error(error, HttpCause::Transport(cause)),
            (Stage::Reading, Event::BodyEnded) => action is Finish,
            (Stage::Writing, Event::Written(Ok(_))) => action is NextChunk,
            (Stage::Writing, Event::Written(Err(failure))) => action == (Action::Fail {
                error: writer_error(failure),
                cleanup: true,
            }),
            (Stage::Closing, Event::Finished(Ok(_))) => action is Succeed,
            (Stage::Closing, Event::Finished(Err(failure))) => action == (Action::Fail {
                error: writer_error(failure),
                cleanup: true,
            }),
            (_, Event::Cancelled) => if self.ended() {
                action is Ignore
            } else {
                action == (Action::Abandon { cleanup: self.armed })
            },
            _ => action is Ignore,
        }
    }
}

/// One download, all or nothing: the decisions between the GET, the writer
/// and the cleanup guard. The caller performs each action and reports what
/// came of it as the next event.
pub struct Download {
    url: String,
    stage: Stage,
    armed: bool,
    present: bool,
    served: Ghost<Seq<Seq<u8>>>,
    forwarded: Ghost<Seq<Seq<u8>>>,
}

impl View for Download {
    type V = DownloadView;

    closed spec fn view(&self) -> DownloadView {
        DownloadView {
            url: self.url@,
            stage: self.stage,
            armed: self.armed,
            present: self.present,
            served: self.served@,
            forwarded: self.forwarded@,
        }
    }
}

impl Download {
    pub open spec fn wf(&self) -> bool {
        self@.inv()
    }

    /// Begins a download with the outcome of parsing its URL: a download
    /// whose GET is to be sent to the parsed URL, or the URL-parse error.
    pub fn begin(parsed: Result<String, String>) -> (begun: Result<Download, BinstallError>)
        ensures
            match parsed {
                Ok(url) => begun matches Ok(download) && download.wf() && download@
                    == DownloadView::start(url@),
                Err(message) => begun matches Err(error) && error == BinstallError::UrlParse(
                    message,
                ),
            },
    {
        match parsed {
            Ok(url) => Ok(
                Download {
                    url,
                    stage: Stage::Requesting,
                    armed: false,
                    present: false,
                    served: Ghost(Seq::empty()),
                    forwarded: Ghost(Seq::empty()),
                },
            ),
            Err(message) => Err(BinstallError::UrlParse(message)),
        }
    }

    /// The URL to send the GET to.
    pub fn url(&self) -> (url: &String)
        ensures
            url@ == self@.url,
    {
        &self.url
    }

    pub fn stage(&self) -> (stage: Stage)
        ensures
            stage == self@.stage,
    {
        self.stage
    }

    /// Whether the cleanup guard is armed: whether giving the download up
    /// now removes the destination.
    pub fn is_armed(&self) -> (armed: bool)
        ensures
            armed == self@.armed,
    {
        self.armed
    }

    /// Whether the file that this download created is at the destination.
    pub fn is_present(&self) -> (present: bool)
        ensures
            present == self@.present,
    {
        self.present
    }

    fn http_error(&self, cause: HttpCause) -> (error: BinstallError)
        ensures
            self@.is_http_error(error, cause),
    {
        BinstallError::Http { method: String::from_str("GET"), url: self.url.clone(), cause }
    }

    fn fail(&mut self)
        ensures
            final(self)@ == old(self)@.failed(),
    {
        self.stage = Stage::Failed;
        self.armed = false;
        self.present = false;
    }

    /// Takes in what happened and says what to do next. An event that does
    /// not belong to the stage changes nothing and is answered by `Ignore`.
    /// Every failure after the writer was opened asks for the cleanup.
    pub fn step(&mut self, event: Event) -> (action: Action)
        requires
            old(self).wf(),
        ensures
            final(self).wf(),
            final(self)@ == old(self)@.after(event),
            old(self)@.answers(event, action),
    {
        match (self.stage, event) {
            (Stage::Requesting, Event::Response(HttpReply::Status(status))) => {
                if status_is_success(status) {
                    self.stage = Stage::Opening;
                    Action::OpenWriter
                } else {
                    let error = self.http_error(HttpCause::Status(status));
                    self.fail();
                    Action::Fail { error, cleanup: false }
                }
            },
            (Stage::Requesting, Event::Response(HttpReply::Failed(cause))) => {
                let error = self.http_error(HttpCause::Transport(cause));
                self.fail();
                Action::Fail { error, cleanup: false }
            },
            (Stage::Opening, Event::Opened(Ok(_))) => {
                self.stage = Stage::Reading;
                self.armed = true;
                self.present = true;
                assert(self@.forwarded =~= self@.served);
                Action::NextChunk
            },
            (Stage::Opening, Event::Opened(Err(failure))) => {
                self.fail();
                Action::Fail { error: BinstallError::from(failure), cleanup: false }
            },
            (Stage::Reading, Event::Chunk(chunk)) => {
                proof {
                    self.served@ = self.served@.push(chunk_bytes(chunk));
                }
                self.stage = Stage::Writing;
                assert(self@.served.drop_last() =~= old(self)@.served);
                Action::Write(chunk)
            },
            (Stage::Reading, Event::BodyFailed(cause)) => {
                let error = self.http_error(HttpCause::Transport(cause));
                self.fail();
                Action::Fail { error, cleanup: true }
            },
            (Stage::Reading, Event::BodyEnded) => {
                self.stage = Stage::Closing;
                Action::Finish
            },
            (Stage::Writing, Event::Written(Ok(_))) => {
                proof {
                    self.forwarded@ = self.served@;
                }
                self.stage = Stage::Reading;
                Action::NextChunk
            },
            (Stage::Writing, Event::Written(Err(failure))) => {
                self.fail();
                Action::Fail { error: report_writer(failure), cleanup: true }
            },
            (Stage::Closing, Event::Finished(Ok(_))) => {
                self.stage = Stage::Succeeded;
                self.armed = false;
                Action::Succeed
            },
            (Stage::Closing, Event::Finished(Err(failure))) => {
                self.fail();
                Action::Fail { error: report_writer(failure), cleanup: true }
            },
            (Stage::Succeeded, Event::Cancelled) => Action::Ignore,
            (Stage::Failed, Event::Cancelled) => Action::Ignore,
            (_, Event::Cancelled) => {
                let cleanup = self.armed;
                self.fail();
                Action::Abandon { cleanup }
            },
            _ => Action::Ignore,
        }
    }
}

/// Begins the download of `url`: parses it, and returns the download whose
/// GET is to be sent, or the URL-parse error for a malformed URL.
pub fn download(url: &str) -> (begun: Result<Download, BinstallError>)
    ensures
        match parsed_url(url@) {
            Some(parsed) => begun matches Ok(download) && download.wf() && download@
                == DownloadView::start(parsed),
            None => begun matches Err(BinstallError::UrlParse(_)),
        },
{
    Download::begin(parse_url(url))
}

/// Every event keeps what holds of every download. A download that has
/// failed or was given up, at whatever stage and for whatever reason, has its
/// guard run: the file that it created is not at the destination. A guard
/// that is still armed belongs to a download that has not ended.
pub proof fn lemma_failure_leaves_no_file(download: DownloadView, event: Event)
    requires
        download.inv(),
    ensures
        download.after(event).inv(),
        download.after(event).stage == Stage::Failed ==> !download.after(event).present
            && !download.after(event).armed,
        download.after(event).armed ==> !download.after(event).ended(),
{
    let after = download.after(event);
    if download.stage == Stage::Opening && after.stage == Stage::Reading {
        assert(after.forwarded =~= after.served);
    }
    if download.stage == Stage::Reading && after.stage == Stage::Writing {
        assert(after.served.drop_last() =~= download.served);
    }
}

} // verus!
