use binstall::download::{download, Action, Download, Event, Stage};
use binstall::errors::{BinstallError, HttpCause, IoFailure, IoKind, JoinFailure};
use binstall::http::{remote_exists, status_is_success, HttpReply};
use binstall::writer::{AsyncFileWriter, WriteStatus};
use bytes::Bytes;

const URL: &str = "https://example.com/pkg/tool.tgz";

fn disk_full() -> IoFailure {
    IoFailure::Os { kind: IoKind::StorageFull, message: "no space left on device".to_string() }
}

fn http_error(cause: HttpCause) -> BinstallError {
    BinstallError::Http { method: "GET".to_string(), url: URL.to_string(), cause }
}

fn streaming() -> Download {
    let mut download = download(URL).unwrap();
    assert!(matches!(download.step(Event::Response(HttpReply::Status(200))), Action::OpenWriter));
    assert!(matches!(download.step(Event::Opened(Ok(()))), Action::NextChunk));
    download
}

/// Hands `chunk` to the writer the way a caller does, letting the worker
/// take a turn whenever the queue is full.
fn forward(writer: &mut AsyncFileWriter, chunk: Bytes) -> Result<(), IoFailure> {
    let mut offered = chunk;
    loop {
        match writer.write(offered) {
            WriteStatus::Accepted => return Ok(()),
            WriteStatus::Failed(failure) => return Err(failure),
            WriteStatus::Blocked(back) => {
                writer.worker_turn(Ok(()));
                offered = back;
            }
        }
    }
}

/// Runs a whole download of `chunks` against a writer whose disk answers
/// `Ok` to everything, and returns the last action and the writer.
fn run(chunks: Vec<Bytes>) -> (Download, Action, AsyncFileWriter) {
    let mut download = streaming();
    let mut writer = AsyncFileWriter::new(Ok(())).unwrap();
    for chunk in chunks {
        let action = download.step(Event::Chunk(chunk));
        let answer = match action {
            Action::Write(chunk) => forward(&mut writer, chunk),
            other => panic!("a chunk was not forwarded: {:?}", other),
        };
        assert!(matches!(download.step(Event::Written(answer)), Action::NextChunk));
    }
    assert!(matches!(download.step(Event::BodyEnded), Action::Finish));
    let outcome = loop {
        match writer.done() {
            Some(outcome) => break outcome,
            None => writer.worker_turn(Ok(())),
        }
    };
    let action = download.step(Event::Finished(outcome));
    (download, action, writer)
}

#[test]
fn ten_chunks_make_a_file_of_a_thousand_bytes() {
    let chunks: Vec<Bytes> =
        (0..10u8).map(|i| Bytes::from((0..100u8).map(|j| i.wrapping_mul(31) ^ j).collect::<Vec<u8>>())).collect();
    let expected: Vec<u8> = chunks.iter().flat_map(|c| c.iter().copied()).collect();
    let (download, action, writer) = run(chunks);
    assert!(matches!(action, Action::Succeed));
    assert_eq!(download.stage(), Stage::Succeeded);
    assert!(!download.is_armed());
    assert_eq!(writer.written().len(), 1000);
    assert_eq!(writer.written(), &expected);
}

#[test]
fn more_chunks_than_the_queue_holds_arrive_in_order() {
    let chunks: Vec<Bytes> = (0..250u32).map(|i| Bytes::from(i.to_be_bytes().to_vec())).collect();
    let expected: Vec<u8> = chunks.iter().flat_map(|c| c.iter().copied()).collect();
    let (_, action, writer) = run(chunks);
    assert!(matches!(action, Action::Succeed));
    assert_eq!(writer.written(), &expected);
}

#[test]
fn empty_body_makes_an_empty_file() {
    let (download, action, writer) = run(Vec::new());
    assert!(matches!(action, Action::Succeed));
    assert_eq!(download.stage(), Stage::Succeeded);
    assert!(writer.written().is_empty());
}

#[test]
fn server_error_leaves_no_file() {
    let mut download = download(URL).unwrap();
    match download.step(Event::Response(HttpReply::Status(500))) {
        Action::Fail { error, cleanup } => {
            assert_eq!(error, http_error(HttpCause::Status(500)));
            assert!(!cleanup);
        }
        other => panic!("the download did not fail: {:?}", other),
    }
    assert_eq!(download.stage(), Stage::Failed);
    assert!(!download.is_armed());
}

#[test]
fn only_the_success_class_goes_on() {
    for status in [100u16, 199, 300, 301, 304, 400, 404, 499, 500, 503, 599, 0, 65535] {
        let mut download = download(URL).unwrap();
        match download.step(Event::Response(HttpReply::Status(status))) {
            Action::Fail { error, cleanup: false } => {
                assert_eq!(error, http_error(HttpCause::Status(status)))
            }
            other => panic!("status {} did not fail: {:?}", status, other),
        }
    }
    for status in [200u16, 201, 204, 206, 299] {
        let mut download = download(URL).unwrap();
        assert!(matches!(
            download.step(Event::Response(HttpReply::Status(status))),
            Action::OpenWriter
        ));
        assert_eq!(download.stage(), Stage::Opening);
    }
}

#[test]
fn unanswered_request_is_an_http_error() {
    let mut download = download(URL).unwrap();
    match download.step(Event::Response(HttpReply::Failed("connection refused".to_string()))) {
        Action::Fail { error, cleanup } => {
            assert_eq!(error, http_error(HttpCause::Transport("connection refused".to_string())));
            assert!(!cleanup);
        }
        other => panic!("the download did not fail: {:?}", other),
    }
    assert_eq!(download.stage(), Stage::Failed);
}

#[test]
fn malformed_url_is_a_parse_error() {
    assert!(matches!(download("not a url"), Err(BinstallError::UrlParse(_))));
    assert!(matches!(download(""), Err(BinstallError::UrlParse(_))));
    assert!(matches!(download("http://[::1"), Err(BinstallError::UrlParse(_))));
    assert!(matches!(download("/only/a/path"), Err(BinstallError::UrlParse(_))));
}

#[test]
fn url_is_kept_in_its_normal_form() {
    let download = download("HTTPS://Example.COM:443/a b/../c").unwrap();
    assert_eq!(download.url(), "https://example.com/c");
    assert_eq!(download.stage(), Stage::Requesting);
    assert!(!download.is_armed());
}

#[test]
fn begin_with_a_parse_failure() {
    assert_eq!(
        Download::begin(Err("empty host".to_string())).err(),
        Some(BinstallError::UrlParse("empty host".to_string()))
    );
    assert_eq!(Download::begin(Ok(URL.to_string())).unwrap().url(), URL);
}

#[test]
fn writer_that_cannot_open_fails_without_cleanup() {
    let mut download = download(URL).unwrap();
    assert!(matches!(download.step(Event::Response(HttpReply::Status(200))), Action::OpenWriter));
    match download.step(Event::Opened(Err(disk_full()))) {
        Action::Fail { error, cleanup } => {
            assert_eq!(error, BinstallError::Io(disk_full()));
            assert!(!cleanup);
        }
        other => panic!("the download did not fail: {:?}", other),
    }
    assert_eq!(download.stage(), Stage::Failed);
}

#[test]
fn guard_is_armed_once_the_writer_is_open() {
    let download = streaming();
    assert_eq!(download.stage(), Stage::Reading);
    assert!(download.is_armed());
}

#[test]
fn broken_body_removes_the_file() {
    let mut download = streaming();
    assert!(matches!(download.step(Event::Chunk(Bytes::from_static(b"part"))), Action::Write(_)));
    assert!(matches!(download.step(Event::Written(Ok(()))), Action::NextChunk));
    match download.step(Event::BodyFailed("connection reset".to_string())) {
        Action::Fail { error, cleanup } => {
            assert_eq!(error, http_error(HttpCause::Transport("connection reset".to_string())));
            assert!(cleanup);
        }
        other => panic!("the download did not fail: {:?}", other),
    }
    assert_eq!(download.stage(), Stage::Failed);
    assert!(!download.is_armed());
}

#[test]
fn forced_write_failure_removes_the_file() {
    let mut download = streaming();
    let mut writer = AsyncFileWriter::new(Ok(())).unwrap();
    let first = match download.step(Event::Chunk(Bytes::from_static(b"first"))) {
        Action::Write(chunk) => chunk,
        other => panic!("a chunk was not forwarded: {:?}", other),
    };
    assert_eq!(first, Bytes::from_static(b"first"));
    assert!(matches!(writer.write(first), WriteStatus::Accepted));
    assert!(matches!(download.step(Event::Written(Ok(()))), Action::NextChunk));
    writer.worker_turn(Err(disk_full()));
    let second = match download.step(Event::Chunk(Bytes::from_static(b"second"))) {
        Action::Write(chunk) => chunk,
        other => panic!("a chunk was not forwarded: {:?}", other),
    };
    let answer = match writer.write(second) {
        WriteStatus::Failed(failure) => Err(failure),
        other => panic!("the failure was not reported: {:?}", other),
    };
    match download.step(Event::Written(answer)) {
        Action::Fail { error, cleanup } => {
            assert_eq!(error, BinstallError::Io(disk_full()));
            assert!(cleanup);
        }
        other => panic!("the download did not fail: {:?}", other),
    }
    assert_eq!(download.stage(), Stage::Failed);
}

#[test]
fn failed_finish_removes_the_file() {
    let mut download = streaming();
    assert!(matches!(download.step(Event::BodyEnded), Action::Finish));
    assert_eq!(download.stage(), Stage::Closing);
    match download.step(Event::Finished(Err(disk_full()))) {
        Action::Fail { error, cleanup } => {
            assert_eq!(error, BinstallError::Io(disk_full()));
            assert!(cleanup);
        }
        other => panic!("the download did not fail: {:?}", other),
    }
    assert_eq!(download.stage(), Stage::Failed);
}

#[test]
fn cancelling_mid_stream_removes_the_file() {
    let mut download = streaming();
    assert!(matches!(download.step(Event::Chunk(Bytes::from_static(b"part"))), Action::Write(_)));
    assert!(matches!(download.step(Event::Cancelled), Action::Abandon { cleanup: true }));
    assert_eq!(download.stage(), Stage::Failed);
    assert!(!download.is_armed());
}

#[test]
fn cancelling_before_the_writer_has_nothing_to_remove() {
    let mut download = download(URL).unwrap();
    assert!(matches!(download.step(Event::Cancelled), Action::Abandon { cleanup: false }));
    assert_eq!(download.stage(), Stage::Failed);
}

#[test]
fn nothing_happens_after_the_end() {
    let (mut download, _, _) = run(vec![Bytes::from_static(b"x")]);
    assert!(matches!(download.step(Event::Cancelled), Action::Ignore));
    assert!(matches!(download.step(Event::Chunk(Bytes::from_static(b"y"))), Action::Ignore));
    assert!(matches!(download.step(Event::Finished(Err(disk_full()))), Action::Ignore));
    assert_eq!(download.stage(), Stage::Succeeded);
}

#[test]
fn event_out_of_turn_is_ignored() {
    let mut download = download(URL).unwrap();
    assert!(matches!(download.step(Event::BodyEnded), Action::Ignore));
    assert!(matches!(download.step(Event::Opened(Ok(()))), Action::Ignore));
    assert!(matches!(download.step(Event::Written(Ok(()))), Action::Ignore));
    assert_eq!(download.stage(), Stage::Requesting);
    let mut download = streaming();
    assert!(matches!(download.step(Event::Response(HttpReply::Status(500))), Action::Ignore));
    assert!(matches!(download.step(Event::Finished(Ok(()))), Action::Ignore));
    assert_eq!(download.stage(), Stage::Reading);
    assert!(download.is_armed());
}

#[test]
fn remote_exists_by_status_class() {
    let ask = |status: u16| {
        remote_exists(URL.to_string(), "HEAD".to_string(), HttpReply::Status(status))
    };
    assert_eq!(ask(200), Ok(true));
    assert_eq!(ask(204), Ok(true));
    assert_eq!(ask(299), Ok(true));
    assert_eq!(ask(199), Ok(false));
    assert_eq!(ask(300), Ok(false));
    assert_eq!(ask(302), Ok(false));
    assert_eq!(ask(404), Ok(false));
    assert_eq!(ask(500), Ok(false));
}

#[test]
fn remote_exists_without_an_answer() {
    assert_eq!(
        remote_exists(
            URL.to_string(),
            "HEAD".to_string(),
            HttpReply::Failed("dns error".to_string())
        ),
        Err(BinstallError::Http {
            method: "HEAD".to_string(),
            url: URL.to_string(),
            cause: HttpCause::Transport("dns error".to_string()),
        })
    );
}

#[test]
fn success_class_bounds() {
    assert!(!status_is_success(0));
    assert!(!status_is_success(199));
    assert!(status_is_success(200));
    assert!(status_is_success(299));
    assert!(!status_is_success(300));
    assert!(!status_is_success(u16::MAX));
}

#[test]
fn worker_that_did_not_end_is_a_task_failure() {
    for cause in [JoinFailure::Panicked, JoinFailure::Cancelled] {
        let mut download = streaming();
        assert!(matches!(download.step(Event::BodyEnded), Action::Finish));
        match download.step(Event::Finished(Err(IoFailure::Task(cause)))) {
            Action::Fail { error, cleanup } => {
                assert_eq!(error, BinstallError::TaskJoin(cause));
                assert!(cleanup);
            }
            other => panic!("the download did not fail: {:?}", other),
        }
        let mut download = streaming();
        assert!(matches!(download.step(Event::Chunk(Bytes::from_static(b"c"))), Action::Write(_)));
        match download.step(Event::Written(Err(IoFailure::Task(cause)))) {
            Action::Fail { error, cleanup } => {
                assert_eq!(error, BinstallError::TaskJoin(cause));
                assert!(cleanup);
            }
            other => panic!("the download did not fail: {:?}", other),
        }
    }
}
