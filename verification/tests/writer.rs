use binstall::errors::{IoFailure, IoKind, JoinFailure};
use binstall::queue::{ChunkQueue, CAPACITY};
use binstall::task::{AutoAbortJoinHandle, TaskState};
use binstall::writer::{AsyncFileWriter, WriteStatus};
use bytes::Bytes;

fn disk_full() -> IoFailure {
    IoFailure::Os { kind: IoKind::StorageFull, message: "no space left on device".to_string() }
}

fn denied() -> IoFailure {
    IoFailure::Os { kind: IoKind::PermissionDenied, message: "permission denied".to_string() }
}

fn open() -> AsyncFileWriter {
    AsyncFileWriter::new(Ok(())).unwrap()
}

#[test]
fn new_without_a_file_is_the_failure() {
    match AsyncFileWriter::new(Err(denied())) {
        Err(failure) => assert_eq!(failure, denied()),
        Ok(_) => panic!("a writer was made without a file"),
    }
}

#[test]
fn new_writer_is_empty_and_running() {
    let writer = open();
    assert_eq!(writer.backlog(), 0);
    assert!(writer.written().is_empty());
    assert!(!writer.worker_ended());
}

#[test]
fn bytes_reach_the_file_in_write_order() {
    let mut writer = open();
    assert!(matches!(writer.write(Bytes::from_static(b"one ")), WriteStatus::Accepted));
    assert!(matches!(writer.write(Bytes::from_static(b"two ")), WriteStatus::Accepted));
    writer.worker_turn(Ok(()));
    assert_eq!(writer.written().as_slice(), b"one ");
    assert!(matches!(writer.write(Bytes::from_static(b"three")), WriteStatus::Accepted));
    assert_eq!(writer.done(), None);
    writer.worker_turn(Ok(()));
    writer.worker_turn(Ok(()));
    assert_eq!(writer.written().as_slice(), b"one two three");
    assert!(!writer.worker_ended());
    writer.worker_turn(Ok(()));
    assert!(writer.worker_ended());
    assert_eq!(writer.done(), Some(Ok(())));
    assert_eq!(writer.written().as_slice(), b"one two three");
}

#[test]
fn empty_chunks_change_nothing_in_the_file() {
    let mut writer = open();
    assert!(matches!(writer.write(Bytes::new()), WriteStatus::Accepted));
    assert!(matches!(writer.write(Bytes::from_static(b"x")), WriteStatus::Accepted));
    assert!(matches!(writer.write(Bytes::new()), WriteStatus::Accepted));
    assert_eq!(writer.backlog(), 3);
    writer.worker_turn(Ok(()));
    writer.worker_turn(Ok(()));
    writer.worker_turn(Ok(()));
    assert_eq!(writer.written().as_slice(), b"x");
}

#[test]
fn done_without_chunks_is_an_empty_file() {
    let mut writer = open();
    assert_eq!(writer.done(), None);
    writer.worker_turn(Ok(()));
    assert_eq!(writer.done(), Some(Ok(())));
    assert!(writer.written().is_empty());
}

#[test]
fn worker_waits_on_an_open_empty_queue() {
    let mut writer = open();
    writer.worker_turn(Err(disk_full()));
    writer.worker_turn(Ok(()));
    assert!(!writer.worker_ended());
    assert!(writer.written().is_empty());
}

#[test]
fn queue_blocks_at_capacity_until_the_worker_drains() {
    let mut writer = open();
    for i in 0..100u8 {
        assert!(matches!(writer.write(Bytes::from(vec![i])), WriteStatus::Accepted));
    }
    assert_eq!(writer.backlog(), 100);
    let extra = match writer.write(Bytes::from_static(b"101st")) {
        WriteStatus::Blocked(chunk) => chunk,
        other => panic!("the 101st chunk was not blocked: {:?}", other),
    };
    assert_eq!(extra, Bytes::from_static(b"101st"));
    assert_eq!(writer.backlog(), 100);
    let again = match writer.write(extra) {
        WriteStatus::Blocked(chunk) => chunk,
        other => panic!("the chunk was not blocked again: {:?}", other),
    };
    writer.worker_turn(Ok(()));
    assert_eq!(writer.backlog(), 99);
    assert!(matches!(writer.write(again), WriteStatus::Accepted));
    assert_eq!(writer.backlog(), 100);
    assert!(matches!(writer.write(Bytes::from_static(b"102nd")), WriteStatus::Blocked(_)));
}

#[test]
fn failed_write_is_reported_by_the_next_write() {
    let mut writer = open();
    assert!(matches!(writer.write(Bytes::from_static(b"a")), WriteStatus::Accepted));
    assert!(matches!(writer.write(Bytes::from_static(b"b")), WriteStatus::Accepted));
    writer.worker_turn(Ok(()));
    writer.worker_turn(Err(disk_full()));
    assert!(writer.worker_ended());
    match writer.write(Bytes::from_static(b"c")) {
        WriteStatus::Failed(failure) => assert_eq!(failure, disk_full()),
        other => panic!("the failure was not reported: {:?}", other),
    }
    assert_eq!(writer.written().as_slice(), b"a");
}

#[test]
fn dead_worker_wins_over_a_full_queue() {
    let mut writer = open();
    for _ in 0..100 {
        assert!(matches!(writer.write(Bytes::from_static(b"x")), WriteStatus::Accepted));
    }
    writer.worker_turn(Err(disk_full()));
    writer.worker_turn(Ok(()));
    assert_eq!(writer.backlog(), 99);
    for _ in 0..1 {
        match writer.write(Bytes::from_static(b"y")) {
            WriteStatus::Failed(failure) => assert_eq!(failure.kind(), IoKind::StorageFull),
            other => panic!("the failure was not reported: {:?}", other),
        }
    }
}

#[test]
fn done_reports_the_failed_write() {
    let mut writer = open();
    assert!(matches!(writer.write(Bytes::from_static(b"a")), WriteStatus::Accepted));
    writer.worker_turn(Err(denied()));
    assert_eq!(writer.done(), Some(Err(denied())));
}

#[test]
fn done_reports_the_failed_flush() {
    let mut writer = open();
    assert!(matches!(writer.write(Bytes::from_static(b"a")), WriteStatus::Accepted));
    assert_eq!(writer.done(), None);
    writer.worker_turn(Ok(()));
    assert_eq!(writer.done(), None);
    writer.worker_turn(Err(disk_full()));
    assert_eq!(writer.done(), Some(Err(disk_full())));
    assert_eq!(writer.written().as_slice(), b"a");
}

#[test]
fn abort_stops_the_worker() {
    let mut writer = open();
    assert!(matches!(writer.write(Bytes::from_static(b"kept")), WriteStatus::Accepted));
    assert!(matches!(writer.write(Bytes::from_static(b"lost")), WriteStatus::Accepted));
    writer.worker_turn(Ok(()));
    writer.abort();
    assert!(writer.worker_ended());
    for _ in 0..5 {
        writer.worker_turn(Ok(()));
    }
    assert_eq!(writer.written().as_slice(), b"kept");
    assert_eq!(writer.backlog(), 1);
    assert_eq!(writer.done(), Some(Err(IoFailure::Task(JoinFailure::Cancelled))));
}

#[test]
fn abort_after_the_end_keeps_the_outcome() {
    let mut writer = open();
    assert_eq!(writer.done(), None);
    writer.worker_turn(Ok(()));
    writer.abort();
    assert_eq!(writer.done(), Some(Ok(())));
}

#[test]
fn queue_is_first_in_first_out() {
    let mut queue = ChunkQueue::new();
    assert_eq!(queue.len(), 0);
    assert!(!queue.is_closed());
    assert_eq!(queue.recv(), None);
    assert_eq!(queue.try_send(Bytes::from_static(b"1")), None);
    assert_eq!(queue.try_send(Bytes::from_static(b"2")), None);
    assert_eq!(queue.try_send(Bytes::from_static(b"3")), None);
    assert_eq!(queue.len(), 3);
    assert_eq!(queue.recv(), Some(Bytes::from_static(b"1")));
    assert_eq!(queue.recv(), Some(Bytes::from_static(b"2")));
    queue.close();
    assert!(queue.is_closed());
    assert_eq!(queue.recv(), Some(Bytes::from_static(b"3")));
    assert_eq!(queue.recv(), None);
}

#[test]
fn queue_holds_its_capacity_and_no_more() {
    assert_eq!(CAPACITY, 100);
    let mut queue = ChunkQueue::new();
    for i in 0..CAPACITY {
        assert!(!queue.is_full());
        assert_eq!(queue.try_send(Bytes::from(vec![i as u8])), None);
    }
    assert!(queue.is_full());
    assert_eq!(queue.try_send(Bytes::from_static(b"over")), Some(Bytes::from_static(b"over")));
    assert_eq!(queue.len(), CAPACITY);
    assert_eq!(queue.recv(), Some(Bytes::from(vec![0u8])));
    assert!(!queue.is_full());
    assert_eq!(queue.try_send(Bytes::from_static(b"over")), None);
    assert_eq!(queue.len(), CAPACITY);
}

#[test]
fn handle_passes_the_result_on_once() {
    let mut handle = AutoAbortJoinHandle::new(TaskState::Running);
    assert!(!handle.is_finished());
    assert_eq!(handle.join(), None);
    handle.complete(7u32);
    assert!(handle.is_finished());
    handle.complete(8u32);
    assert_eq!(handle.join(), Some(Ok(7)));
    assert!(matches!(handle.abort(), TaskState::Joined));
}

#[test]
fn handle_reports_why_there_is_no_result() {
    let mut panicked: AutoAbortJoinHandle<u32> = AutoAbortJoinHandle::new(TaskState::Panicked);
    assert_eq!(panicked.join(), Some(Err(JoinFailure::Panicked)));
    let mut cancelled: AutoAbortJoinHandle<u32> = AutoAbortJoinHandle::new(TaskState::Cancelled);
    assert_eq!(cancelled.join(), Some(Err(JoinFailure::Cancelled)));
}

#[test]
fn giving_a_handle_up_cancels_a_running_task() {
    let running: AutoAbortJoinHandle<u32> = AutoAbortJoinHandle::new(TaskState::Running);
    assert!(matches!(running.abort(), TaskState::Cancelled));
    let returned = AutoAbortJoinHandle::new(TaskState::Returned(3u32));
    assert!(matches!(returned.abort(), TaskState::Returned(3)));
    let panicked: AutoAbortJoinHandle<u32> = AutoAbortJoinHandle::new(TaskState::Panicked);
    assert!(matches!(panicked.abort(), TaskState::Panicked));
}

#[test]
fn io_failure_kinds() {
    assert_eq!(disk_full().kind(), IoKind::StorageFull);
    assert_eq!(denied().kind(), IoKind::PermissionDenied);
    assert_eq!(IoFailure::Task(JoinFailure::Panicked).kind(), IoKind::Other);
    assert_eq!(IoFailure::Task(JoinFailure::Cancelled).kind(), IoKind::Other);
}
