use dl_omni::models::ChunkState;
use dl_omni::workers::{
    backoff_seconds, chunk_channel_closed, stream_channel_closed, ChunkWorker, RetryStep,
    StreamWorker,
};

fn chunk(id: usize, start: u64, end: u64, off: u64) -> ChunkState {
    ChunkState { id, start, end, current_offset: off, is_completed: false }
}

fn wait_of(step: RetryStep) -> u64 {
    match step {
        RetryStep::Retry { wait_seconds } => wait_seconds,
        RetryStep::GiveUp(m) => panic!("gave up: {}", m),
    }
}

fn message_of(step: RetryStep) -> String {
    match step {
        RetryStep::Retry { .. } => panic!("retried"),
        RetryStep::GiveUp(m) => m,
    }
}

#[test]
fn backoff_doubles() {
    assert_eq!(backoff_seconds(0), 1);
    assert_eq!(backoff_seconds(1), 2);
    assert_eq!(backoff_seconds(3), 8);
    assert_eq!(backoff_seconds(5), 32);
}

#[test]
fn fresh_range_is_fetched_in_one_go() {
    let mut w = ChunkWorker::new(chunk(2, 100, 199, 0));
    assert_eq!(w.begin_attempt(), Some((100, 199)));
    assert_eq!(w.on_piece(60), 100);
    assert_eq!(w.on_piece(40), 160);
    assert!(w.on_body_end());
    assert_eq!(w.begin_attempt(), None);
}

#[test]
fn resumed_range_starts_at_its_offset() {
    let mut w = ChunkWorker::new(chunk(0, 0, 99, 30));
    assert_eq!(w.begin_attempt(), Some((30, 99)));
    assert_eq!(w.on_piece(70), 30);
    assert!(w.on_body_end());
}

#[test]
fn short_answer_is_retried_from_where_it_stopped() {
    let mut w = ChunkWorker::new(chunk(0, 0, 99, 0));
    assert_eq!(w.begin_attempt(), Some((0, 99)));
    assert_eq!(w.on_piece(40), 0);
    assert!(!w.on_body_end());
    assert_eq!(w.retries, 1);
    assert_eq!(w.begin_attempt(), Some((40, 99)));
    assert_eq!(w.on_piece(60), 40);
    assert_eq!(w.retries, 0);
    assert!(w.on_body_end());
}

#[test]
fn retried_resumed_range_writes_each_byte_at_its_position() {
    let mut w = ChunkWorker::new(chunk(1, 1000, 1999, 100));
    assert_eq!(w.begin_attempt(), Some((1100, 1999)));
    assert_eq!(w.on_piece(50), 1100);
    assert!(!w.on_body_end());
    assert_eq!(w.begin_attempt(), Some((1150, 1999)));
    assert_eq!(w.on_piece(10), 1150);
    assert_eq!(w.on_piece(840), 1160);
    assert!(w.on_body_end());
}

#[test]
fn failure_statuses_give_up_after_five_retries() {
    let mut w = ChunkWorker::new(chunk(7, 0, 9, 0));
    for _ in 0..5 {
        assert_eq!(wait_of(w.on_failure_status("503 Service Unavailable")), 2);
    }
    let msg = message_of(w.on_failure_status("503 Service Unavailable"));
    assert_eq!(msg, "分片 [7] HTTP 状态异常: 503 Service Unavailable");
}

#[test]
fn network_errors_back_off_exponentially() {
    let mut w = ChunkWorker::new(chunk(12, 0, 9, 0));
    let waits: Vec<u64> = (0..5).map(|_| wait_of(w.on_network_error("timed out"))).collect();
    assert_eq!(waits, vec![2, 4, 8, 16, 32]);
    assert_eq!(message_of(w.on_network_error("timed out")), "分片 [12] 网络彻底失败: timed out");
}

#[test]
fn progress_resets_the_failure_count() {
    let mut w = ChunkWorker::new(chunk(0, 0, 99, 0));
    w.on_network_error("x");
    w.on_network_error("x");
    w.begin_attempt();
    w.on_piece(1);
    assert_eq!(w.retries, 0);
}

#[test]
fn stream_worker_appends() {
    let mut w = StreamWorker::new();
    assert_eq!(w.on_piece(10), 0);
    assert_eq!(w.on_piece(5), 10);
    assert_eq!(w.current_offset, 15);
}

#[test]
fn stream_worker_gives_up_after_five_retries() {
    let mut w = StreamWorker::new();
    for _ in 0..5 {
        assert_eq!(wait_of(w.on_network_error("refused")), 2);
    }
    assert_eq!(message_of(w.on_network_error("refused")), "流式下载多次重试失败: refused");
}

#[test]
fn closed_channel_messages() {
    assert_eq!(chunk_channel_closed(), "分片写入通道已关闭");
    assert_eq!(stream_channel_closed(), "写入通道已关闭");
}
