//! The transfer workers of the native download engine, as state machines.
//! The caller performs each request, read, write and wait; the workers
//! decide where bytes go, when to retry, how long to wait and when to give
//! up.

use vstd::prelude::*;
use crate::models::ChunkState;
use crate::downloader::{chunk_len, chunk_well_formed};
use crate::text::{chars_of, concat_chars, string_from_chars};
use crate::ytdlp::{decimal, decimal_chars};

verus! {

/// Failed attempts in a row that a worker tolerates; one more ends it.
pub const MAX_RETRIES: u32 = 5;

/// What a worker does after a failed attempt: wait and try again, or give
/// up with an error message.
pub enum RetryStep {
    Retry { wait_seconds: u64 },
    GiveUp(String),
}

/// Two to the power `n`.
pub open spec fn two_pow(n: nat) -> nat
    decreases n,
{
    if n == 0 {
        1
    } else {
        2 * two_pow((n - 1) as nat)
    }
}

/// Two to the power `n`, for the back-off of a range worker.
pub fn backoff_seconds(n: u32) -> (r: u64)
    requires
        n <= MAX_RETRIES,
    ensures
        r == two_pow(n as nat),
{
    let mut r: u64 = 1;
    let mut k: u32 = 0;
    while k < n
        invariant
            k <= n <= MAX_RETRIES,
            r == two_pow(k as nat),
            r <= 32,
        decreases n - k,
    {
        assert(two_pow((k + 1) as nat) == 2 * two_pow(k as nat));
        assert(r <= 16) by {
            assert(two_pow(0) == 1);
            assert(two_pow(1) == 2);
            assert(two_pow(2) == 4);
            assert(two_pow(3) == 8);
            assert(two_pow(4) == 16);
        }
        r = r * 2;
        k = k + 1;
    }
    r
}

/// `prefix`, the decimal writing of `id`, `middle` and `detail`.
fn numbered_message(prefix: &str, id: usize, middle: &str, detail: &str) -> (r: String)
    ensures
        r@ == prefix@ + decimal(id as nat) + middle@ + detail@,
{
    let a = chars_of(prefix);
    let b = decimal_chars(id as u64);
    let c = chars_of(middle);
    let d = chars_of(detail);
    let ab = concat_chars(a.as_slice(), b.as_slice());
    let abc = concat_chars(ab.as_slice(), c.as_slice());
    let abcd = concat_chars(abc.as_slice(), d.as_slice());
    string_from_chars(abcd.as_slice())
}

/// `prefix` followed by `detail`.
fn prefixed_message(prefix: &str, detail: &str) -> (r: String)
    ensures
        r@ == prefix@ + detail@,
{
    let a = chars_of(prefix);
    let d = chars_of(detail);
    let ad = concat_chars(a.as_slice(), d.as_slice());
    string_from_chars(ad.as_slice())
}

/// The error of a range worker whose server kept answering with a failure
/// status.
pub open spec fn status_failure_message(id: usize, status: Seq<char>) -> Seq<char> {
    "分片 ["@ + decimal(id as nat) + "] HTTP 状态异常: "@ + status
}

/// The error of a range worker whose requests kept failing.
pub open spec fn network_failure_message(id: usize, error: Seq<char>) -> Seq<char> {
    "分片 ["@ + decimal(id as nat) + "] 网络彻底失败: "@ + error
}

/// The error of a range worker whose writer has gone.
pub open spec fn chunk_channel_closed_message() -> Seq<char> {
    "分片写入通道已关闭"@
}

/// The error of the stream worker whose requests kept failing.
pub open spec fn stream_failure_message(error: Seq<char>) -> Seq<char> {
    "流式下载多次重试失败: "@ + error
}

/// The error of the stream worker whose writer has gone.
pub open spec fn stream_channel_closed_message() -> Seq<char> {
    "写入通道已关闭"@
}

/// The error of a range worker whose writer has gone.
pub fn chunk_channel_closed() -> (r: String)
    ensures
        r@ == chunk_channel_closed_message(),
{
    String::from_str("分片写入通道已关闭")
}

/// The error of the stream worker whose writer has gone.
pub fn stream_channel_closed() -> (r: String)
    ensures
        r@ == stream_channel_closed_message(),
{
    String::from_str("写入通道已关闭")
}

/// A worker that fetches one byte range of the file, resuming from where
/// the range's saved offset left it.
pub struct ChunkWorker {
    /// The range as it was handed to the worker.
    pub chunk: ChunkState,
    /// Bytes of the range received, counted from the range's start.
    pub local_offset: u64,
    /// Failed attempts since bytes last arrived.
    pub retries: u32,
}

impl ChunkWorker {
    /// The worker's fields agree: its range can be measured and it has not
    /// counted fewer bytes than the range had when it was handed out.
    pub open spec fn wf(&self) -> bool {
        &&& chunk_well_formed(self.chunk)
        &&& self.chunk.current_offset <= self.local_offset
    }

    /// A worker for `chunk`, starting at the range's saved offset.
    pub fn new(chunk: ChunkState) -> (w: ChunkWorker)
        requires
            chunk_well_formed(chunk),
        ensures
            w.wf(),
            w.chunk == chunk,
            w.local_offset == chunk.current_offset,
            w.retries == 0,
    {
        ChunkWorker { chunk, local_offset: chunk.current_offset, retries: 0 }
    }

    /// The byte range the next attempt asks for (inclusive): from the
    /// first byte of the range not yet received to its end, or `None` where
    /// the whole range is received.
    pub fn begin_attempt(&self) -> (r: Option<(u64, u64)>)
        requires
            self.wf(),
            self.chunk.start + self.local_offset <= u64::MAX,
        ensures
            r == (if self.chunk.start + self.local_offset > self.chunk.end {
                None
            } else {
                Some(((self.chunk.start + self.local_offset) as u64, self.chunk.end))
            }),
    {
        let start = self.chunk.start + self.local_offset;
        if start > self.chunk.end {
            None
        } else {
            Some((start, self.chunk.end))
        }
    }

    /// A failed attempt: one more failure, given up past the limit.
    fn fail_attempt(&mut self) -> (give_up: bool)
        requires
            old(self).retries < u32::MAX,
        ensures
            final(self).chunk == old(self).chunk,
            final(self).local_offset == old(self).local_offset,
            final(self).retries == old(self).retries + 1,
            give_up == (final(self).retries > MAX_RETRIES),
    {
        self.retries = self.retries + 1;
        self.retries > MAX_RETRIES
    }

    /// The server answered with a failure status (`status` as it prints):
    /// wait two seconds and try again, or give up after more than five
    /// failures in a row.
    pub fn on_failure_status(&mut self, status: &str) -> (step: RetryStep)
        requires
            old(self).wf(),
            old(self).retries < u32::MAX,
        ensures
            final(self).wf(),
            final(self).chunk == old(self).chunk,
            final(self).local_offset == old(self).local_offset,
            final(self).retries == old(self).retries + 1,
            match step {
                RetryStep::Retry { wait_seconds } => final(self).retries <= MAX_RETRIES
                    && wait_seconds == 2,
                RetryStep::GiveUp(msg) => final(self).retries > MAX_RETRIES && msg@
                    == status_failure_message(old(self).chunk.id, status@),
            },
    {
        if self.fail_attempt() {
            RetryStep::GiveUp(
                numbered_message("分片 [", self.chunk.id, "] HTTP 状态异常: ", status),
            )
        } else {
            RetryStep::Retry { wait_seconds: 2 }
        }
    }

    /// The request failed (`error` as it prints): wait two to the power of
    /// the failures in a row seconds and try again, or give up after more
    /// than five.
    pub fn on_network_error(&mut self, error: &str) -> (step: RetryStep)
        requires
            old(self).wf(),
            old(self).retries < u32::MAX,
        ensures
            final(self).wf(),
            final(self).chunk == old(self).chunk,
            final(self).local_offset == old(self).local_offset,
            final(self).retries == old(self).retries + 1,
            match step {
                RetryStep::Retry { wait_seconds } => final(self).retries <= MAX_RETRIES
                    && wait_seconds == two_pow(final(self).retries as nat),
                RetryStep::GiveUp(msg) => final(self).retries > MAX_RETRIES && msg@
                    == network_failure_message(old(self).chunk.id, error@),
            },
    {
        if self.fail_attempt() {
            RetryStep::GiveUp(
                numbered_message("分片 [", self.chunk.id, "] 网络彻底失败: ", error),
            )
        } else {
            RetryStep::Retry { wait_seconds: backoff_seconds(self.retries) }
        }
    }

    /// `len` bytes of the answer arrived: the file offset to write them at,
    /// which is their own position in the file (the range's start plus the
    /// bytes of the range received before them, over all attempts). The
    /// count of received bytes grows by `len` and the failures in a row
    /// start again from zero.
    pub fn on_piece(&mut self, len: u64) -> (offset: u64)
        requires
            old(self).wf(),
            old(self).local_offset + len <= u64::MAX,
            old(self).chunk.start + old(self).local_offset <= u64::MAX,
        ensures
            final(self).wf(),
            final(self).chunk == old(self).chunk,
            final(self).local_offset == old(self).local_offset + len,
            final(self).retries == 0,
            offset == old(self).chunk.start + old(self).local_offset,
    {
        let offset = self.chunk.start + self.local_offset;
        self.local_offset = self.local_offset + len;
        self.retries = 0;
        offset
    }

    /// The answer ended: the worker is done where it has received the
    /// whole range; otherwise the attempt counts as failed and it tries
    /// again at once.
    pub fn on_body_end(&mut self) -> (done: bool)
        requires
            old(self).wf(),
            old(self).retries < u32::MAX,
        ensures
            final(self).wf(),
            final(self).chunk == old(self).chunk,
            final(self).local_offset == old(self).local_offset,
            done == (old(self).local_offset >= chunk_len(old(self).chunk)),
            final(self).retries == (if done {
                old(self).retries as int
            } else {
                old(self).retries + 1
            }),
    {
        if self.local_offset >= self.chunk.end - self.chunk.start + 1 {
            true
        } else {
            self.retries = self.retries + 1;
            false
        }
    }
}

/// The worker of a download whose size is unknown: it streams the whole
/// file from the start.
pub struct StreamWorker {
    /// Bytes received so far.
    pub current_offset: u64,
    /// Failed requests so far.
    pub retries: u32,
}

impl StreamWorker {
    /// A worker that has received nothing.
    pub fn new() -> (w: StreamWorker)
        ensures
            w.current_offset == 0,
            w.retries == 0,
    {
        StreamWorker { current_offset: 0, retries: 0 }
    }

    /// `len` bytes arrived: the file offset to write them at, right after
    /// the bytes received before.
    pub fn on_piece(&mut self, len: u64) -> (offset: u64)
        requires
            old(self).current_offset + len <= u64::MAX,
        ensures
            offset == old(self).current_offset,
            final(self).current_offset == old(self).current_offset + len,
            final(self).retries == old(self).retries,
    {
        let offset = self.current_offset;
        self.current_offset = self.current_offset + len;
        offset
    }

    /// The request failed (`error` as it prints): wait two seconds and try
    /// again, or give up after more than five failures.
    pub fn on_network_error(&mut self, error: &str) -> (step: RetryStep)
        requires
            old(self).retries < u32::MAX,
        ensures
            final(self).current_offset == old(self).current_offset,
            final(self).retries == old(self).retries + 1,
            match step {
                RetryStep::Retry { wait_seconds } => final(self).retries <= MAX_RETRIES
                    && wait_seconds == 2,
                RetryStep::GiveUp(msg) => final(self).retries > MAX_RETRIES && msg@
                    == stream_failure_message(error@),
            },
    {
        self.retries = self.retries + 1;
        if self.retries > MAX_RETRIES {
            RetryStep::GiveUp(prefixed_message("流式下载多次重试失败: ", error))
        } else {
            RetryStep::Retry { wait_seconds: 2 }
        }
    }
}

/// The retry schedule: a worker gives up on the sixth failure in a row,
/// and a range worker waits 2, 4, 8, 16 and 32 seconds after the first five
/// failed requests.
pub proof fn lemma_retry_schedule()
    ensures
        MAX_RETRIES == 5,
        two_pow(1) == 2,
        two_pow(2) == 4,
        two_pow(3) == 8,
        two_pow(4) == 16,
        two_pow(5) == 32,
{
    reveal_with_fuel(two_pow, 6);
}

} // verus!
