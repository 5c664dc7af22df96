//! The native download engine's decisions: the name a download is saved
//! under, the split of a file into byte ranges, resuming, the retry rules of
//! its workers and the final integrity check.

use vstd::prelude::*;
use crate::models::{ChunkState, MediaInfo, TaskStateFile};
use crate::text::{
    contains_seq, occurs_at, ends_with_seq, is_blank, is_blank_seq, chars_of, concat_chars, contains_char, replace_chars, replace_seq, starts_with_chars,
    starts_with_seq, str_eq, string_from_chars, trim_end_matches_chars, trim_end_matches_seq,
};
use crate::ytdlp::{
    all_digits, digits_value, is_digit, unsigned_part, lists_task_headers, opt_pair_views, pair_views, parse_string_map, parse_u64, parse_u64_seq,
    strip_line_breaks, strip_line_breaks_str,
};
use crate::utils::{
    after_last, after_last_chars, extract_filename_from_url, sanitize_filename, sanitized,
    url_filename,
};

verus! {

/// The title prefix that the page sniffer gives the resources it finds.
pub open spec fn sniffed_title_prefix() -> Seq<char> {
    seq!['嗅', '探', '资', '源']
}

/// A task title that says nothing about the file: empty, the placeholder
/// `unknown_file`, or a title made up by the sniffer.
pub open spec fn is_placeholder_title(title: Seq<char>) -> bool {
    ||| title.len() == 0
    ||| title == "unknown_file"@
    ||| starts_with_seq(title, sniffed_title_prefix())
}

/// The base name of a download: the task title (or, for a placeholder
/// title, the name in the URL) without the `.unknown` leftovers of naming
/// templates and without trailing ` - ` separators; `download_file` where
/// nothing is left.
pub open spec fn cleaned_base_name(title: Seq<char>, url: Seq<char>) -> Seq<char> {
    let raw = if is_placeholder_title(title) {
        url_filename(url)
    } else {
        title
    };
    let no_unknown = replace_seq(
        replace_seq(raw, ".unknown.unknown"@, Seq::empty()),
        ".unknown"@,
        Seq::empty(),
    );
    let trimmed = trim_end_matches_seq(trim_end_matches_seq(no_unknown, " - "@), " -"@);
    if trimmed.len() == 0 {
        "download_file"@
    } else {
        trimmed
    }
}

/// The extension to add where the server named none: the one derived from
/// the content type, else `mp4`.
pub open spec fn fallback_extension(real_ext: Option<Seq<char>>) -> Seq<char> {
    match real_ext {
        Some(e) => e,
        None => "mp4"@,
    }
}

/// The base name with an extension: the server's file name (cleaned) lends
/// its extension from its last `.`; otherwise a base without any `.` gets
/// `.` and the fallback extension.
pub open spec fn with_extension(
    base: Seq<char>,
    real_filename: Option<Seq<char>>,
    real_ext: Option<Seq<char>>,
) -> Seq<char> {
    let plain = if base.contains('.') {
        base
    } else {
        base + seq!['.'] + fallback_extension(real_ext)
    };
    match real_filename {
        Some(rf) => if sanitized(rf).contains('.') {
            base + seq!['.'] + after_last(sanitized(rf), '.')
        } else {
            plain
        },
        None => plain,
    }
}

/// The name a direct download is saved under.
pub open spec fn final_file_name(
    title: Seq<char>,
    url: Seq<char>,
    real_filename: Option<Seq<char>>,
    real_ext: Option<Seq<char>>,
) -> Seq<char> {
    with_extension(cleaned_base_name(title, url), real_filename, real_ext)
}

/// Every download is saved under a name with an extension: the name holds
/// a `.` (so it is not empty).
pub proof fn lemma_final_name_has_extension(
    title: Seq<char>,
    url: Seq<char>,
    real_filename: Option<Seq<char>>,
    real_ext: Option<Seq<char>>,
)
    ensures
        final_file_name(title, url, real_filename, real_ext).contains('.'),
        final_file_name(title, url, real_filename, real_ext).len() > 0,
{
    let base = cleaned_base_name(title, url);
    let name = final_file_name(title, url, real_filename, real_ext);
    if real_filename.is_some() && sanitized(real_filename.unwrap()).contains('.') {
        let tail = after_last(sanitized(real_filename.unwrap()), '.');
        assert(name == base + seq!['.'] + tail);
        assert(name[base.len() as int] == '.');
    } else if base.contains('.') {
        assert(name == base);
    } else {
        let tail = fallback_extension(real_ext);
        assert(name == base + seq!['.'] + tail);
        assert(name[base.len() as int] == '.');
    }
}

proof fn lemma_replace_absent(s: Seq<char>, pat: Seq<char>, rep: Seq<char>)
    requires
        pat.len() > 0,
        !contains_seq(s, pat),
    ensures
        replace_seq(s, pat, rep) == s,
    decreases s.len(),
{
    if s.len() >= pat.len() {
        assert(!occurs_at(s, pat, 0));
        assert(s.subrange(0, pat.len() as int) =~= s.take(pat.len() as int));
        assert(!contains_seq(s.skip(1), pat)) by {
            if contains_seq(s.skip(1), pat) {
                let i = choose|i: int| occurs_at(s.skip(1), pat, i);
                assert(s.subrange(i + 1, i + 1 + pat.len()) =~= s.skip(1).subrange(i, i + pat.len()));
                assert(occurs_at(s, pat, i + 1));
            }
        }
        lemma_replace_absent(s.skip(1), pat, rep);
        assert(seq![s[0]] + s.skip(1) =~= s);
    }
}

/// An ordinary title — not a placeholder, holding no `.unknown` and not
/// ending in ` -` or ` - ` — is the base name as it stands.
pub proof fn lemma_ordinary_title_is_kept(title: Seq<char>, url: Seq<char>)
    requires
        !is_placeholder_title(title),
        !contains_seq(title, ".unknown"@),
        !ends_with_seq(title, " -"@),
        !ends_with_seq(title, " - "@),
    ensures
        cleaned_base_name(title, url) == title,
{
    reveal_strlit(".unknown.unknown");
    reveal_strlit(".unknown");
    reveal_strlit(" - ");
    reveal_strlit(" -");
    assert(!contains_seq(title, ".unknown.unknown"@)) by {
        if contains_seq(title, ".unknown.unknown"@) {
            let i = choose|i: int| occurs_at(title, ".unknown.unknown"@, i);
            assert(title.subrange(i, i + 8) =~= ".unknown"@);
            assert(occurs_at(title, ".unknown"@, i));
        }
    }
    lemma_replace_absent(title, ".unknown.unknown"@, Seq::empty());
    lemma_replace_absent(title, ".unknown"@, Seq::empty());
    assert(title.len() > 0);
}

/// A title that says nothing about the file (empty, `unknown_file`, or
/// made up by the sniffer) gives way to the name in the URL, kept as it
/// stands where that name is ordinary.
pub proof fn lemma_placeholder_title_uses_url_name(title: Seq<char>, url: Seq<char>)
    requires
        is_placeholder_title(title),
        !contains_seq(url_filename(url), ".unknown"@),
        !ends_with_seq(url_filename(url), " -"@),
        !ends_with_seq(url_filename(url), " - "@),
    ensures
        cleaned_base_name(title, url) == url_filename(url),
{
    let raw = url_filename(url);
    reveal_strlit(".unknown.unknown");
    reveal_strlit(".unknown");
    assert(!contains_seq(raw, ".unknown.unknown"@)) by {
        if contains_seq(raw, ".unknown.unknown"@) {
            let i = choose|i: int| occurs_at(raw, ".unknown.unknown"@, i);
            assert(raw.subrange(i, i + 8) =~= ".unknown"@);
            assert(occurs_at(raw, ".unknown"@, i));
        }
    }
    lemma_replace_absent(raw, ".unknown.unknown"@, Seq::empty());
    lemma_replace_absent(raw, ".unknown"@, Seq::empty());
    crate::utils::lemma_url_filename_nonempty(url);
}

/// A trailing ` - ` left by a naming template is dropped from an otherwise
/// ordinary title.
pub proof fn lemma_trailing_separator_dropped(t: Seq<char>, url: Seq<char>)
    requires
        t.len() > 0,
        !starts_with_seq(t, sniffed_title_prefix()),
        !contains_seq(t, ".unknown"@),
        !ends_with_seq(t, " -"@),
        !ends_with_seq(t, " - "@),
    ensures
        cleaned_base_name(t + " - "@, url) == t,
{
    let title = t + " - "@;
    reveal_strlit("unknown_file");
    reveal_strlit(".unknown.unknown");
    reveal_strlit(".unknown");
    reveal_strlit(" - ");
    reveal_strlit(" -");
    assert(title != "unknown_file"@) by {
        if title == "unknown_file"@ {
            assert(title[title.len() - 1] == ' ');
        }
    }
    assert(!starts_with_seq(title, sniffed_title_prefix())) by {
        if starts_with_seq(title, sniffed_title_prefix()) {
            if t.len() >= 4 {
                assert(t.take(4) =~= title.take(4));
            } else {
                assert(title[3] == sniffed_title_prefix()[3]);
                assert(title[t.len() as int] == ' ' || title[t.len() as int] == '-');
                let k = t.len() as int;
                assert(title[k] == ' ');
                assert(title.take(4)[k] == sniffed_title_prefix()[k]);
            }
        }
    }
    assert(!contains_seq(title, ".unknown"@)) by {
        if contains_seq(title, ".unknown"@) {
            let i = choose|i: int| occurs_at(title, ".unknown"@, i);
            if i + 8 <= t.len() {
                assert(t.subrange(i, i + 8) =~= title.subrange(i, i + 8));
                assert(occurs_at(t, ".unknown"@, i));
            } else {
                assert(title.subrange(i, i + 8)[7] == 'n');
                assert(title[i + 7] == 'n');
            }
        }
    }
    assert(!contains_seq(title, ".unknown.unknown"@)) by {
        if contains_seq(title, ".unknown.unknown"@) {
            let i = choose|i: int| occurs_at(title, ".unknown.unknown"@, i);
            assert(title.subrange(i, i + 8) =~= ".unknown"@);
            assert(occurs_at(title, ".unknown"@, i));
        }
    }
    lemma_replace_absent(title, ".unknown.unknown"@, Seq::empty());
    lemma_replace_absent(title, ".unknown"@, Seq::empty());
    assert(title.skip(title.len() - 3) =~= " - "@);
    assert(title.take(title.len() - 3) =~= t);
    assert(trim_end_matches_seq(title, " - "@) == trim_end_matches_seq(t, " - "@));
}

/// Whether a title is a placeholder that says nothing about the file.
pub fn is_placeholder(title: &str) -> (r: bool)
    ensures
        r == is_placeholder_title(title@),
{
    let v = chars_of(title);
    let prefix: [char; 4] = ['嗅', '探', '资', '源'];
    let p = prefix.as_slice();
    assert(p@ =~= sniffed_title_prefix());
    v.len() == 0 || str_eq(title, "unknown_file") || starts_with_chars(v.as_slice(), p)
}

/// The base name of a download (see `cleaned_base_name`).
pub fn base_name(title: &str, url: &str) -> (r: Vec<char>)
    ensures
        r@ == cleaned_base_name(title@, url@),
{
    let raw = if is_placeholder(title) {
        chars_of(extract_filename_from_url(url).as_str())
    } else {
        chars_of(title)
    };
    let unknown2 = chars_of(".unknown.unknown");
    let unknown1 = chars_of(".unknown");
    let sep_full = chars_of(" - ");
    let sep_short = chars_of(" -");
    proof {
        reveal_strlit(".unknown.unknown");
        reveal_strlit(".unknown");
        reveal_strlit(" - ");
        reveal_strlit(" -");
    }
    let empty: Vec<char> = Vec::new();
    let a = replace_chars(raw.as_slice(), unknown2.as_slice(), empty.as_slice());
    assert(empty@ =~= Seq::<char>::empty());
    let b = replace_chars(a.as_slice(), unknown1.as_slice(), empty.as_slice());
    let c = trim_end_matches_chars(b.as_slice(), sep_full.as_slice());
    let d = trim_end_matches_chars(c.as_slice(), sep_short.as_slice());
    if d.len() == 0 {
        chars_of("download_file")
    } else {
        d
    }
}

/// `base`, a `.` and `tail`.
fn dotted(base: &[char], tail: &[char]) -> (r: Vec<char>)
    ensures
        r@ == base@ + seq!['.'] + tail@,
{
    let dot: [char; 1] = ['.'];
    let d = dot.as_slice();
    assert(d@ =~= seq!['.']);
    let with_dot = concat_chars(base, d);
    concat_chars(with_dot.as_slice(), tail)
}

/// The name a direct download is saved under, from the task's title and
/// URL and what the server said of the file: the file name it sent and the
/// extension that its content type implies.
pub fn download_file_name(
    title: &str,
    url: &str,
    real_filename: &Option<String>,
    real_ext: &Option<String>,
) -> (r: String)
    ensures
        r@ == final_file_name(title@, url@, opt_chars(*real_filename), opt_chars(*real_ext)),
{
    let base = base_name(title, url);
    let server_tail: Option<Vec<char>> = match real_filename {
        Some(rf) => {
            let clean = chars_of(sanitize_filename(rf.as_str()).as_str());
            if contains_char(clean.as_slice(), '.') {
                Some(after_last_chars(clean.as_slice(), '.'))
            } else {
                None
            }
        },
        None => None,
    };
    let out = match server_tail {
        Some(tail) => dotted(base.as_slice(), tail.as_slice()),
        None => if contains_char(base.as_slice(), '.') {
            base
        } else {
            let ext = match real_ext {
                Some(e) => chars_of(e.as_str()),
                None => chars_of("mp4"),
            };
            dotted(base.as_slice(), ext.as_slice())
        },
    };
    string_from_chars(out.as_slice())
}


/// Downloads smaller than this many bytes use one connection.
pub const MULTI_THREAD_MIN_BYTES: u64 = 5242880;

/// The number of connections for a download of `total` bytes: one where the
/// size is unknown (zero) or below 5 MiB, else the configured number.
pub open spec fn thread_count(total: u64, configured: u8) -> u64 {
    if total == 0 || total < MULTI_THREAD_MIN_BYTES {
        1
    } else {
        configured as u64
    }
}

/// The number of connections for a download of `total` bytes.
pub fn download_thread_count(total: u64, configured: u8) -> (r: u64)
    ensures
        r == thread_count(total, configured),
{
    if total == 0 || total < MULTI_THREAD_MIN_BYTES {
        1
    } else {
        configured as u64
    }
}

/// Byte range `i` of a file of `total` bytes split into `threads` ranges:
/// each of `total / threads` bytes, the last one running to the end.
pub open spec fn planned_chunk(total: u64, threads: u64, i: int) -> ChunkState {
    let size = total / threads;
    ChunkState {
        id: i as usize,
        start: (i * size) as u64,
        end: (if i == threads - 1 {
            total - 1
        } else {
            (i + 1) * size - 1
        }) as u64,
        current_offset: 0,
        is_completed: false,
    }
}

/// The byte ranges of a fresh download, in order.
pub open spec fn chunk_plan(total: u64, threads: u64) -> Seq<ChunkState> {
    Seq::new(threads as nat, |i: int| planned_chunk(total, threads, i))
}

proof fn lemma_plan_arith(total: u64, threads: u64, i: int)
    requires
        0 < threads <= total,
        0 <= i < threads,
    ensures
        total / threads >= 1,
        i * (total / threads) + total / threads <= total,
        (i + 1) * (total / threads) == i * (total / threads) + total / threads,
        0 <= i * (total / threads),
{
    let size = total / threads;
    assert(size * threads <= total) by (nonlinear_arith)
        requires
            size == total / threads,
            threads > 0,
    ;
    assert(size >= 1) by (nonlinear_arith)
        requires
            size == total / threads,
            0 < threads <= total,
    ;
    assert(i * size + size <= total) by (nonlinear_arith)
        requires
            size * threads <= total,
            0 <= i < threads,
            size >= 1,
    ;
    assert((i + 1) * size == i * size + size) by (nonlinear_arith);
    assert(0 <= i * size) by (nonlinear_arith)
        requires
            0 <= i,
            size >= 1,
    ;
}

/// The byte ranges of a fresh download of `total` bytes over `threads`
/// connections (at least one, at most one per byte).
pub fn plan_chunks(total: u64, threads: u64) -> (v: Vec<ChunkState>)
    requires
        0 < threads <= total,
        threads <= usize::MAX,
    ensures
        v@ == chunk_plan(total, threads),
{
    let size = total / threads;
    let mut v: Vec<ChunkState> = Vec::new();
    let mut i: u64 = 0;
    while i < threads
        invariant
            0 < threads <= total,
            threads <= usize::MAX,
            size == total / threads,
            i <= threads,
            v@ =~= chunk_plan(total, threads).take(i as int),
        decreases threads - i,
    {
        proof {
            lemma_plan_arith(total, threads, i as int);
        }
        let start = i * size;
        let end = if i == threads - 1 {
            total - 1
        } else {
            (i + 1) * size - 1
        };
        v.push(ChunkState { id: i as usize, start, end, current_offset: 0, is_completed: false });
        assert(chunk_plan(total, threads).take(i + 1) =~= chunk_plan(total, threads).take(
            i as int,
        ).push(planned_chunk(total, threads, i as int)));
        i = i + 1;
    }
    v
}

/// A fresh plan splits the file into back-to-back, non-empty byte ranges
/// that together cover it exactly: the first starts at byte 0, each one
/// starts right after the previous one ends, and the last ends at the last
/// byte; each starts with nothing written, and each can be handed to a
/// range worker.
pub proof fn lemma_chunk_plan_partitions(total: u64, threads: u64)
    requires
        0 < threads <= total,
        threads <= usize::MAX,
    ensures
        chunk_plan(total, threads).len() == threads,
        chunk_plan(total, threads)[0].start == 0,
        chunk_plan(total, threads)[threads - 1].end == total - 1,
        forall|i: int|
            0 <= i < threads ==> chunk_well_formed(#[trigger] chunk_plan(total, threads)[i])
                && chunk_plan(total, threads)[i].id == i
                && chunk_plan(total, threads)[i].current_offset == 0
                && !chunk_plan(total, threads)[i].is_completed,
        forall|i: int|
            0 <= i < threads - 1 ==> (#[trigger] chunk_plan(total, threads)[i + 1]).start
                == chunk_plan(total, threads)[i].end + 1,
{
    let p = chunk_plan(total, threads);
    lemma_plan_arith(total, threads, 0);
    assert(0 * (total / threads) == 0) by (nonlinear_arith);
    assert forall|i: int| 0 <= i < threads implies chunk_well_formed(#[trigger] p[i]) && p[i].id
        == i && p[i].current_offset == 0 && !p[i].is_completed by {
        lemma_plan_arith(total, threads, i);
    }
    assert forall|i: int| 0 <= i < threads - 1 implies (#[trigger] p[i + 1]).start == p[i].end
        + 1 by {
        lemma_plan_arith(total, threads, i);
        lemma_plan_arith(total, threads, i + 1);
    }
}


/// The bytes written so far according to a list of byte ranges: the sum of
/// their offsets.
pub open spec fn written_bytes(chunks: Seq<ChunkState>) -> int
    decreases chunks.len(),
{
    if chunks.len() == 0 {
        0
    } else {
        written_bytes(chunks.drop_last()) + chunks.last().current_offset
    }
}

proof fn lemma_written_bytes_prefix(chunks: Seq<ChunkState>, i: int)
    requires
        0 <= i <= chunks.len(),
    ensures
        0 <= written_bytes(chunks.take(i)) <= written_bytes(chunks),
    decreases chunks.len() - i,
{
    if i < chunks.len() {
        lemma_written_bytes_prefix(chunks, i + 1);
        assert(chunks.take(i + 1).drop_last() =~= chunks.take(i));
    } else {
        assert(chunks.take(i) =~= chunks);
    }
    lemma_written_bytes_nonneg(chunks.take(i));
}

proof fn lemma_written_bytes_nonneg(chunks: Seq<ChunkState>)
    ensures
        written_bytes(chunks) >= 0,
    decreases chunks.len(),
{
    if chunks.len() > 0 {
        lemma_written_bytes_nonneg(chunks.drop_last());
    }
}

/// Changing the offset of one range changes the total by the same amount.
pub proof fn lemma_written_bytes_update(chunks: Seq<ChunkState>, i: int, c: ChunkState)
    requires
        0 <= i < chunks.len(),
    ensures
        written_bytes(chunks.update(i, c)) == written_bytes(chunks) - chunks[i].current_offset
            + c.current_offset,
    decreases chunks.len(),
{
    let u = chunks.update(i, c);
    if i == chunks.len() - 1 {
        assert(u.drop_last() =~= chunks.drop_last());
    } else {
        lemma_written_bytes_update(chunks.drop_last(), i, c);
        assert(u.drop_last() =~= chunks.drop_last().update(i, c));
    }
}

/// The bytes already written according to a saved state.
pub fn sum_written(chunks: &Vec<ChunkState>) -> (r: u64)
    requires
        written_bytes(chunks@) <= u64::MAX,
    ensures
        r == written_bytes(chunks@),
{
    let mut sum: u64 = 0;
    let mut i: usize = 0;
    while i < chunks.len()
        invariant
            i <= chunks@.len(),
            written_bytes(chunks@) <= u64::MAX,
            sum == written_bytes(chunks@.take(i as int)),
        decreases chunks@.len() - i,
    {
        proof {
            lemma_written_bytes_prefix(chunks@, i + 1);
            assert(chunks@.take(i + 1).drop_last() =~= chunks@.take(i as int));
        }
        sum = sum + chunks[i].current_offset;
        i = i + 1;
    }
    assert(chunks@.take(i as int) =~= chunks@);
    sum
}

/// The state a download starts from, how many bytes it counts as already
/// written, and whether it resumes a saved state.
pub struct DownloadPlan {
    pub state: TaskStateFile,
    pub initial_downloaded: u64,
    pub resumed: bool,
}

/// A saved state can be resumed when it describes a file of the same size.
pub open spec fn resume_applies(saved: Option<TaskStateFile>, total: u64) -> bool {
    match saved {
        Some(s) => s.total_bytes == total,
        None => false,
    }
}

/// What a download of `total` bytes starts from. A size of zero means the
/// server did not say: the file is streamed with no byte ranges. Otherwise a
/// saved state for a file of the same size is resumed, counting the bytes
/// its ranges hold; else the file is split afresh.
pub open spec fn planned_download(
    task_id: Seq<char>,
    file_name: Seq<char>,
    total: u64,
    configured_threads: u8,
    saved: Option<TaskStateFile>,
    p: DownloadPlan,
) -> bool {
    if total > 0 && resume_applies(saved, total) {
        &&& p.state == saved.unwrap()
        &&& p.initial_downloaded == written_bytes(saved.unwrap().chunks@)
        &&& p.resumed
    } else {
        &&& p.state.task_id@ == task_id
        &&& p.state.file_name@ == file_name
        &&& p.state.total_bytes == total
        &&& p.state.chunks@ == (if total == 0 {
            Seq::<ChunkState>::empty()
        } else {
            chunk_plan(total, thread_count(total, configured_threads))
        })
        &&& p.initial_downloaded == 0
        &&& !p.resumed
    }
}

/// Decides what a download starts from (see `planned_download`). `saved` is
/// the state found beside an existing file, where one was found and read.
pub fn plan_download(
    task_id: &str,
    file_name: &str,
    total: u64,
    configured_threads: u8,
    saved: Option<TaskStateFile>,
) -> (p: DownloadPlan)
    requires
        total >= MULTI_THREAD_MIN_BYTES ==> configured_threads > 0,
        total > 0 && resume_applies(saved, total) ==> written_bytes(saved.unwrap().chunks@)
            <= u64::MAX,
    ensures
        planned_download(task_id@, file_name@, total, configured_threads, saved, p),
{
    if total > 0 {
        match saved {
            Some(s) => {
                if s.total_bytes == total {
                    let initial = sum_written(&s.chunks);
                    return DownloadPlan { state: s, initial_downloaded: initial, resumed: true };
                }
            },
            None => {},
        }
    }
    let chunks = if total == 0 {
        Vec::new()
    } else {
        let threads = download_thread_count(total, configured_threads);
        plan_chunks(total, threads)
    };
    let state = TaskStateFile {
        task_id: String::from_str(task_id),
        total_bytes: total,
        file_name: String::from_str(file_name),
        chunks,
    };
    DownloadPlan { state, initial_downloaded: 0, resumed: false }
}

/// The number of bytes a byte range spans.
pub open spec fn chunk_len(c: ChunkState) -> int {
    c.end - c.start + 1
}

/// A byte range whose length can be computed: it is not empty and its
/// length fits in 64 bits.
pub open spec fn chunk_well_formed(c: ChunkState) -> bool {
    c.start <= c.end && c.end - c.start < u64::MAX
}

/// `c` after `len` more bytes of it were written: its offset grows by `len`
/// and it is complete once the offset reaches its length; complete stays
/// complete.
pub open spec fn after_write(c: ChunkState, len: u64) -> ChunkState {
    ChunkState {
        current_offset: (c.current_offset + len) as u64,
        is_completed: c.is_completed || c.current_offset + len >= chunk_len(c),
        ..c
    }
}

impl ChunkState {
    /// Records that `len` more bytes of this range were written.
    pub fn record_write(&mut self, len: u64)
        requires
            chunk_well_formed(*old(self)),
            old(self).current_offset + len <= u64::MAX,
        ensures
            *final(self) == after_write(*old(self), len),
    {
        self.current_offset = self.current_offset + len;
        if self.current_offset >= self.end - self.start + 1 {
            self.is_completed = true;
        }
    }
}

impl TaskStateFile {
    /// Records that `len` more bytes of range `chunk_id` were written; the
    /// bytes the state counts grow by exactly `len`.
    pub fn record_write(&mut self, chunk_id: usize, len: u64)
        requires
            chunk_id < old(self).chunks@.len(),
            chunk_well_formed(old(self).chunks@[chunk_id as int]),
            old(self).chunks@[chunk_id as int].current_offset + len <= u64::MAX,
        ensures
            final(self).task_id == old(self).task_id,
            final(self).total_bytes == old(self).total_bytes,
            final(self).file_name == old(self).file_name,
            final(self).chunks@ == old(self).chunks@.update(
                chunk_id as int,
                after_write(old(self).chunks@[chunk_id as int], len),
            ),
            written_bytes(final(self).chunks@) == written_bytes(old(self).chunks@) + len,
    {
        let mut c = self.chunks[chunk_id];
        c.record_write(len);
        self.chunks.set(chunk_id, c);
        proof {
            lemma_written_bytes_update(old(self).chunks@, chunk_id as int, c);
        }
    }
}


/// The total size in a `Content-Range` header: the number after its last
/// `/`, or 0 where that is not a number (such as `*`).
pub open spec fn content_range_total(header: Seq<char>) -> u64 {
    match parse_u64_seq(after_last(header, '/')) {
        Some(n) => n,
        None => 0,
    }
}

/// The total size in a `Content-Range` header such as `bytes 0-0/1234`.
pub fn total_from_content_range(header: &str) -> (r: u64)
    ensures
        r == content_range_total(header@),
{
    let v = chars_of(header);
    let tail = after_last_chars(v.as_slice(), '/');
    match parse_u64(tail.as_slice()) {
        Some(n) => n,
        None => 0,
    }
}

/// What one probe of the server reported about the file: its length, its
/// `Content-Range` header (where present and readable), the file name the
/// server gave and the extension its content type implies.
pub struct ProbeReply {
    pub content_length: Option<u64>,
    pub content_range: Option<String>,
    pub file_name: Option<String>,
    pub extension: Option<String>,
}

/// What is known of the remote file before downloading it: its size (0
/// where unknown), and the name and extension the server suggested.
pub struct RemoteFile {
    pub total_size: u64,
    pub real_filename: Option<String>,
    pub real_ext: Option<String>,
}

/// The size a `HEAD` answer gives: its length, 0 where it has none or the
/// request failed.
pub open spec fn head_total(head: Option<ProbeReply>) -> u64 {
    match head {
        Some(h) => match h.content_length {
            Some(n) => n,
            None => 0,
        },
        None => 0,
    }
}

/// The size a one-byte ranged `GET` answer gives: the total of its
/// `Content-Range`, else its length, else 0.
pub open spec fn ranged_total(reply: ProbeReply) -> u64 {
    let from_range = match reply.content_range {
        Some(cr) => content_range_total(cr@),
        None => 0,
    };
    if from_range != 0 {
        from_range
    } else {
        match reply.content_length {
            Some(n) => n,
            None => 0,
        }
    }
}

/// The views of an optional string.
pub open spec fn opt_chars(o: Option<String>) -> Option<Seq<char>> {
    match o {
        Some(s) => Some(s@),
        None => None,
    }
}

/// An optional string of a reply, or `None` where there was no reply.
pub open spec fn reply_field(reply: Option<ProbeReply>, name: bool) -> Option<Seq<char>> {
    match reply {
        Some(r) => if name {
            opt_chars(r.file_name)
        } else {
            opt_chars(r.extension)
        },
        None => None,
    }
}

/// What the two probes together say of the file: the `HEAD` answer first;
/// where it gives no size, the ranged `GET` answer (sent only then) for the
/// size, and for a name or extension the `HEAD` answer lacked.
pub open spec fn probed_file(head: Option<ProbeReply>, ranged: Option<ProbeReply>, f: RemoteFile) -> bool {
    let second = if head_total(head) == 0 {
        ranged
    } else {
        None
    };
    &&& f.total_size == (if head_total(head) != 0 {
        head_total(head)
    } else {
        match ranged {
            Some(r) => ranged_total(r),
            None => 0,
        }
    })
    &&& opt_chars(f.real_filename) == (match reply_field(head, true) {
        Some(n) => Some(n),
        None => reply_field(second, true),
    })
    &&& opt_chars(f.real_ext) == (match reply_field(head, false) {
        Some(e) => Some(e),
        None => reply_field(second, false),
    })
}

/// Whether the ranged `GET` probe is needed: the `HEAD` answer gave no size.
pub fn needs_range_probe(head: &Option<ProbeReply>) -> (r: bool)
    ensures
        r == (head_total(*head) == 0),
{
    match head {
        Some(h) => match h.content_length {
            Some(n) => n == 0,
            None => true,
        },
        None => true,
    }
}

fn take_field(primary: Option<String>, secondary: Option<String>) -> (r: Option<String>)
    ensures
        opt_chars(r) == (match opt_chars(primary) {
            Some(n) => Some(n),
            None => opt_chars(secondary),
        }),
{
    match primary {
        Some(p) => Some(p),
        None => secondary,
    }
}

/// Combines the answers of the probes (see `probed_file`); `ranged` is the
/// answer of the ranged `GET` where it was sent and answered.
pub fn remote_file(head: Option<ProbeReply>, ranged: Option<ProbeReply>) -> (f: RemoteFile)
    ensures
        probed_file(head, ranged, f),
{
    let ghost head0 = head;
    let ghost ranged0 = ranged;
    let first_total = needs_range_probe(&head);
    let (head_name, head_ext, head_len): (Option<String>, Option<String>, u64) = match head {
        Some(h) => (
            h.file_name,
            h.extension,
            match h.content_length {
                Some(n) => n,
                None => 0,
            },
        ),
        None => (None, None, 0),
    };
    if !first_total {
        return RemoteFile { total_size: head_len, real_filename: head_name, real_ext: head_ext };
    }
    match ranged {
        Some(r) => {
            let from_range = match &r.content_range {
                Some(cr) => total_from_content_range(cr.as_str()),
                None => 0,
            };
            let total = if from_range != 0 {
                from_range
            } else {
                match r.content_length {
                    Some(n) => n,
                    None => 0,
                }
            };
            RemoteFile {
                total_size: total,
                real_filename: take_field(head_name, r.file_name),
                real_ext: take_field(head_ext, r.extension),
            }
        },
        None => RemoteFile {
            total_size: 0,
            real_filename: take_field(head_name, None),
            real_ext: take_field(head_ext, None),
        },
    }
}

/// The proxy to route requests through: the configured address where it is
/// not blank, as written.
pub fn proxy_to_use(proxy_url: &str) -> (r: Option<String>)
    ensures
        r.is_some() == !is_blank_seq(proxy_url@),
        r.is_some() ==> r.unwrap()@ == proxy_url@,
{
    if is_blank(proxy_url) {
        None
    } else {
        Some(String::from_str(proxy_url))
    }
}

/// The description of a direct download link: its file name as title, no
/// thumbnail, formats or playlist.
pub fn direct_link_info(url: &str) -> (info: MediaInfo)
    ensures
        info.id@ == "direct_link"@,
        info.title@ == url_filename(url@),
        info.thumbnail@ == Seq::<char>::empty(),
        info.formats@.len() == 0,
        info.playlist_entries.is_none(),
{
    let title = extract_filename_from_url(url);
    let thumbnail = String::new();
    MediaInfo {
        id: String::from_str("direct_link"),
        title,
        thumbnail,
        formats: Vec::new(),
        playlist_entries: None,
    }
}

/// The error of a ranged download whose file or byte count came out wrong.
pub open spec fn incomplete_message() -> Seq<char> {
    "数据不完整或文件系统写入失败，已被安全销毁"@
}

/// The error of a ranged download whose file could not be measured.
pub open spec fn unverifiable_message() -> Seq<char> {
    "无法验证最终文件的完整性"@
}

/// The error of a streamed download that received nothing.
pub open spec fn stream_broken_message() -> Seq<char> {
    "下载失败: 链接已失效、服务器断开连接或任务被取消"@
}

/// The outcome of a download whose workers all finished: its result, and
/// which of the downloaded file and the state file beside it to delete.
pub struct FinishDecision {
    pub result: Result<u64, String>,
    pub remove_file: bool,
    pub remove_state_file: bool,
}

/// The final check. A ranged download succeeds only where the file on disk
/// and the bytes counted both have the expected size; otherwise the file is
/// deleted (or, where it cannot be measured, the download fails). On success
/// the state file goes. A streamed download fails, deleting the file, where
/// it received nothing or less than an announced size.
pub open spec fn finish_decision(
    is_stream: bool,
    total: u64,
    final_size: u64,
    file_len: Option<u64>,
    d: FinishDecision,
) -> bool {
    if !is_stream {
        match file_len {
            Some(len) => if len != total || final_size != total {
                &&& d.result matches Err(m) && m@ == incomplete_message()
                &&& d.remove_file && !d.remove_state_file
            } else {
                &&& d.result == Ok::<u64, String>(final_size)
                &&& !d.remove_file && d.remove_state_file
            },
            None => {
                &&& d.result matches Err(m) && m@ == unverifiable_message()
                &&& !d.remove_file && !d.remove_state_file
            },
        }
    } else if final_size == 0 || (total > 0 && final_size < total) {
        &&& d.result matches Err(m) && m@ == stream_broken_message()
        &&& d.remove_file && !d.remove_state_file
    } else {
        &&& d.result == Ok::<u64, String>(final_size)
        &&& !d.remove_file && !d.remove_state_file
    }
}

/// Decides the outcome of a download whose workers all finished without
/// error (see `finish_decision`); `file_len` is the size of the file on
/// disk, where it could be read.
pub fn finish_download(is_stream: bool, total: u64, final_size: u64, file_len: Option<u64>) -> (d:
    FinishDecision)
    ensures
        finish_decision(is_stream, total, final_size, file_len, d),
{
    if !is_stream {
        match file_len {
            Some(len) => {
                if len != total || final_size != total {
                    FinishDecision {
                        result: Err(String::from_str("数据不完整或文件系统写入失败，已被安全销毁")),
                        remove_file: true,
                        remove_state_file: false,
                    }
                } else {
                    FinishDecision { result: Ok(final_size), remove_file: false, remove_state_file: true }
                }
            },
            None => FinishDecision {
                result: Err(String::from_str("无法验证最终文件的完整性")),
                remove_file: false,
                remove_state_file: false,
            },
        }
    } else if final_size == 0 || (total > 0 && final_size < total) {
        FinishDecision {
            result: Err(String::from_str("下载失败: 链接已失效、服务器断开连接或任务被取消")),
            remove_file: true,
            remove_state_file: false,
        }
    } else {
        FinishDecision { result: Ok(final_size), remove_file: false, remove_state_file: false }
    }
}


/// Header pairs with their values' line breaks removed.
pub open spec fn stripped_pairs(h: Seq<(Seq<char>, Seq<char>)>) -> Seq<(Seq<char>, Seq<char>)> {
    h.map_values(|p: (Seq<char>, Seq<char>)| (p.0, strip_line_breaks(p.1)))
}

/// The extra request headers of a task: the pairs of its JSON header text
/// (in the order the parsed map yields them), each value without line
/// breaks; `None` where it has no header text or the text does not parse.
pub fn request_headers(http_headers: &Option<String>) -> (r: Option<Vec<(String, String)>>)
    ensures
        exists|h: Option<Seq<(Seq<char>, Seq<char>)>>|
            lists_task_headers(*http_headers, h) && opt_pair_views(r) == (match h {
                Some(p) => Some(stripped_pairs(p)),
                None => None,
            }),
{
    let parsed: Option<Vec<(String, String)>> = match http_headers {
        Some(j) => parse_string_map(j.as_str()),
        None => None,
    };
    assert(lists_task_headers(*http_headers, opt_pair_views(parsed)));
    match parsed {
        None => None,
        Some(pairs) => {
            let mut out: Vec<(String, String)> = Vec::new();
            let mut i: usize = 0;
            while i < pairs.len()
                invariant
                    i <= pairs@.len(),
                    pair_views(out@) == stripped_pairs(pair_views(pairs@).take(i as int)),
                decreases pairs@.len() - i,
            {
                let key = pairs[i].0.clone();
                let value = strip_line_breaks_str(pairs[i].1.as_str());
                let ghost before = pair_views(out@);
                out.push((key, value));
                assert(pair_views(out@) =~= before.push((pairs@[i as int].0@, value@)));
                assert(pair_views(pairs@).take(i + 1) =~= pair_views(pairs@).take(i as int).push(
                    (pairs@[i as int].0@, pairs@[i as int].1@),
                ));
                assert(stripped_pairs(pair_views(pairs@).take(i + 1)) =~= stripped_pairs(
                    pair_views(pairs@).take(i as int),
                ).push((pairs@[i as int].0@, strip_line_breaks(pairs@[i as int].1@))));
                i = i + 1;
            }
            assert(pair_views(pairs@).take(i as int) =~= pair_views(pairs@));
            Some(out)
        },
    }
}

/// Where the server's cleaned file name holds a `.`, the download is saved
/// as the base name, a `.`, and the server name's extension: the part after
/// its last `.` (which holds no `.` and ends the server name). This holds
/// whatever the base name holds, a `.` included.
pub proof fn lemma_server_extension_is_appended(
    title: Seq<char>,
    url: Seq<char>,
    server_name: Seq<char>,
    real_ext: Option<Seq<char>>,
)
    requires
        sanitized(server_name).contains('.'),
    ensures
        exists|ext: Seq<char>|
            #![trigger ext.len()]
            {
                &&& final_file_name(title, url, Some(server_name), real_ext) == cleaned_base_name(
                    title,
                    url,
                ) + seq!['.'] + ext
                &&& !ext.contains('.')
                &&& ends_with_seq(sanitized(server_name), seq!['.'] + ext)
            },
{
    let clean = sanitized(server_name);
    let ext = after_last(clean, '.');
    lemma_after_last_shape(clean, '.');
    assert(ext.len() == ext.len());
}

/// The part of `s` after its last `c`, where `s` holds a `c`: it holds no
/// `c`, and `s` ends with `c` followed by it.
proof fn lemma_after_last_shape(s: Seq<char>, c: char)
    requires
        s.contains(c),
    ensures
        !after_last(s, c).contains(c),
        ends_with_seq(s, seq![c] + after_last(s, c)),
    decreases s.len(),
{
    let t = after_last(s, c);
    if s.last() == c {
        assert(t =~= Seq::<char>::empty());
        assert(s.skip(s.len() - 1) =~= seq![c] + t);
    } else {
        let d = s.drop_last();
        assert(d.contains(c)) by {
            let i = choose|i: int| 0 <= i < s.len() && s[i] == c;
            assert(i < s.len() - 1);
            assert(d[i] == c);
        }
        lemma_after_last_shape(d, c);
        let td = after_last(d, c);
        assert(t == td.push(s.last()));
        assert(!t.contains(c)) by {
            if t.contains(c) {
                let i = choose|i: int| 0 <= i < t.len() && t[i] == c;
                if i < td.len() {
                    assert(td[i] == c);
                }
            }
        }
        let n = (seq![c] + td).len();
        assert(d.skip(d.len() - n) == seq![c] + td);
        assert(s.skip(s.len() - (n + 1)) =~= d.skip(d.len() - n).push(s.last()));
        assert(seq![c] + t =~= (seq![c] + td).push(s.last()));
    }
}

/// A fresh download of at least 5 MiB runs over exactly the configured
/// number of connections: its plan has one byte range per connection, all
/// of `total / c` bytes but the last; a smaller (known) file gets one range
/// holding all of it.
pub proof fn lemma_fresh_plan_uses_configured_connections(
    task_id: Seq<char>,
    file_name: Seq<char>,
    total: u64,
    configured: u8,
    saved: Option<TaskStateFile>,
    p: DownloadPlan,
)
    requires
        planned_download(task_id, file_name, total, configured, saved, p),
        !resume_applies(saved, total),
        total > 0,
        total >= 5242880 ==> configured > 0,
    ensures
        !p.resumed,
        p.initial_downloaded == 0,
        total >= 5242880 ==> p.state.chunks@.len() == configured as nat,
        total >= 5242880 ==> forall|i: int|
            0 <= i < configured - 1 ==> chunk_len(#[trigger] p.state.chunks@[i]) == total
                / (configured as u64),
        total < 5242880 ==> p.state.chunks@.len() == 1 && p.state.chunks@[0].start == 0
            && p.state.chunks@[0].end == total - 1,
{
    let c: u64 = if total >= 5242880 {
        configured as u64
    } else {
        1
    };
    assert(c <= total);
    assert(p.state.chunks@ == chunk_plan(total, c));
    lemma_chunk_plan_partitions(total, c);
    if total >= 5242880 {
        assert forall|i: int| 0 <= i < c - 1 implies chunk_len(#[trigger] p.state.chunks@[i]) == total
            / c by {
            lemma_plan_arith(total, c, i);
            lemma_plan_arith(total, c, i + 1);
        }
    } else {
        assert(0 * (total / 1) == 0) by (nonlinear_arith);
    }
}

/// A download over byte ranges succeeds exactly when the file on disk and
/// the bytes counted both have the expected size, and then reports that
/// size; a failed one never keeps the state file. A streamed download
/// succeeds exactly when it received some bytes (and, where a size was
/// announced, at least that many), reporting what it received.
pub proof fn lemma_finish_succeeds_only_when_complete(
    is_stream: bool,
    total: u64,
    final_size: u64,
    file_len: Option<u64>,
    d: FinishDecision,
)
    requires
        finish_decision(is_stream, total, final_size, file_len, d),
    ensures
        !is_stream ==> (d.result.is_ok() <==> (file_len == Some(total) && final_size == total)),
        !is_stream && d.result.is_ok() ==> d.result == Ok::<u64, String>(total) && d.remove_state_file
            && !d.remove_file,
        !is_stream && d.result.is_err() ==> !d.remove_state_file,
        is_stream ==> (d.result.is_ok() <==> (final_size > 0 && (total == 0 || final_size >= total))),
        is_stream && d.result.is_ok() ==> d.result == Ok::<u64, String>(final_size),
        is_stream ==> (d.remove_file <==> d.result.is_err()) && !d.remove_state_file,
{
}

/// Where the server named no file with an extension, a base name that
/// already holds a `.` is kept as it is; otherwise it gets `.` and the
/// extension its content type implies, `mp4` where none is known.
pub proof fn lemma_fallback_extension(
    title: Seq<char>,
    url: Seq<char>,
    real_filename: Option<Seq<char>>,
    real_ext: Option<Seq<char>>,
)
    requires
        real_filename.is_none() || !sanitized(real_filename.unwrap()).contains('.'),
    ensures
        cleaned_base_name(title, url).contains('.') ==> final_file_name(title, url, real_filename, real_ext)
            == cleaned_base_name(title, url),
        !cleaned_base_name(title, url).contains('.') && real_ext.is_some() ==> final_file_name(
            title,
            url,
            real_filename,
            real_ext,
        ) == cleaned_base_name(title, url) + seq!['.'] + real_ext.unwrap(),
        !cleaned_base_name(title, url).contains('.') && real_ext.is_none() ==> final_file_name(
            title,
            url,
            real_filename,
            real_ext,
        ) == cleaned_base_name(title, url) + ".mp4"@,
{
    reveal_strlit(".mp4");
    reveal_strlit("mp4");
    let base = cleaned_base_name(title, url);
    assert(base + seq!['.'] + "mp4"@ =~= base + ".mp4"@);
}

/// The total size of a `Content-Range` header such as `bytes 0-0/1234` is
/// the number after its last `/`; where that is not a number (`*`), it is 0.
pub proof fn lemma_content_range_total_after_slash(range: Seq<char>, digits: Seq<char>)
    requires
        !digits.contains('/'),
    ensures
        digits.len() > 0 && all_digits(digits) && digits_value(digits) <= u64::MAX
            ==> content_range_total(range + seq!['/'] + digits) == digits_value(digits),
        parse_u64_seq(digits).is_none() ==> content_range_total(range + seq!['/'] + digits) == 0,
{
    crate::utils::lemma_after_last_of_tail(range, digits, '/');
    if digits.len() > 0 && all_digits(digits) {
        assert(is_digit(digits[0]));
        assert(unsigned_part(digits) == digits);
    }
}

/// The probes' size: a `HEAD` answer with a non-zero length decides it and
/// the ranged answer is not consulted; otherwise a ranged answer whose
/// `Content-Range` names a non-zero total gives that total.
pub proof fn lemma_probe_size(head: Option<ProbeReply>, ranged: Option<ProbeReply>, f: RemoteFile)
    requires
        probed_file(head, ranged, f),
    ensures
        head.is_some() && head.unwrap().content_length.is_some() && head.unwrap().content_length.unwrap()
            > 0 ==> f.total_size == head.unwrap().content_length.unwrap(),
        head_total(head) == 0 && ranged.is_some() && ranged.unwrap().content_range.is_some()
            && content_range_total(ranged.unwrap().content_range.unwrap()@) > 0 ==> f.total_size
            == content_range_total(ranged.unwrap().content_range.unwrap()@),
        head_total(head) == 0 && ranged.is_none() ==> f.total_size == 0,
{
}

/// A saved state for a file of the same (known) size is resumed as it is,
/// counting as already downloaded the sum of the offsets of its ranges.
pub proof fn lemma_resume_counts_saved_offsets(
    task_id: Seq<char>,
    file_name: Seq<char>,
    total: u64,
    configured: u8,
    saved: TaskStateFile,
    p: DownloadPlan,
)
    requires
        planned_download(task_id, file_name, total, configured, Some(saved), p),
        total > 0,
        saved.total_bytes == total,
    ensures
        p.resumed,
        p.state == saved,
        p.initial_downloaded == written_bytes(saved.chunks@),
        saved.chunks@.len() == 0 ==> p.initial_downloaded == 0,
        saved.chunks@.len() == 2 ==> p.initial_downloaded == saved.chunks@[0].current_offset
            + saved.chunks@[1].current_offset,
        forall|i: int| 0 <= i < saved.chunks@.len() ==> #[trigger] saved.chunks@[i].current_offset
            <= p.initial_downloaded,
{
    if saved.chunks@.len() == 2 {
        let c = saved.chunks@;
        assert(c.drop_last().drop_last() =~= Seq::<ChunkState>::empty());
        assert(c.drop_last().last() == c[0]);
        assert(written_bytes(c.drop_last().drop_last()) == 0);
        assert(written_bytes(c.drop_last()) == c[0].current_offset);
        assert(written_bytes(c) == c[0].current_offset + c[1].current_offset);
    }
    assert forall|i: int| 0 <= i < saved.chunks@.len() implies #[trigger] saved.chunks@[i].current_offset
        <= p.initial_downloaded by {
        lemma_offset_within_written(saved.chunks@, i);
    }
}

proof fn lemma_offset_within_written(chunks: Seq<ChunkState>, i: int)
    requires
        0 <= i < chunks.len(),
    ensures
        chunks[i].current_offset <= written_bytes(chunks),
    decreases chunks.len(),
{
    lemma_written_bytes_nonneg(chunks.drop_last());
    if i < chunks.len() - 1 {
        lemma_offset_within_written(chunks.drop_last(), i);
    }
}

} // verus!
