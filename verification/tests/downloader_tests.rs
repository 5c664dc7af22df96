use dl_omni::downloader::{
    base_name, direct_link_info, download_file_name, download_thread_count, finish_download,
    is_placeholder, needs_range_probe, plan_chunks, plan_download, proxy_to_use, remote_file,
    request_headers, sum_written, total_from_content_range, ProbeReply,
};
use dl_omni::models::{ChunkState, TaskStateFile};

fn chunk(id: usize, start: u64, end: u64, off: u64, done: bool) -> ChunkState {
    ChunkState { id, start, end, current_offset: off, is_completed: done }
}

fn s(x: &str) -> Option<String> {
    Some(x.to_string())
}

#[test]
fn placeholder_titles() {
    assert!(is_placeholder(""));
    assert!(is_placeholder("unknown_file"));
    assert!(is_placeholder("嗅探资源 [DOM Hook (src)]"));
    assert!(!is_placeholder("My Video"));
    assert!(!is_placeholder("unknown_file2"));
}

#[test]
fn base_name_cleans_template_leftovers() {
    let b: String = base_name("Song.unknown.unknown - ", "https://x/y.mp3").into_iter().collect();
    assert_eq!(b, "Song");
    let b: String = base_name("Clip - - ", "u").into_iter().collect();
    assert_eq!(b, "Clip");
    let b: String = base_name(" - ", "u").into_iter().collect();
    assert_eq!(b, "download_file");
}

#[test]
fn placeholder_title_takes_the_url_name() {
    let b: String = base_name("嗅探资源 [XHR]", "https://cdn.example/v/clip.m3u8?sig=1").into_iter().collect();
    assert_eq!(b, "clip.m3u8");
    let b: String = base_name("", "https://cdn.example/").into_iter().collect();
    assert_eq!(b, "unknown_file");
}

#[test]
fn final_name_gets_a_default_extension() {
    assert_eq!(download_file_name("My Video", "https://x/a", &None, &None), "My Video.mp4");
    assert_eq!(download_file_name("My Video", "https://x/a", &None, &s("webm")), "My Video.webm");
    assert_eq!(download_file_name("report.pdf", "https://x/a", &None, &None), "report.pdf");
}

#[test]
fn final_name_borrows_the_server_extension() {
    assert_eq!(
        download_file_name("Movie", "https://x/a", &s("server:name.tar.gz"), &s("bin")),
        "Movie.gz"
    );
    assert_eq!(download_file_name("Movie", "https://x/a", &s("noext"), &s("bin")), "Movie.bin");
    assert_eq!(download_file_name("Movie.x", "https://x/a", &s("noext"), &None), "Movie.x");
}

#[test]
fn thread_count_rules() {
    assert_eq!(download_thread_count(0, 16), 1);
    assert_eq!(download_thread_count(5 * 1024 * 1024 - 1, 16), 1);
    assert_eq!(download_thread_count(5 * 1024 * 1024, 16), 16);
}

#[test]
fn chunk_plan_splits_evenly_with_a_longer_last_range() {
    assert_eq!(
        plan_chunks(10, 3),
        vec![chunk(0, 0, 2, 0, false), chunk(1, 3, 5, 0, false), chunk(2, 6, 9, 0, false)]
    );
    assert_eq!(plan_chunks(7, 1), vec![chunk(0, 0, 6, 0, false)]);
    assert_eq!(plan_chunks(4, 4).len(), 4);
}

#[test]
fn chunk_plan_covers_every_byte_once() {
    let total = 5 * 1024 * 1024 + 17;
    let plan = plan_chunks(total, 16);
    assert_eq!(plan[0].start, 0);
    assert_eq!(plan[15].end, total - 1);
    for i in 0..15 {
        assert_eq!(plan[i + 1].start, plan[i].end + 1);
    }
    let covered: u64 = plan.iter().map(|c| c.end - c.start + 1).sum();
    assert_eq!(covered, total);
}

#[test]
fn written_bytes_sum_offsets() {
    assert_eq!(sum_written(&vec![chunk(0, 0, 9, 4, false), chunk(1, 10, 19, 10, true)]), 14);
    assert_eq!(sum_written(&vec![]), 0);
}

#[test]
fn fresh_plan_for_unsaved_download() {
    let p = plan_download("t", "f.bin", 10, 4, None);
    assert!(!p.resumed);
    assert_eq!(p.initial_downloaded, 0);
    assert_eq!(p.state.chunks, vec![chunk(0, 0, 9, 0, false)]);
    assert_eq!(p.state.task_id, "t");
    assert_eq!(p.state.file_name, "f.bin");
    assert_eq!(p.state.total_bytes, 10);
}

#[test]
fn saved_state_of_same_size_is_resumed() {
    let saved = TaskStateFile {
        task_id: "old".to_string(),
        total_bytes: 20,
        file_name: "f".to_string(),
        chunks: vec![chunk(0, 0, 9, 10, true), chunk(1, 10, 19, 3, false)],
    };
    let p = plan_download("t", "f", 20, 4, Some(saved));
    assert!(p.resumed);
    assert_eq!(p.initial_downloaded, 13);
    assert_eq!(p.state.task_id, "old");
}

#[test]
fn saved_state_of_other_size_is_discarded() {
    let saved = TaskStateFile {
        task_id: "old".to_string(),
        total_bytes: 21,
        file_name: "f".to_string(),
        chunks: vec![chunk(0, 0, 20, 10, false)],
    };
    let p = plan_download("t", "f", 20, 4, Some(saved));
    assert!(!p.resumed);
    assert_eq!(p.state.chunks, vec![chunk(0, 0, 19, 0, false)]);
}

#[test]
fn unknown_size_is_streamed_without_ranges() {
    let saved = TaskStateFile { task_id: "x".to_string(), total_bytes: 0, file_name: "f".to_string(), chunks: vec![] };
    let p = plan_download("t", "f", 0, 4, Some(saved));
    assert!(!p.resumed);
    assert!(p.state.chunks.is_empty());
    assert_eq!(p.state.task_id, "t");
}

#[test]
fn recording_writes_completes_a_range() {
    let mut c = chunk(0, 0, 9, 0, false);
    c.record_write(4);
    assert_eq!(c, chunk(0, 0, 9, 4, false));
    c.record_write(6);
    assert_eq!(c, chunk(0, 0, 9, 10, true));
    c.record_write(1);
    assert!(c.is_completed);
    assert_eq!(c.current_offset, 11);
}

#[test]
fn recording_writes_in_the_state_file() {
    let mut st = TaskStateFile {
        task_id: "t".to_string(),
        total_bytes: 20,
        file_name: "f".to_string(),
        chunks: vec![chunk(0, 0, 9, 0, false), chunk(1, 10, 19, 0, false)],
    };
    st.record_write(1, 10);
    assert_eq!(st.chunks[1], chunk(1, 10, 19, 10, true));
    assert_eq!(st.chunks[0], chunk(0, 0, 9, 0, false));
    assert_eq!(sum_written(&st.chunks), 10);
}

#[test]
fn content_range_totals() {
    assert_eq!(total_from_content_range("bytes 0-0/1234"), 1234);
    assert_eq!(total_from_content_range("bytes 0-0/*"), 0);
    assert_eq!(total_from_content_range("1234"), 1234);
    assert_eq!(total_from_content_range(""), 0);
}

fn reply(len: Option<u64>, range: Option<&str>, name: Option<&str>, ext: Option<&str>) -> ProbeReply {
    ProbeReply {
        content_length: len,
        content_range: range.map(|x| x.to_string()),
        file_name: name.map(|x| x.to_string()),
        extension: ext.map(|x| x.to_string()),
    }
}

#[test]
fn head_size_is_enough() {
    let head = Some(reply(Some(500), None, Some("a.zip"), None));
    assert!(!needs_range_probe(&head));
    let f = remote_file(head, Some(reply(Some(1), Some("bytes 0-0/900"), Some("b"), Some("mp4"))));
    assert_eq!(f.total_size, 500);
    assert_eq!(f.real_filename.as_deref(), Some("a.zip"));
    assert_eq!(f.real_ext, None);
}

#[test]
fn ranged_probe_fills_the_gaps() {
    let head = Some(reply(None, None, None, Some("mkv")));
    assert!(needs_range_probe(&head));
    assert!(needs_range_probe(&None));
    let f = remote_file(head, Some(reply(Some(1), Some("bytes 0-0/900"), Some("b.bin"), Some("mp4"))));
    assert_eq!(f.total_size, 900);
    assert_eq!(f.real_filename.as_deref(), Some("b.bin"));
    assert_eq!(f.real_ext.as_deref(), Some("mkv"));
    let g = remote_file(None, Some(reply(Some(77), Some("bytes */*"), None, None)));
    assert_eq!(g.total_size, 77);
    let h = remote_file(None, None);
    assert_eq!(h.total_size, 0);
}

#[test]
fn proxy_only_when_set() {
    assert_eq!(proxy_to_use(""), None);
    assert_eq!(proxy_to_use(" \t"), None);
    assert_eq!(proxy_to_use(" socks5://h:1 ").as_deref(), Some(" socks5://h:1 "));
}

#[test]
fn direct_link_description() {
    let info = direct_link_info("https://e.com/x/tool.msi?v=2");
    assert_eq!(info.id, "direct_link");
    assert_eq!(info.title, "tool.msi");
    assert_eq!(info.thumbnail, "");
    assert!(info.formats.is_empty());
    assert!(info.playlist_entries.is_none());
}

#[test]
fn finished_ranged_download_checks_sizes() {
    let ok = finish_download(false, 100, 100, Some(100));
    assert_eq!(ok.result, Ok(100));
    assert!(ok.remove_state_file && !ok.remove_file);
    let bad = finish_download(false, 100, 90, Some(100));
    assert_eq!(bad.result, Err("数据不完整或文件系统写入失败，已被安全销毁".to_string()));
    assert!(bad.remove_file && !bad.remove_state_file);
    let bad_len = finish_download(false, 100, 100, Some(99));
    assert!(bad_len.result.is_err());
    let unknown = finish_download(false, 100, 100, None);
    assert_eq!(unknown.result, Err("无法验证最终文件的完整性".to_string()));
    assert!(!unknown.remove_file && !unknown.remove_state_file);
}

#[test]
fn finished_stream_needs_some_bytes() {
    let ok = finish_download(true, 0, 42, None);
    assert_eq!(ok.result, Ok(42));
    assert!(!ok.remove_file && !ok.remove_state_file);
    let empty = finish_download(true, 0, 0, Some(0));
    assert_eq!(empty.result, Err("下载失败: 链接已失效、服务器断开连接或任务被取消".to_string()));
    assert!(empty.remove_file);
}

#[test]
fn request_headers_from_json() {
    let h = request_headers(&s("{\"User-Agent\":\"UA\\r\\n\"}")).unwrap();
    assert_eq!(h, vec![("User-Agent".to_string(), "UA".to_string())]);
    assert_eq!(request_headers(&None), None);
    assert_eq!(request_headers(&s("[1,2]")), None);
    let mut two = request_headers(&s("{\"a\":\"1\",\"b\":\"2\\n3\"}")).unwrap();
    two.sort();
    assert_eq!(two, vec![("a".to_string(), "1".to_string()), ("b".to_string(), "23".to_string())]);
}
