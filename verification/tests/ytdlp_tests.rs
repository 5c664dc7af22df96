use dl_omni::models::{Config, Task};
use dl_omni::ytdlp::{
    destination_from_line, download_args, download_args_with_headers, eta_text_in_line,
    format_selector_for, media_info_args, media_info_from_metadata, media_info_from_output,
    parse_eta, parse_u64, progress_captures,
    settle_total_bytes, size_unit_multiplier, try_parse_eta, RawMediaMetadata, RawPlaylistEntry,
};

fn config() -> Config {
    Config {
        default_download_path: "/dl".to_string(),
        max_concurrent_tasks: 3,
        max_threads_per_task: 8,
        proxy_url: String::new(),
        theme: "system".to_string(),
        yt_dlp_version: None,
        split_audio_video: false,
        video_quality: "best".to_string(),
        audio_quality: "best".to_string(),
        use_cookie: false,
        include_metadata: false,
        naming_template: String::new(),
        sniff_blacklist: String::new(),
    }
}

fn task(format_id: &str, playlist: Option<&str>, headers: Option<&str>) -> Task {
    Task::new(
        "t1".to_string(),
        "https://v.example/watch".to_string(),
        "Title".to_string(),
        None,
        format_id.to_string(),
        playlist.map(|s| s.to_string()),
        headers.map(|s| s.to_string()),
        0,
    )
}

fn chars(s: &str) -> Vec<char> {
    s.chars().collect()
}

#[test]
fn parse_u64_like_std() {
    assert_eq!(parse_u64(&chars("1234")), Some(1234));
    assert_eq!(parse_u64(&chars("+7")), Some(7));
    assert_eq!(parse_u64(&chars("")), None);
    assert_eq!(parse_u64(&chars("+")), None);
    assert_eq!(parse_u64(&chars("12a")), None);
    assert_eq!(parse_u64(&chars("18446744073709551615")), Some(u64::MAX));
    assert_eq!(parse_u64(&chars("18446744073709551616")), None);
}

#[test]
fn eta_hours_minutes_seconds() {
    assert_eq!(parse_eta("01:02:03"), 3723);
    assert_eq!(parse_eta("05:30"), 330);
    assert_eq!(parse_eta("42"), 42);
}

#[test]
fn eta_skips_pieces_that_are_not_numbers() {
    assert_eq!(parse_eta("ab:10"), 10);
    assert_eq!(parse_eta("2:xx:10"), 130);
    assert_eq!(parse_eta(""), 0);
    assert_eq!(parse_eta("Unknown"), 0);
}

#[test]
fn eta_that_would_overflow_is_refused() {
    assert_eq!(try_parse_eta("01:00"), Some(60));
    assert_eq!(try_parse_eta("0:0:0:0:0:0:0:0:0:0:0:0"), None);
    assert_eq!(try_parse_eta("99999999999999999999"), Some(0));
}

#[test]
fn size_units() {
    assert_eq!(size_unit_multiplier("GiB"), 1073741824);
    assert_eq!(size_unit_multiplier("MiB/s"), 1048576);
    assert_eq!(size_unit_multiplier("KiB"), 1024);
    assert_eq!(size_unit_multiplier("B"), 1);
}

#[test]
fn format_selector_split_mode() {
    assert_eq!(format_selector_for("137+140", true), "137,140");
    assert_eq!(format_selector_for("137", true), "137,bestaudio");
    assert_eq!(format_selector_for("137,140", true), "137,140");
    assert_eq!(format_selector_for("best", true), "best");
}

#[test]
fn format_selector_merge_mode() {
    assert_eq!(format_selector_for("137,140", false), "137+140");
    assert_eq!(format_selector_for("137", false), "137+bestaudio");
    assert_eq!(format_selector_for("137+140", false), "137+140");
    assert_eq!(format_selector_for("best", false), "best");
}

#[test]
fn metadata_query_arguments() {
    let mut c = config();
    assert_eq!(
        media_info_args("https://u", &c, &None),
        vec!["--dump-single-json", "--flat-playlist", "--no-warnings", "--ignore-no-formats-error", "https://u"]
    );
    c.use_cookie = true;
    c.proxy_url = "http://127.0.0.1:7890".to_string();
    assert_eq!(
        media_info_args("https://u", &c, &Some("/data/cookies.txt".to_string())),
        vec![
            "--dump-single-json",
            "--flat-playlist",
            "--no-warnings",
            "--ignore-no-formats-error",
            "https://u",
            "--cookies",
            "/data/cookies.txt",
            "--proxy",
            "http://127.0.0.1:7890"
        ]
    );
}

#[test]
fn blank_proxy_is_not_passed() {
    let mut c = config();
    c.proxy_url = "   ".to_string();
    assert_eq!(media_info_args("u", &c, &None).len(), 5);
}

#[test]
fn download_arguments_merged() {
    let c = config();
    let t = task("137", None, None);
    assert_eq!(
        download_args_with_headers(&c, &t, "/bin/ffmpeg", &None, &None),
        vec![
            "-f",
            "137+bestaudio",
            "--merge-output-format",
            "mp4",
            "--ffmpeg-location",
            "/bin/ffmpeg",
            "--no-playlist",
            "-P",
            "/dl",
            "--concurrent-fragments",
            "8",
            "--newline",
            "--no-colors",
            "https://v.example/watch"
        ]
    );
}

#[test]
fn download_arguments_split_with_metadata_and_playlist() {
    let mut c = config();
    c.split_audio_video = true;
    c.include_metadata = true;
    c.max_threads_per_task = 0;
    let t = task("137+140", Some("1-3"), None);
    assert_eq!(
        download_args_with_headers(&c, &t, "/bin/ffmpeg", &None, &None),
        vec![
            "-f",
            "137,140",
            "--yes-playlist",
            "--playlist-items",
            "1-3",
            "-o",
            "/dl/%(title)s/%(title)s.%(ext)s",
            "--write-thumbnail",
            "--write-info-json",
            "--write-description",
            "--write-subs",
            "--write-auto-subs",
            "--embed-metadata",
            "--embed-thumbnail",
            "--concurrent-fragments",
            "1",
            "--newline",
            "--no-colors",
            "https://v.example/watch"
        ]
    );
}

#[test]
fn empty_playlist_selection_means_no_playlist() {
    let c = config();
    let t = task("best", Some(""), None);
    let args = download_args_with_headers(&c, &t, "f", &None, &None);
    assert!(args.contains(&"--no-playlist".to_string()));
    assert!(!args.contains(&"--yes-playlist".to_string()));
}

#[test]
fn header_values_lose_line_breaks() {
    let c = config();
    let t = task("best", None, None);
    let headers = Some(vec![("Cookie".to_string(), "a=1;\r\n b=2\n".to_string())]);
    let args = download_args_with_headers(&c, &t, "f", &None, &headers);
    let i = args.iter().position(|a| a == "--add-header").unwrap();
    assert_eq!(args[i + 1], "Cookie: a=1; b=2");
}

#[test]
fn task_headers_are_read_from_json() {
    let c = config();
    let t = task("best", None, Some("{\"Referer\":\"https://r\\n\"}"));
    let args = download_args(&c, &t, "f", &None);
    let i = args.iter().position(|a| a == "--add-header").unwrap();
    assert_eq!(args[i + 1], "Referer: https://r");
    let bad = task("best", None, Some("not json"));
    let args = download_args(&c, &bad, "f", &None);
    assert!(!args.contains(&"--add-header".to_string()));
}

#[test]
fn metadata_fills_defaults() {
    let raw = RawMediaMetadata { id: None, title: None, thumbnail: None, entries: None };
    let info = media_info_from_metadata(&raw);
    assert_eq!(info.id, "");
    assert_eq!(info.title, "Unknown Title");
    assert_eq!(info.thumbnail, "");
    assert!(info.formats.is_empty());
    assert!(info.playlist_entries.is_none());
}

#[test]
fn playlist_entries_pick_the_first_title_field() {
    let e1 = RawPlaylistEntry {
        title: None,
        fulltitle: Some("Full".to_string()),
        name: Some("Name".to_string()),
        id: Some("id1".to_string()),
        url: Some("https://e/1".to_string()),
        playlist_index: None,
    };
    let e2 = RawPlaylistEntry {
        title: None,
        fulltitle: None,
        name: None,
        id: None,
        url: None,
        playlist_index: Some(9),
    };
    let raw = RawMediaMetadata {
        id: Some("pl".to_string()),
        title: Some("List".to_string()),
        thumbnail: Some("th".to_string()),
        entries: Some(vec![e1, e2]),
    };
    let info = media_info_from_metadata(&raw);
    let entries = info.playlist_entries.unwrap();
    assert_eq!(entries.len(), 2);
    assert_eq!(entries[0].title, "Full");
    assert_eq!(entries[0].playlist_index, Some(1));
    assert_eq!(entries[0].url.as_deref(), Some("https://e/1"));
    assert_eq!(entries[1].title, "Unknown");
    assert_eq!(entries[1].playlist_index, Some(9));
    assert_eq!(info.title, "List");
}

#[test]
fn destination_lines() {
    assert_eq!(
        destination_from_line("[Merger] Merging formats into \"/dl/v.mp4\"", None).as_deref(),
        Some("/dl/v.mp4")
    );
    assert_eq!(
        destination_from_line("[download] Destination: /dl/v.f137.mp4", None).as_deref(),
        Some("/dl/v.f137.mp4")
    );
    assert_eq!(
        destination_from_line("[download] /dl/old.mp4 has already been downloaded", None).as_deref(),
        Some("/dl/old.mp4")
    );
    assert_eq!(
        destination_from_line("[download]  12.5% of 10.00MiB", Some("/keep".to_string())).as_deref(),
        Some("/keep")
    );
}

#[test]
fn eta_text_of_progress_lines() {
    assert_eq!(
        eta_text_in_line("[download]  50.0% of 10.00MiB at 1.00MiB/s ETA 00:05").as_deref(),
        Some("00:05")
    );
    assert_eq!(eta_text_in_line("[download] Destination: x"), None);
}

#[test]
fn settled_size_prefers_the_file() {
    assert_eq!(settle_total_bytes(100, Some(250)), 250);
    assert_eq!(settle_total_bytes(100, Some(0)), 100);
    assert_eq!(settle_total_bytes(100, None), 100);
}

#[test]
fn failed_metadata_run_reports_yt_dlp_error() {
    let r = media_info_from_output(false, b"{}", b"ERROR: Unsupported URL");
    assert_eq!(r.err().as_deref(), Some("yt-dlp error: ERROR: Unsupported URL"));
}

#[test]
fn metadata_run_output_is_read() {
    let out = br#"{"id":"abc","title":"Clip","duration":12.5,"thumbnail":"t.jpg","entries":[{"title":"One","url":"u1","id":"i1"},{"fulltitle":"Two","playlist_index":7}]}"#;
    let info = media_info_from_output(true, out, b"").unwrap();
    assert_eq!(info.id, "abc");
    assert_eq!(info.title, "Clip");
    assert_eq!(info.thumbnail, "t.jpg");
    let entries = info.playlist_entries.unwrap();
    assert_eq!(entries.len(), 2);
    assert_eq!(entries[0].title, "One");
    assert_eq!(entries[0].playlist_index, Some(1));
    assert_eq!(entries[0].id.as_deref(), Some("i1"));
    assert_eq!(entries[1].title, "Two");
    assert_eq!(entries[1].playlist_index, Some(7));
}

#[test]
fn metadata_fields_of_the_wrong_type_are_absent() {
    let info = media_info_from_output(true, br#"{"id":5,"title":null,"entries":"x"}"#, b"").unwrap();
    assert_eq!(info.id, "");
    assert_eq!(info.title, "Unknown Title");
    assert!(info.playlist_entries.is_none());
}

#[test]
fn metadata_run_that_is_not_json_is_an_error() {
    let r = media_info_from_output(true, b"not json", b"");
    assert!(r.is_err());
    assert!(!r.err().unwrap().is_empty());
}

#[test]
fn progress_line_figures() {
    let c = progress_captures("[download]  42.5% of ~10.00MiB at  1.50MiB/s ETA 00:07");
    assert_eq!(c.percent.as_deref(), Some("42.5"));
    assert!(c.fragment.is_none());
    assert_eq!(c.size, Some(("10.00".to_string(), "MiB".to_string())));
    assert_eq!(c.speed, Some(("1.50".to_string(), "MiB/s".to_string())));
    assert_eq!(c.eta.as_deref(), Some("00:07"));
}

#[test]
fn fragment_count_without_percentage() {
    let c = progress_captures("[download] Frag 3/12 at 2.00KiB/s");
    assert!(c.percent.is_none());
    assert_eq!(c.fragment, Some(("3".to_string(), "12".to_string())));
    assert_eq!(c.speed, Some(("2.00".to_string(), "KiB/s".to_string())));
    assert!(c.size.is_none());
    let both = progress_captures("[download]  10.0% Frag 1/4");
    assert_eq!(both.percent.as_deref(), Some("10.0"));
    assert!(both.fragment.is_none());
}
