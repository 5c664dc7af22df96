use dl_omni::utils::{
    check_disk_space, extract_filename_from_url, get_ffmpeg_asset_name, get_ffmpeg_filename,
    get_ytdlp_filename, has_direct_extension, is_direct_link, sanitize_filename, TargetArch,
    TargetOs,
};
use std::path::PathBuf;

#[test]
fn ytdlp_file_names_per_platform() {
    assert_eq!(get_ytdlp_filename(TargetOs::Windows), "yt-dlp.exe");
    assert_eq!(get_ytdlp_filename(TargetOs::MacOs), "yt-dlp_macos");
    assert_eq!(get_ytdlp_filename(TargetOs::Linux), "yt-dlp");
}

#[test]
fn ffmpeg_file_names_per_platform() {
    assert_eq!(get_ffmpeg_filename(TargetOs::Windows), "ffmpeg.exe");
    assert_eq!(get_ffmpeg_filename(TargetOs::MacOs), "ffmpeg");
    assert_eq!(get_ffmpeg_filename(TargetOs::Linux), "ffmpeg");
}

#[test]
fn ffmpeg_asset_names_per_platform() {
    assert_eq!(get_ffmpeg_asset_name(TargetOs::Windows, TargetArch::Other), "ffmpeg-win32-x64");
    assert_eq!(get_ffmpeg_asset_name(TargetOs::Windows, TargetArch::Aarch64), "ffmpeg-win32-x64");
    assert_eq!(get_ffmpeg_asset_name(TargetOs::MacOs, TargetArch::Aarch64), "ffmpeg-darwin-arm64");
    assert_eq!(get_ffmpeg_asset_name(TargetOs::MacOs, TargetArch::Other), "ffmpeg-darwin-x64");
    assert_eq!(get_ffmpeg_asset_name(TargetOs::Linux, TargetArch::Aarch64), "ffmpeg-linux-arm64");
    assert_eq!(get_ffmpeg_asset_name(TargetOs::Linux, TargetArch::Other), "ffmpeg-linux-x64");
}

#[test]
fn disk_space_check_compares_free_and_required() {
    assert_eq!(check_disk_space(&PathBuf::from("/"), 100, 100), Ok(true));
    assert_eq!(check_disk_space(&PathBuf::from("/"), 100, 5000), Ok(true));
    assert_eq!(check_disk_space(&PathBuf::from("/"), 101, 100), Ok(false));
    assert_eq!(check_disk_space(&PathBuf::from("/"), u64::MAX, 0), Ok(false));
}

#[test]
fn sanitize_replaces_each_forbidden_character() {
    assert_eq!(sanitize_filename("a\\b/c:d*e?f\"g<h>i|j"), "a_b_c_d_e_f_g_h_i_j");
    assert_eq!(sanitize_filename("plain name.mp4"), "plain name.mp4");
    assert_eq!(sanitize_filename("视频: 第1集?"), "视频_ 第1集_");
}

#[test]
fn sanitize_twice_changes_nothing() {
    let once = sanitize_filename("x<y>z|w");
    assert_eq!(sanitize_filename(&once), once);
}

#[test]
fn file_name_from_url_drops_the_query() {
    assert_eq!(extract_filename_from_url("https://example.com/a/b/file.zip?token=1/2"), "file.zip");
    assert_eq!(extract_filename_from_url("https://example.com/dl/setup.exe"), "setup.exe");
}

#[test]
fn file_name_from_url_falls_back_when_empty() {
    assert_eq!(extract_filename_from_url("https://example.com/dir/"), "unknown_file");
    assert_eq!(extract_filename_from_url(""), "unknown_file");
    assert_eq!(extract_filename_from_url("?only=query"), "unknown_file");
}

#[test]
fn file_name_from_url_is_cleaned() {
    assert_eq!(extract_filename_from_url("https://e.com/a:b*c.txt"), "a_b_c.txt");
}

#[test]
fn direct_links_by_extension() {
    assert!(is_direct_link("https://example.com/files/Setup.EXE"));
    assert!(is_direct_link("https://example.com/a.tar?x=1"));
    assert!(is_direct_link("https://example.com/movie.mkv"));
    assert!(!is_direct_link("https://example.com/watch?v=abc.mp4"));
    assert!(!is_direct_link("https://example.com/stream.m3u8"));
    assert!(!is_direct_link("https://www.youtube.com/watch?v=x"));
}

#[test]
fn direct_extension_of_lowered_text() {
    assert!(has_direct_extension("a.7z"));
    assert!(has_direct_extension(".gz"));
    assert!(!has_direct_extension("a.ZIP"));
    assert!(!has_direct_extension(""));
}
