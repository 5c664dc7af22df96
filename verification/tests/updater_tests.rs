use dl_omni::updater::{
    api_error, ffmpeg_asset_url, local_version, should_release_bundled, temp_file_name,
    ytdlp_update_plan, EngineUpdate, GithubAsset, GithubRelease,
};

fn release(tag: &str, names: &[&str]) -> GithubRelease {
    GithubRelease {
        tag_name: tag.to_string(),
        assets: names
            .iter()
            .map(|n| GithubAsset { name: n.to_string(), browser_download_url: format!("https://dl/{}", n) })
            .collect(),
    }
}

#[test]
fn local_version_is_trimmed_output() {
    assert_eq!(local_version(true, b"2024.08.06\n"), "2024.08.06");
    assert_eq!(local_version(false, b"2024.08.06\n"), "");
    assert_eq!(local_version(true, b"  \n"), "");
}

#[test]
fn current_version_is_not_fetched_again() {
    let r = ytdlp_update_plan("2024.08.06", &release("2024.08.06", &["yt-dlp"]), "yt-dlp");
    match r {
        Ok(EngineUpdate::UpToDate { version }) => assert_eq!(version, "2024.08.06"),
        _ => panic!("expected up to date"),
    }
}

#[test]
fn missing_or_old_version_fetches_the_platform_file() {
    let rel = release("2024.09.01", &["yt-dlp.exe", "yt-dlp_macos", "yt-dlp", "yt-dlp"]);
    match ytdlp_update_plan("2024.08.06", &rel, "yt-dlp") {
        Ok(EngineUpdate::Fetch { url, version }) => {
            assert_eq!(url, "https://dl/yt-dlp");
            assert_eq!(version, "2024.09.01");
        }
        _ => panic!("expected a fetch"),
    }
    match ytdlp_update_plan("", &release("2024.08.06", &["yt-dlp.exe"]), "yt-dlp.exe") {
        Ok(EngineUpdate::Fetch { url, .. }) => assert_eq!(url, "https://dl/yt-dlp.exe"),
        _ => panic!("expected a fetch"),
    }
}

#[test]
fn release_without_the_file_is_an_error() {
    let r = ytdlp_update_plan("old", &release("new", &["yt-dlp.tar.gz"]), "yt-dlp");
    match r {
        Err(m) => assert_eq!(m, "No matching binary found in the latest release"),
        _ => panic!("expected an error"),
    }
}

#[test]
fn ffmpeg_asset_skips_archives() {
    let rel = release(
        "b6.0",
        &["ffmpeg-linux-x64.gz", "ffmpeg-linux-x64.zip", "ffmpeg-linux-x64", "ffmpeg-linux-x64.README"],
    );
    assert_eq!(ffmpeg_asset_url(&rel, "ffmpeg-linux-x64"), Ok("https://dl/ffmpeg-linux-x64".to_string()));
}

#[test]
fn ffmpeg_asset_missing_names_the_target() {
    let rel = release("b6.0", &["ffmpeg-darwin-x64.gz"]);
    assert_eq!(
        ffmpeg_asset_url(&rel, "ffmpeg-darwin-x64"),
        Err("No matching raw ffmpeg binary 'ffmpeg-darwin-x64' found. (Please consider using Tauri Sidecar for ffmpeg)"
            .to_string())
    );
}

#[test]
fn api_error_text() {
    assert_eq!(api_error("403 Forbidden", "rate limited"), "请求 GitHub API 失败 (HTTP 403 Forbidden): rate limited");
}

#[test]
fn temporary_name() {
    assert_eq!(temp_file_name("yt-dlp.exe"), "yt-dlp.exe.tmp");
}

#[test]
fn bundled_binaries_are_released_only_when_missing() {
    assert!(should_release_bundled(false, true));
    assert!(!should_release_bundled(true, true));
    assert!(!should_release_bundled(false, false));
}
