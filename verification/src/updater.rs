//! The engine updater's decisions: whether the installed yt-dlp is current,
//! which release asset to fetch for yt-dlp and for ffmpeg, and the names
//! and messages around them.

use vstd::prelude::*;
use crate::text::{
    utf8_lossy, utf8_lossy_text, chars_of, concat_chars, contains_chars, contains_seq, ends_with_chars, ends_with_seq, str_eq,
    string_from_chars, trim, trim_seq,
};

verus! {

/// One downloadable file of a release.
#[derive(Debug, Clone)]
pub struct GithubAsset {
    pub name: String,
    pub browser_download_url: String,
}

/// The latest release of a project: its tag and its files.
#[derive(Debug, Clone)]
pub struct GithubRelease {
    pub tag_name: String,
    pub assets: Vec<GithubAsset>,
}

/// The installed yt-dlp's version: what `yt-dlp --version` printed, trimmed,
/// where it ran successfully; empty otherwise.
pub fn local_version(succeeded: bool, stdout: &[u8]) -> (r: String)
    ensures
        r@ == (if succeeded {
            trim_seq(utf8_lossy_text(stdout@))
        } else {
            Seq::<char>::empty()
        }),
{
    if succeeded {
        let text = utf8_lossy(stdout);
        trim(text.as_str())
    } else {
        String::new()
    }
}

/// The names of some assets.
pub open spec fn asset_names(assets: Seq<GithubAsset>) -> Seq<Seq<char>> {
    assets.map_values(|a: GithubAsset| a.name@)
}

/// `i` is the first position whose name satisfies `matches`.
pub open spec fn first_match(names: Seq<Seq<char>>, matches: spec_fn(Seq<char>) -> bool, i: int) -> bool {
    &&& 0 <= i < names.len()
    &&& matches(names[i])
    &&& forall|j: int| 0 <= j < i ==> !matches(#[trigger] names[j])
}

/// Some name satisfies `matches`.
pub open spec fn any_match(names: Seq<Seq<char>>, matches: spec_fn(Seq<char>) -> bool) -> bool {
    exists|j: int| 0 <= j < names.len() && #[trigger] matches(names[j])
}

/// The yt-dlp asset for this platform: the one named exactly as its file.
pub open spec fn is_ytdlp_asset(target: Seq<char>) -> spec_fn(Seq<char>) -> bool {
    |name: Seq<char>| name == target
}

/// The ffmpeg asset for this platform: a raw binary whose name holds the
/// platform's asset name and that is no `.zip` or `.gz` archive.
pub open spec fn is_ffmpeg_asset(target: Seq<char>) -> spec_fn(Seq<char>) -> bool {
    |name: Seq<char>|
        contains_seq(name, target) && !ends_with_seq(name, ".zip"@) && !ends_with_seq(
            name,
            ".gz"@,
        )
}

/// What to do about the installed yt-dlp.
pub enum EngineUpdate {
    /// The installed version is the latest one.
    UpToDate { version: String },
    /// Fetch this file, the given version.
    Fetch { url: String, version: String },
}

/// The error where the release has no yt-dlp file for this platform.
pub open spec fn no_binary_message() -> Seq<char> {
    "No matching binary found in the latest release"@
}

/// The position of the first asset whose name passes the test, or the
/// number of assets where none does.
fn first_asset(
    assets: &Vec<GithubAsset>,
    target: &str,
    raw_ffmpeg: bool,
) -> (i: usize)
    ensures
        i <= assets@.len(),
        i < assets@.len() ==> first_match(
            asset_names(assets@),
            if raw_ffmpeg {
                is_ffmpeg_asset(target@)
            } else {
                is_ytdlp_asset(target@)
            },
            i as int,
        ),
        i == assets@.len() ==> !any_match(
            asset_names(assets@),
            if raw_ffmpeg {
                is_ffmpeg_asset(target@)
            } else {
                is_ytdlp_asset(target@)
            },
        ),
{
    let ghost names = asset_names(assets@);
    let ghost test = if raw_ffmpeg {
        is_ffmpeg_asset(target@)
    } else {
        is_ytdlp_asset(target@)
    };
    let t = chars_of(target);
    let zip = chars_of(".zip");
    let gz = chars_of(".gz");
    let mut i: usize = 0;
    while i < assets.len()
        invariant
            i <= assets@.len(),
            names == asset_names(assets@),
            test == (if raw_ffmpeg {
                is_ffmpeg_asset(target@)
            } else {
                is_ytdlp_asset(target@)
            }),
            t@ == target@,
            zip@ == ".zip"@,
            gz@ == ".gz"@,
            forall|j: int| 0 <= j < i ==> !test(#[trigger] names[j]),
        decreases assets@.len() - i,
    {
        let name = &assets[i].name;
        assert(names[i as int] == name@);
        let hit = if raw_ffmpeg {
            let n = chars_of(name.as_str());
            contains_chars(n.as_slice(), t.as_slice()) && !ends_with_chars(n.as_slice(), zip.as_slice())
                && !ends_with_chars(n.as_slice(), gz.as_slice())
        } else {
            str_eq(name.as_str(), target)
        };
        if hit {
            return i;
        }
        i = i + 1;
    }
    i
}

/// Decides about the installed yt-dlp: up to date where a version is
/// installed and it is the release's tag; otherwise fetch the first asset
/// named exactly as the platform's yt-dlp file, an error where there is
/// none.
pub fn ytdlp_update_plan(local_version: &str, release: &GithubRelease, target_filename: &str) -> (r:
    Result<EngineUpdate, String>)
    ensures
        local_version@.len() > 0 && local_version@ == release.tag_name@ ==> (r matches Ok(
            EngineUpdate::UpToDate { version },
        ) && version@ == release.tag_name@),
        !(local_version@.len() > 0 && local_version@ == release.tag_name@) ==> match r {
            Ok(EngineUpdate::Fetch { url, version }) => version@ == release.tag_name@ && exists|
                i: int,
            |
                first_match(
                    asset_names(release.assets@),
                    is_ytdlp_asset(target_filename@),
                    i,
                ) && url@ == release.assets@[i].browser_download_url@,
            Ok(EngineUpdate::UpToDate { .. }) => false,
            Err(msg) => msg@ == no_binary_message() && !any_match(
                asset_names(release.assets@),
                is_ytdlp_asset(target_filename@),
            ),
        },
{
    let local = chars_of(local_version);
    if local.len() > 0 && str_eq(local_version, release.tag_name.as_str()) {
        return Ok(EngineUpdate::UpToDate { version: release.tag_name.clone() });
    }
    let i = first_asset(&release.assets, target_filename, false);
    if i < release.assets.len() {
        Ok(
            EngineUpdate::Fetch {
                url: release.assets[i].browser_download_url.clone(),
                version: release.tag_name.clone(),
            },
        )
    } else {
        Err(String::from_str("No matching binary found in the latest release"))
    }
}

/// The error where the release has no raw ffmpeg binary for this platform.
pub open spec fn no_ffmpeg_message(target: Seq<char>) -> Seq<char> {
    "No matching raw ffmpeg binary '"@ + target
        + "' found. (Please consider using Tauri Sidecar for ffmpeg)"@
}

/// The address of the ffmpeg binary to fetch: the first asset whose name
/// holds the platform's asset name and is no `.zip` or `.gz` archive; an
/// error naming the asset name where there is none.
pub fn ffmpeg_asset_url(release: &GithubRelease, target_asset_name: &str) -> (r: Result<
    String,
    String,
>)
    ensures
        match r {
            Ok(url) => exists|i: int|
                first_match(asset_names(release.assets@), is_ffmpeg_asset(target_asset_name@), i)
                    && url@ == release.assets@[i].browser_download_url@,
            Err(msg) => msg@ == no_ffmpeg_message(target_asset_name@) && !any_match(
                asset_names(release.assets@),
                is_ffmpeg_asset(target_asset_name@),
            ),
        },
{
    let i = first_asset(&release.assets, target_asset_name, true);
    if i < release.assets.len() {
        Ok(release.assets[i].browser_download_url.clone())
    } else {
        let a = chars_of("No matching raw ffmpeg binary '");
        let b = chars_of(target_asset_name);
        let c = chars_of("' found. (Please consider using Tauri Sidecar for ffmpeg)");
        let ab = concat_chars(a.as_slice(), b.as_slice());
        let abc = concat_chars(ab.as_slice(), c.as_slice());
        Err(string_from_chars(abc.as_slice()))
    }
}

/// The error of a release query that the server refused.
pub open spec fn api_error_message(status: Seq<char>, body: Seq<char>) -> Seq<char> {
    "请求 GitHub API 失败 (HTTP "@ + status + "): "@ + body
}

/// The error of a release query answered with a failure status (`status`
/// as it prints) and the answer's text.
pub fn api_error(status: &str, body: &str) -> (r: String)
    ensures
        r@ == api_error_message(status@, body@),
{
    let a = chars_of("请求 GitHub API 失败 (HTTP ");
    let b = chars_of(status);
    let c = chars_of("): ");
    let d = chars_of(body);
    let ab = concat_chars(a.as_slice(), b.as_slice());
    let abc = concat_chars(ab.as_slice(), c.as_slice());
    let abcd = concat_chars(abc.as_slice(), d.as_slice());
    string_from_chars(abcd.as_slice())
}

/// The name a new binary is written under before it replaces the old one.
pub fn temp_file_name(file_name: &str) -> (r: String)
    ensures
        r@ == file_name@ + ".tmp"@,
{
    let a = chars_of(file_name);
    let b = chars_of(".tmp");
    let ab = concat_chars(a.as_slice(), b.as_slice());
    string_from_chars(ab.as_slice())
}

/// A bundled binary is copied to the working directory only where the
/// working copy is missing and the bundle holds one.
pub fn should_release_bundled(working_copy_exists: bool, bundled_exists: bool) -> (r: bool)
    ensures
        r == (!working_copy_exists && bundled_exists),
{
    !working_copy_exists && bundled_exists
}

/// The yt-dlp file fetched is the first asset named exactly as the
/// platform's file; the ffmpeg binary fetched is the first asset whose name
/// holds the platform's asset name and ends in neither `.zip` nor `.gz`.
pub proof fn lemma_chosen_assets(names: Seq<Seq<char>>, target: Seq<char>, i: int)
    ensures
        first_match(names, is_ytdlp_asset(target), i) ==> names[i] == target && forall|j: int|
            0 <= j < i ==> names[j] != target,
        first_match(names, is_ffmpeg_asset(target), i) ==> contains_seq(names[i], target)
            && !ends_with_seq(names[i], ".zip"@) && !ends_with_seq(names[i], ".gz"@) && forall|
            j: int,
        |
            0 <= j < i ==> !(contains_seq(names[j], target) && !ends_with_seq(names[j], ".zip"@)
                && !ends_with_seq(names[j], ".gz"@)),
{
    if first_match(names, is_ytdlp_asset(target), i) {
        assert forall|j: int| 0 <= j < i implies names[j] != target by {
            assert(!is_ytdlp_asset(target)(names[j]));
        }
    }
    if first_match(names, is_ffmpeg_asset(target), i) {
        assert forall|j: int|
            0 <= j < i implies !(contains_seq(names[j], target) && !ends_with_seq(names[j], ".zip"@)
            && !ends_with_seq(names[j], ".gz"@)) by {
            assert(!is_ffmpeg_asset(target)(names[j]));
        }
    }
}

} // verus!
