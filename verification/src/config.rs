//! The settings holder: where the settings live and their defaults.

use vstd::prelude::*;
use std::path::PathBuf;
use crate::models::Config;

verus! {

/// The settings of the application and the file they are kept in.
pub struct ConfigManager {
    pub config_path: PathBuf,
    pub settings: Config,
}

/// The settings used where none were saved or the saved ones do not read:
/// downloads go to `download_path`, three tasks at a time, sixteen
/// connections per task, no proxy, the system theme, best video and audio
/// quality merged into one file, no cookies, no metadata files, and empty
/// naming template and sniffer block list.
pub open spec fn is_default_config(c: Config, download_path: Seq<char>) -> bool {
    &&& c.default_download_path@ == download_path
    &&& c.max_concurrent_tasks == 3
    &&& c.max_threads_per_task == 16
    &&& c.proxy_url@ == Seq::<char>::empty()
    &&& c.theme@ == "system"@
    &&& c.yt_dlp_version.is_none()
    &&& !c.split_audio_video
    &&& c.video_quality@ == "best"@
    &&& c.audio_quality@ == "best"@
    &&& !c.use_cookie
    &&& !c.include_metadata
    &&& c.naming_template@ == Seq::<char>::empty()
    &&& c.sniff_blacklist@ == Seq::<char>::empty()
}

/// Settings as read from a file written by any version: each field is
/// `None` where the file lacks it.
#[derive(Debug, Clone)]
pub struct PartialConfig {
    pub default_download_path: Option<String>,
    pub max_concurrent_tasks: Option<u8>,
    pub max_threads_per_task: Option<u8>,
    pub proxy_url: Option<String>,
    pub theme: Option<String>,
    pub yt_dlp_version: Option<String>,
    pub split_audio_video: Option<bool>,
    pub video_quality: Option<String>,
    pub audio_quality: Option<String>,
    pub use_cookie: Option<bool>,
    pub include_metadata: Option<bool>,
    pub naming_template: Option<String>,
    pub sniff_blacklist: Option<String>,
}

/// The text of a saved field, or `default` where the file lacks it.
pub open spec fn saved_or(o: Option<String>, default: Seq<char>) -> Seq<char> {
    match o {
        Some(s) => s@,
        None => default,
    }
}

/// `c` holds each field of `saved` that the file had, and the default
/// value (see `is_default_config`) of each field it lacked.
pub open spec fn is_filled_config(c: Config, saved: PartialConfig, download_path: Seq<char>) -> bool {
    &&& c.default_download_path@ == saved_or(saved.default_download_path, download_path)
    &&& c.max_concurrent_tasks == (match saved.max_concurrent_tasks {
        Some(v) => v,
        None => 3u8,
    })
    &&& c.max_threads_per_task == (match saved.max_threads_per_task {
        Some(v) => v,
        None => 16u8,
    })
    &&& c.proxy_url@ == saved_or(saved.proxy_url, Seq::empty())
    &&& c.theme@ == saved_or(saved.theme, "system"@)
    &&& (match saved.yt_dlp_version {
        Some(v) => c.yt_dlp_version.is_some() && c.yt_dlp_version.unwrap()@ == v@,
        None => c.yt_dlp_version.is_none(),
    })
    &&& c.split_audio_video == (match saved.split_audio_video {
        Some(v) => v,
        None => false,
    })
    &&& c.video_quality@ == saved_or(saved.video_quality, "best"@)
    &&& c.audio_quality@ == saved_or(saved.audio_quality, "best"@)
    &&& c.use_cookie == (match saved.use_cookie {
        Some(v) => v,
        None => false,
    })
    &&& c.include_metadata == (match saved.include_metadata {
        Some(v) => v,
        None => false,
    })
    &&& c.naming_template@ == saved_or(saved.naming_template, Seq::empty())
    &&& c.sniff_blacklist@ == saved_or(saved.sniff_blacklist, Seq::empty())
}

/// Settings read from a file that lacks every field are the defaults.
pub proof fn lemma_nothing_saved_is_default(c: Config, saved: PartialConfig, download_path: Seq<char>)
    requires
        is_filled_config(c, saved, download_path),
        saved.default_download_path.is_none(),
        saved.max_concurrent_tasks.is_none(),
        saved.max_threads_per_task.is_none(),
        saved.proxy_url.is_none(),
        saved.theme.is_none(),
        saved.yt_dlp_version.is_none(),
        saved.split_audio_video.is_none(),
        saved.video_quality.is_none(),
        saved.audio_quality.is_none(),
        saved.use_cookie.is_none(),
        saved.include_metadata.is_none(),
        saved.naming_template.is_none(),
        saved.sniff_blacklist.is_none(),
    ensures
        is_default_config(c, download_path),
{
}

fn or_default(o: Option<String>, default: String) -> (r: String)
    ensures
        r@ == saved_or(o, default@),
{
    match o {
        Some(s) => s,
        None => default,
    }
}

impl ConfigManager {
    /// The file the settings are kept in.
    pub open spec fn path(&self) -> PathBuf {
        self.config_path
    }

    /// The settings held.
    pub open spec fn current(&self) -> Config {
        self.settings
    }

    /// The default settings for a given download folder.
    pub fn default_config(download_path: String) -> (c: Config)
        ensures
            is_default_config(c, download_path@),
    {
        Config {
            default_download_path: download_path,
            max_concurrent_tasks: 3,
            max_threads_per_task: 16,
            proxy_url: String::new(),
            theme: String::from_str("system"),
            yt_dlp_version: None,
            split_audio_video: false,
            video_quality: String::from_str("best"),
            audio_quality: String::from_str("best"),
            use_cookie: false,
            include_metadata: false,
            naming_template: String::new(),
            sniff_blacklist: String::new(),
        }
    }

    /// The settings read from a file, each field missing from the file
    /// taken from the defaults for `download_path`.
    pub fn fill_defaults(saved: PartialConfig, download_path: String) -> (c: Config)
        ensures
            is_filled_config(c, saved, download_path@),
    {
        let d = ConfigManager::default_config(download_path);
        Config {
            default_download_path: or_default(saved.default_download_path, d.default_download_path),
            max_concurrent_tasks: match saved.max_concurrent_tasks {
                Some(v) => v,
                None => d.max_concurrent_tasks,
            },
            max_threads_per_task: match saved.max_threads_per_task {
                Some(v) => v,
                None => d.max_threads_per_task,
            },
            proxy_url: or_default(saved.proxy_url, d.proxy_url),
            theme: or_default(saved.theme, d.theme),
            yt_dlp_version: match saved.yt_dlp_version {
                Some(v) => Some(v),
                None => d.yt_dlp_version,
            },
            split_audio_video: match saved.split_audio_video {
                Some(v) => v,
                None => d.split_audio_video,
            },
            video_quality: or_default(saved.video_quality, d.video_quality),
            audio_quality: or_default(saved.audio_quality, d.audio_quality),
            use_cookie: match saved.use_cookie {
                Some(v) => v,
                None => d.use_cookie,
            },
            include_metadata: match saved.include_metadata {
                Some(v) => v,
                None => d.include_metadata,
            },
            naming_template: or_default(saved.naming_template, d.naming_template),
            sniff_blacklist: or_default(saved.sniff_blacklist, d.sniff_blacklist),
        }
    }

    /// The settings holder for the file at `config_path`: the settings read
    /// from it, each missing field filled from the defaults for
    /// `download_path`, where the file held readable settings; else the
    /// defaults.
    pub fn init(config_path: PathBuf, loaded: Option<PartialConfig>, download_path: String) -> (m:
        ConfigManager)
        ensures
            m.path() == config_path,
            match loaded {
                Some(p) => is_filled_config(m.current(), p, download_path@),
                None => is_default_config(m.current(), download_path@),
            },
    {
        let settings = match loaded {
            Some(p) => ConfigManager::fill_defaults(p, download_path),
            None => ConfigManager::default_config(download_path),
        };
        ConfigManager { config_path, settings }
    }

    /// Replaces the settings; the file they are kept in stays the same.
    pub fn update(&mut self, new_config: Config)
        ensures
            final(self).current() == new_config,
            final(self).path() == old(self).path(),
    {
        self.settings = new_config;
    }

    /// The file the settings are kept in.
    pub fn config_path(&self) -> (p: &PathBuf)
        ensures
            *p == self.path(),
    {
        &self.config_path
    }
}

} // verus!
