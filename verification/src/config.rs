use vstd::prelude::*;

verus! {

/// Post-processing arguments handed through to the fetch tool unmodified when
/// nothing else is configured.
pub const DEFAULT_POSTPROCESSOR_ARGS: &'static str =
    "ffmpeg:-vf setsar=1 -c:v libx264 -crf 20 -preset veryfast -c:a aac -b:a 128k -movflags +faststart";

/// Per-process configuration, built once at startup and passed by reference
/// into the components that need it.
#[derive(Debug, Clone)]
pub struct Config {
    /// Chat to report failures to, when one is configured.
    pub chat_id: Option<i64>,
    pub youtube: YoutubeConfig,
    pub instagram: InstagramConfig,
    pub tiktok: TiktokConfig,
    pub twitter: TwitterConfig,
}

/// Per-platform fetch configuration: an optional credential/cookie file and
/// the post-processing arguments the tool is asked to apply.
#[derive(Debug, Clone)]
pub struct YoutubeConfig {
    pub cookies_path: Option<String>,
    pub postprocessor_args: String,
}

#[derive(Debug, Clone)]
pub struct InstagramConfig {
    pub cookies_path: Option<String>,
}

#[derive(Debug, Clone)]
pub struct TiktokConfig {
    pub cookies_path: Option<String>,
}

#[derive(Debug, Clone)]
pub struct TwitterConfig {
    pub cookies_path: Option<String>,
}

impl Default for YoutubeConfig {
    fn default() -> (r: Self)
        ensures
            r.cookies_path is None,
            r.postprocessor_args@ == DEFAULT_POSTPROCESSOR_ARGS@,
    {
        YoutubeConfig {
            cookies_path: None,
            postprocessor_args: DEFAULT_POSTPROCESSOR_ARGS.to_owned(),
        }
    }
}

impl Default for InstagramConfig {
    fn default() -> (r: Self)
        ensures
            r.cookies_path is None,
    {
        InstagramConfig { cookies_path: None }
    }
}

impl Default for TiktokConfig {
    fn default() -> (r: Self)
        ensures
            r.cookies_path is None,
    {
        TiktokConfig { cookies_path: None }
    }
}

impl Default for TwitterConfig {
    fn default() -> (r: Self)
        ensures
            r.cookies_path is None,
    {
        TwitterConfig { cookies_path: None }
    }
}

impl Default for Config {
    fn default() -> (r: Self)
        ensures
            r.chat_id is None,
            r.youtube.cookies_path is None,
            r.youtube.postprocessor_args@ == DEFAULT_POSTPROCESSOR_ARGS@,
            r.instagram.cookies_path is None,
            r.tiktok.cookies_path is None,
            r.twitter.cookies_path is None,
    {
        Config {
            chat_id: None,
            youtube: YoutubeConfig {
                cookies_path: None,
                postprocessor_args: DEFAULT_POSTPROCESSOR_ARGS.to_owned(),
            },
            instagram: InstagramConfig { cookies_path: None },
            tiktok: TiktokConfig { cookies_path: None },
            twitter: TwitterConfig { cookies_path: None },
        }
    }
}

} // verus!
