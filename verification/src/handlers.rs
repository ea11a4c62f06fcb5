use vstd::prelude::*;

use crate::handler::{
    regex_first_match, TIKTOK_PATTERN, TWITTER_PATTERN, YOUTUBE_PATTERN,
};

verus! {

/// The pattern the Instagram handler recognizes: posts, reels and tv.
pub const INSTAGRAM_SHORTCODE_PATTERN: &'static str =
    r"https?://(?:www\.)?(?:instagram\.com|instagr\.am)/(?:p|reel|tv)/([A-Za-z0-9_-]+)";

/// Handler for Instagram posts, reels and tv.
#[derive(Debug, Clone, Default)]
pub struct InstagramHandler;

impl InstagramHandler {
    pub fn new() -> (r: Self) {
        InstagramHandler
    }

    /// Short name used for diagnostics.
    pub fn name(&self) -> (r: &str)
        ensures
            r@ == "instagram"@,
    {
        "instagram"
    }

    /// The URL this handler would act on in `text`, when there is one.
    pub fn try_extract(&self, text: &str) -> (r: Option<String>)
        ensures
            r matches Some(m) ==> regex_first_match(INSTAGRAM_SHORTCODE_PATTERN@, text@) == Some(
                m@,
            ),
            r is None ==> regex_first_match(INSTAGRAM_SHORTCODE_PATTERN@, text@) is None,
    {
        crate::handler::regex_find_first(INSTAGRAM_SHORTCODE_PATTERN, text)
    }
}

/// Handler for YouTube Shorts links.
#[derive(Debug, Clone, Default)]
pub struct YouTubeShortsHandler;

impl YouTubeShortsHandler {
    pub fn new() -> (r: Self) {
        YouTubeShortsHandler
    }

    /// Short name used for diagnostics.
    pub fn name(&self) -> (r: &str)
        ensures
            r@ == "youtube"@,
    {
        "youtube"
    }

    /// The URL this handler would act on in `text`, when there is one.
    pub fn try_extract(&self, text: &str) -> (r: Option<String>)
        ensures
            r matches Some(m) ==> regex_first_match(YOUTUBE_PATTERN@, text@) == Some(m@),
            r is None ==> regex_first_match(YOUTUBE_PATTERN@, text@) is None,
    {
        crate::handler::regex_find_first(YOUTUBE_PATTERN, text)
    }
}

/// Handler for Twitter status links.
#[derive(Debug, Clone, Default)]
pub struct TwitterHandler;

impl TwitterHandler {
    pub fn new() -> (r: Self) {
        TwitterHandler
    }

    /// Short name used for diagnostics.
    pub fn name(&self) -> (r: &str)
        ensures
            r@ == "twitter"@,
    {
        "twitter"
    }

    /// The URL this handler would act on in `text`, when there is one.
    pub fn try_extract(&self, text: &str) -> (r: Option<String>)
        ensures
            r matches Some(m) ==> regex_first_match(TWITTER_PATTERN@, text@) == Some(m@),
            r is None ==> regex_first_match(TWITTER_PATTERN@, text@) is None,
    {
        crate::handler::regex_find_first(TWITTER_PATTERN, text)
    }
}

/// Handler for TikTok share links.
#[derive(Debug, Clone, Default)]
pub struct TiktokHandler;

impl TiktokHandler {
    pub fn new() -> (r: Self) {
        TiktokHandler
    }

    /// Short name used for diagnostics.
    pub fn name(&self) -> (r: &str)
        ensures
            r@ == "tiktok"@,
    {
        "tiktok"
    }

    /// The URL this handler would act on in `text`, when there is one.
    pub fn try_extract(&self, text: &str) -> (r: Option<String>)
        ensures
            r matches Some(m) ==> regex_first_match(TIKTOK_PATTERN@, text@) == Some(m@),
            r is None ==> regex_first_match(TIKTOK_PATTERN@, text@) is None,
    {
        crate::handler::regex_find_first(TIKTOK_PATTERN, text)
    }
}

} // verus!
