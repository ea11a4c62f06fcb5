use vstd::prelude::*;

use crate::error::Error;

verus! {

/// Which platform's fetch profile a handler drives.
#[derive(Debug, Clone, Copy, PartialEq, Eq, Structural)]
pub enum Platform {
    Instagram,
    Youtube,
    Twitter,
    Tiktok,
}

/// The URL-recognition pattern registered for each platform.
pub const INSTAGRAM_PATTERN: &'static str =
    r"https?://(?:www\.)?(?:instagram\.com|instagr\.am)/(?:reel|tv)/([A-Za-z0-9_-]+)";

pub const YOUTUBE_PATTERN: &'static str =
    r"https?:\/\/(?:www\.)?youtube\.com\/shorts\/[A-Za-z0-9_-]+(?:\?[^\s]*)?";

pub const TWITTER_PATTERN: &'static str =
    r"https?://(?:www\.)?twitter\.com/([A-Za-z0-9_]+(?:/[A-Za-z0-9_]+)?)/status/(\d{1,20})";

pub const TIKTOK_PATTERN: &'static str =
    r"https?://(?:www\.)?(?:vm|vt|tt|tik)\.tiktok\.com/([A-Za-z0-9_-]+)[/?#]?";

/// The leftmost substring of `text` that the regular expression `pattern`
/// matches, if any: a function of the two strings alone. An invalid pattern
/// matches nothing.
pub uninterp spec fn regex_first_match(pattern: Seq<char>, text: Seq<char>) -> Option<Seq<char>>;

/// Whether `pattern` compiles as a regular expression.
pub uninterp spec fn regex_valid(pattern: Seq<char>) -> bool;

/// Relies on `regex::Regex::new`: whether a pattern compiles is a function of
/// the pattern alone.
#[verifier::external_body]
fn regex_pattern_ok(pattern: &str) -> (r: bool)
    ensures
        r == regex_valid(pattern@),
{
    regex::Regex::new(pattern).is_ok()
}

/// Relies on `regex::Regex::new` and `regex::Regex::find`: the leftmost match
/// of a pattern in a haystack depends on the pattern and the haystack alone.
#[verifier::external_body]
pub(crate) fn regex_find_first(pattern: &str, text: &str) -> (r: Option<String>)
    ensures
        r matches Some(m) ==> regex_first_match(pattern@, text@) == Some(m@),
        r is None ==> regex_first_match(pattern@, text@) is None,
        !regex_valid(pattern@) ==> r is None,
{
    match regex::Regex::new(pattern) {
        Ok(re) => match re.find(text) {
            Some(m) => Some(m.as_str().to_string()),
            None => None,
        },
        Err(_) => None,
    }
}

/// A registered platform handler: a name for diagnostics, a URL-recognition
/// pattern, and the platform fetch profile its matches are routed to.
/// Handlers are built once at startup and never mutated.
#[derive(Debug)]
pub struct Handler {
    pub name: String,
    pub pattern: String,
    pub platform: Platform,
}

impl Handler {
    /// A handler's pattern always compiles.
    pub open spec fn wf(&self) -> bool {
        regex_valid(self.pattern@)
    }

    /// Create a handler, rejecting a pattern that does not compile.
    pub fn new(name: &str, regex_pattern: &str, platform: Platform) -> (r: Result<Handler, Error>)
        ensures
            r is Ok <==> regex_valid(regex_pattern@),
            r matches Ok(h) ==> h.wf() && h.name@ == name@ && h.pattern@ == regex_pattern@
                && h.platform == platform,
            r matches Err(e) ==> (e matches Error::ValidationFailed(m) && m@
                == "invalid handler pattern"@),
    {
        if regex_pattern_ok(regex_pattern) {
            Ok(Handler { name: name.to_owned(), pattern: regex_pattern.to_owned(), platform })
        } else {
            Err(Error::validation_falied("invalid handler pattern"))
        }
    }

    /// The handler's platform name.
    pub fn name(&self) -> (r: &str)
        ensures
            r@ == self.name@,
    {
        self.name.as_str()
    }

    /// Extract the first substring of `text` that this handler's pattern
    /// matches, when there is one.
    pub fn try_extract(&self, text: &str) -> (r: Option<String>)
        ensures
            r matches Some(m) ==> regex_first_match(self.pattern@, text@) == Some(m@),
            r is None ==> regex_first_match(self.pattern@, text@) is None,
    {
        regex_find_first(self.pattern.as_str(), text)
    }
}

/// The fixed, ordered registry: one handler per supported platform. Fails only
/// when one of the registered patterns does not compile.
pub fn create_handlers() -> (r: Result<Vec<Handler>, Error>)
    ensures
        r is Ok <==> regex_valid(INSTAGRAM_PATTERN@) && regex_valid(YOUTUBE_PATTERN@)
            && regex_valid(TWITTER_PATTERN@) && regex_valid(TIKTOK_PATTERN@),
        r matches Ok(hs) ==> {
            &&& hs@.len() == 4
            &&& forall|i: int| 0 <= i < hs@.len() ==> (#[trigger] hs@[i]).wf()
            &&& hs@[0].name@ == "instagram"@ && hs@[0].pattern@ == INSTAGRAM_PATTERN@
                && hs@[0].platform == Platform::Instagram
            &&& hs@[1].name@ == "youtube"@ && hs@[1].pattern@ == YOUTUBE_PATTERN@
                && hs@[1].platform == Platform::Youtube
            &&& hs@[2].name@ == "twitter"@ && hs@[2].pattern@ == TWITTER_PATTERN@
                && hs@[2].platform == Platform::Twitter
            &&& hs@[3].name@ == "tiktok"@ && hs@[3].pattern@ == TIKTOK_PATTERN@
                && hs@[3].platform == Platform::Tiktok
        },
{
    let instagram = Handler::new("instagram", INSTAGRAM_PATTERN, Platform::Instagram)?;
    let youtube = Handler::new("youtube", YOUTUBE_PATTERN, Platform::Youtube)?;
    let twitter = Handler::new("twitter", TWITTER_PATTERN, Platform::Twitter)?;
    let tiktok = Handler::new("tiktok", TIKTOK_PATTERN, Platform::Tiktok)?;
    let mut hs: Vec<Handler> = Vec::new();
    hs.push(instagram);
    hs.push(youtube);
    hs.push(twitter);
    hs.push(tiktok);
    Ok(hs)
}

/// Scan the handlers in registration order and return the index of the first
/// whose pattern matches the message text, with the matched substring. A
/// message matching several patterns is routed to exactly one handler.
pub fn dispatch(handlers: &Vec<Handler>, text: &str) -> (r: Option<(usize, String)>)
    ensures
        r is None ==> forall|i: int|
            0 <= i < handlers@.len() ==> regex_first_match(
                (#[trigger] handlers@[i]).pattern@,
                text@,
            ) is None,
        r matches Some((i, m)) ==> {
            &&& 0 <= (i as int) < handlers@.len()
            &&& regex_first_match(handlers@[i as int].pattern@, text@) == Some(m@)
            &&& forall|j: int|
                0 <= j < i as int ==> regex_first_match(
                    (#[trigger] handlers@[j]).pattern@,
                    text@,
                ) is None
        },
{
    let n = handlers.len();
    for i in 0..n
        invariant
            n == handlers@.len(),
            forall|j: int|
                0 <= j < i ==> regex_first_match((#[trigger] handlers@[j]).pattern@, text@) is None,
    {
        match handlers[i].try_extract(text) {
            Option::Some(m) => {
                return Some((i, m));
            },
            Option::None => {},
        }
    }
    None
}

} // verus!
