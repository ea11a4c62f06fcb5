use vstd::prelude::*;

verus! {

/// The pipeline's failure taxonomy. Every failure surfaces to the caller;
/// nothing is retried or silently suppressed.
#[derive(Debug, Clone, PartialEq, Eq)]
pub enum Error {
    /// Filesystem or process-spawn failure, with the operating system's text.
    Io(String),
    /// The instaloader fetch tool exited non-zero; holds its trimmed stderr.
    InstaloaderFailed(String),
    /// The yt-dlp fetch tool exited non-zero; holds its trimmed stderr.
    YTDLPFailed(String),
    /// A fetch succeeded but produced no usable media file.
    NoMediaFound,
    /// A selected candidate could not be resolved to video or image.
    UnknownMediaKind,
    /// An input failed validation.
    ValidationFailed(String),
    /// The delivery transport failed; holds the transport's error text.
    Teloxide(String),
    /// A background task failed to complete.
    Join(String),
    /// Rate limit exceeded.
    RateLimit,
    /// Any other failure.
    Other(String),
}

impl Error {
    /// Wrap free-form text as an `Other` error.
    pub fn other(text: &str) -> (r: Self)
        ensures
            r matches Error::Other(s) && s@ == text@,
    {
        Error::Other(text.to_owned())
    }

    /// Report the instaloader tool's failure, with its stderr.
    pub fn instaloader_failed(text: &str) -> (r: Self)
        ensures
            r matches Error::InstaloaderFailed(s) && s@ == text@,
    {
        Error::InstaloaderFailed(text.to_owned())
    }

    /// Report the yt-dlp tool's failure, with its stderr.
    pub fn ytdlp_failed(text: &str) -> (r: Self)
        ensures
            r matches Error::YTDLPFailed(s) && s@ == text@,
    {
        Error::YTDLPFailed(text.to_owned())
    }

    /// Report a validation failure.
    pub fn validation_falied(text: &str) -> (r: Self)
        ensures
            r matches Error::ValidationFailed(s) && s@ == text@,
    {
        Error::ValidationFailed(text.to_owned())
    }

    /// The operator-facing description of this error.
    pub fn message(&self) -> (r: String)
        ensures
            self matches Error::Io(s) ==> r@ == "io error: "@ + s@,
            self matches Error::InstaloaderFailed(s) ==> r@ == "instaloader failed: "@ + s@,
            self matches Error::YTDLPFailed(s) ==> r@ == "yt-dpl failed: "@ + s@,
            self is NoMediaFound ==> r@ == "no media found"@,
            self is UnknownMediaKind ==> r@ == "unknown media kind"@,
            self matches Error::ValidationFailed(s) ==> r@ == "validation failed: "@ + s@,
            self matches Error::Teloxide(s) ==> r@ == "teloxide error: "@ + s@,
            self matches Error::Join(s) ==> r@ == "join error: "@ + s@,
            self is RateLimit ==> r@ == "rate limit exceeded"@,
            self matches Error::Other(s) ==> r@ == "other: "@ + s@,
    {
        match self {
            Error::Io(s) => String::from_str("io error: ").concat(s.as_str()),
            Error::InstaloaderFailed(s) => String::from_str("instaloader failed: ").concat(
                s.as_str(),
            ),
            Error::YTDLPFailed(s) => String::from_str("yt-dpl failed: ").concat(s.as_str()),
            Error::NoMediaFound => String::from_str("no media found"),
            Error::UnknownMediaKind => String::from_str("unknown media kind"),
            Error::ValidationFailed(s) => String::from_str("validation failed: ").concat(
                s.as_str(),
            ),
            Error::Teloxide(s) => String::from_str("teloxide error: ").concat(s.as_str()),
            Error::Join(s) => String::from_str("join error: ").concat(s.as_str()),
            Error::RateLimit => String::from_str("rate limit exceeded"),
            Error::Other(s) => String::from_str("other: ").concat(s.as_str()),
        }
    }
}

} // verus!
