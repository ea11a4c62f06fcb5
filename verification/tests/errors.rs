use tg_relay::config::Config;
use tg_relay::validate::validate_non_empty;
use tg_relay::Error;

#[test]
fn error_messages() {
    assert_eq!(Error::Io("broken pipe".to_string()).message(), "io error: broken pipe");
    assert_eq!(Error::instaloader_failed("denied").message(), "instaloader failed: denied");
    assert_eq!(Error::ytdlp_failed("404").message(), "yt-dpl failed: 404");
    assert_eq!(Error::NoMediaFound.message(), "no media found");
    assert_eq!(Error::UnknownMediaKind.message(), "unknown media kind");
    assert_eq!(Error::validation_falied("bad").message(), "validation failed: bad");
    assert_eq!(Error::Teloxide("timeout".to_string()).message(), "teloxide error: timeout");
    assert_eq!(Error::Join("cancelled".to_string()).message(), "join error: cancelled");
    assert_eq!(Error::RateLimit.message(), "rate limit exceeded");
    assert_eq!(Error::other("misc").message(), "other: misc");
}

#[test]
fn validate_non_empty_trims() {
    assert_eq!(validate_non_empty("  hello there \t").unwrap(), "hello there");
    assert_eq!(validate_non_empty("x").unwrap(), "x");
}

#[test]
fn validate_non_empty_rejects_blank() {
    let err = validate_non_empty(" \t\r\n ").unwrap_err();
    assert_eq!(err, Error::ValidationFailed("input cannot be empty".to_string()));
    let err = validate_non_empty("").unwrap_err();
    assert_eq!(err.message(), "validation failed: input cannot be empty");
}

#[test]
fn default_config_has_no_credentials() {
    let cfg = Config::default();
    assert!(cfg.chat_id.is_none());
    assert!(cfg.youtube.cookies_path.is_none());
    assert!(cfg.instagram.cookies_path.is_none());
    assert!(cfg.tiktok.cookies_path.is_none());
    assert!(cfg.twitter.cookies_path.is_none());
    assert!(cfg.youtube.postprocessor_args.starts_with("ffmpeg:"));
}
