use tg_relay::handler::{create_handlers, dispatch, Handler, Platform};
use tg_relay::handlers::{InstagramHandler, TiktokHandler, TwitterHandler, YouTubeShortsHandler};
use tg_relay::Error;

#[test]
fn registry_holds_all_platforms() {
    let handlers = create_handlers().unwrap();
    assert_eq!(handlers.len(), 4);
    assert_eq!(handlers[0].name(), "instagram");
    assert_eq!(handlers[1].name(), "youtube");
    assert_eq!(handlers[2].name(), "twitter");
    assert_eq!(handlers[3].name(), "tiktok");
    assert_eq!(handlers[0].platform, Platform::Instagram);
    assert_eq!(handlers[3].platform, Platform::Tiktok);
}

#[test]
fn invalid_pattern_is_rejected() {
    let err = Handler::new("broken", "(unclosed", Platform::Instagram).unwrap_err();
    assert_eq!(err, Error::ValidationFailed("invalid handler pattern".to_string()));
}

#[test]
fn dispatch_extracts_the_matched_url() {
    let handlers = create_handlers().unwrap();
    let (i, m) = dispatch(&handlers, "look at https://www.instagram.com/reel/AbC12_x/ now").unwrap();
    assert_eq!(i, 0);
    assert_eq!(m, "https://www.instagram.com/reel/AbC12_x");

    let (i, m) = dispatch(&handlers, "https://vm.tiktok.com/ZM8abc/ funny").unwrap();
    assert_eq!(i, 3);
    assert_eq!(m, "https://vm.tiktok.com/ZM8abc/");

    let (i, _) = dispatch(&handlers, "https://www.youtube.com/shorts/dQw4w9WgXcQ").unwrap();
    assert_eq!(i, 1);

    let (i, m) = dispatch(&handlers, "https://twitter.com/user/status/12345").unwrap();
    assert_eq!(i, 2);
    assert_eq!(m, "https://twitter.com/user/status/12345");
}

#[test]
fn dispatch_without_link_is_none() {
    let handlers = create_handlers().unwrap();
    assert!(dispatch(&handlers, "just chatting, no links here").is_none());
}

#[test]
fn handler_try_extract_matches_own_pattern() {
    let handlers = create_handlers().unwrap();
    let m = handlers[1].try_extract("https://www.youtube.com/shorts/abc_DEF-12?feature=share");
    assert_eq!(m.unwrap(), "https://www.youtube.com/shorts/abc_DEF-12?feature=share");
    assert!(handlers[1].try_extract("https://example.com").is_none());
}

#[test]
fn instagram_handler_accepts_posts() {
    // The per-platform handler also recognizes /p/ links, which the registry
    // pattern does not.
    let h = InstagramHandler::new();
    assert_eq!(h.name(), "instagram");
    let m = h.try_extract("see https://www.instagram.com/p/AbC123/ please");
    assert_eq!(m.unwrap(), "https://www.instagram.com/p/AbC123");

    let registry = create_handlers().unwrap();
    assert!(registry[0].try_extract("https://www.instagram.com/p/AbC123/").is_none());
}

#[test]
fn platform_handlers_extract_their_urls() {
    assert_eq!(
        YouTubeShortsHandler::new().try_extract("https://www.youtube.com/shorts/xyz").unwrap(),
        "https://www.youtube.com/shorts/xyz"
    );
    assert_eq!(
        TwitterHandler::new().try_extract("rt https://twitter.com/a_b/status/99").unwrap(),
        "https://twitter.com/a_b/status/99"
    );
    assert_eq!(
        TiktokHandler::new().try_extract("https://vt.tiktok.com/short9/").unwrap(),
        "https://vt.tiktok.com/short9/"
    );
    assert_eq!(TiktokHandler::new().name(), "tiktok");
    assert_eq!(TwitterHandler::new().name(), "twitter");
    assert_eq!(YouTubeShortsHandler::new().name(), "youtube");
    assert!(InstagramHandler::new().try_extract("nothing").is_none());
}
