use tg_relay::comments::{Comments, DISCLAIMER, FALLBACK_COMMENT, TELEGRAM_CAPTION_LIMIT};

#[test]
fn dummy_comments() {
    let comments = Comments::dummy();
    assert_eq!(comments.lines().len(), 4);
    assert!(!comments.lines().is_empty());
}

#[test]
fn build_caption_truncation() {
    let long_comment = "A".repeat(TELEGRAM_CAPTION_LIMIT + 10);
    let comments = Comments::from_lines(vec![long_comment]);

    let caption = comments.build_caption();
    assert_eq!(caption.chars().count(), TELEGRAM_CAPTION_LIMIT);
    assert!(caption.ends_with("..."))
}

#[test]
fn pick_fallbakc() {
    let empty_comment = Comments::from_lines(Vec::new());
    assert_eq!(empty_comment.pick(), FALLBACK_COMMENT);
}

#[test]
fn pick_returns_a_pool_line() {
    let comments = Comments::from_lines(vec!["only line".to_string()]);
    assert_eq!(comments.pick(), "only line");
    let caption = comments.build_caption();
    assert_eq!(caption, "only line");
}

#[test]
fn from_lines_keeps_disclaimer() {
    let comments = Comments::from_lines(vec!["a".to_string()]);
    assert_eq!(comments.disclaimer, DISCLAIMER);
}

#[test]
fn from_text_filters_lines() {
    let text = "# a heading\n\n  first comment  \nsecond comment\n\n# trailing note\n";
    let comments = Comments::from_text(text).unwrap();
    assert_eq!(comments.lines().len(), 2);
    assert_eq!(comments.lines()[0], "first comment");
    assert_eq!(comments.lines()[1], "second comment");
}

#[test]
fn from_text_without_trailing_newline() {
    let comments = Comments::from_text("one\r\ntwo").unwrap();
    assert_eq!(comments.lines().as_slice(), ["one".to_string(), "two".to_string()]);
}

#[test]
fn from_text_rejects_empty_input() {
    let err = Comments::from_text("").unwrap_err();
    assert_eq!(err, tg_relay::Error::Other("comments file contains no usable lines".to_string()));
    let err = Comments::from_text("  \n# only comments\n\t\n").unwrap_err();
    assert!(err.message().contains("no usable lines"));
}
