use tg_relay::config::{InstagramConfig, TwitterConfig, YoutubeConfig, DEFAULT_POSTPROCESSOR_ARGS};
use tg_relay::download::{
    classify_run, collect_media_files, instagram_args, process_run_output, sort_paths,
    twitter_args, youtube_args,
};
use tg_relay::media::detect_media_kind;
use tg_relay::select::{select_media, Candidate};
use tg_relay::{Error, MediaKind};

fn strings(names: &[&str]) -> Vec<String> {
    names.iter().map(|s| s.to_string()).collect()
}

#[test]
fn workspace_scan_retains_only_media() {
    // A fetch that exits 0 leaving a.json, b.log and clip.mp4 keeps exactly
    // the clip, which classifies as video and wins selection.
    let entries = strings(&["a.json", "b.log", "clip.mp4"]);
    let dr = process_run_output("yt-dlp", true, "", &entries).unwrap();
    assert_eq!(dr.files, strings(&["clip.mp4"]));

    let kind = detect_media_kind(&dr.files[0], None);
    assert_eq!(kind, MediaKind::Video);

    let cands = vec![Candidate { path: dr.files[0].clone(), kind, file_ok: true }];
    let winner = select_media(&cands).unwrap();
    assert_eq!(winner.path, "clip.mp4");
    assert_eq!(winner.kind, MediaKind::Video);
}

#[test]
fn fetch_failure_carries_stderr() {
    let err = classify_run("yt-dlp", false, "rate limited").unwrap_err();
    assert_eq!(err, Error::YTDLPFailed("rate limited".to_string()));
    assert!(err.message().contains("rate limited"));

    let err = process_run_output("yt-dlp", false, "rate limited", &Vec::new()).unwrap_err();
    assert!(err.message().contains("rate limited"));
}

#[test]
fn fetch_failure_trims_stderr() {
    let err = classify_run("yt-dlp", false, "  rate limited \n").unwrap_err();
    assert_eq!(err, Error::YTDLPFailed("rate limited".to_string()));
}

#[test]
fn fetch_failure_with_empty_stderr() {
    let err = classify_run("yt-dlp", false, " \n ").unwrap_err();
    assert_eq!(err, Error::Other("yt-dlp failed: ".to_string()));
}

#[test]
fn fetch_failure_of_other_tool() {
    let err = classify_run("instaloader", false, "boom").unwrap_err();
    assert_eq!(err, Error::Other("instaloader failed: boom".to_string()));
}

#[test]
fn fetch_success_passes() {
    assert!(classify_run("yt-dlp", true, "ignored").is_ok());
}

#[test]
fn empty_workspace_is_no_media() {
    let err = process_run_output("yt-dlp", true, "", &Vec::new()).unwrap_err();
    assert_eq!(err, Error::NoMediaFound);
    assert_eq!(err.message(), "no media found");

    let entries = strings(&["notes.txt", ".hidden.mp4", "metadata.json"]);
    let err = collect_media_files(&entries).unwrap_err();
    assert_eq!(err, Error::NoMediaFound);
}

#[test]
fn collected_files_are_sorted() {
    let entries = strings(&["b.mp4", "c.jpg", "a.mp4"]);
    let dr = collect_media_files(&entries).unwrap();
    assert_eq!(dr.files, strings(&["a.mp4", "b.mp4", "c.jpg"]));
}

#[test]
fn sort_paths_orders_lexicographically() {
    let mut v = strings(&["b", "aa", "a", "b"]);
    sort_paths(&mut v);
    assert_eq!(v, strings(&["a", "aa", "b", "b"]));
}

#[test]
fn instagram_args_without_cookies() {
    let cfg = InstagramConfig { cookies_path: None };
    let args = instagram_args(&cfg, "https://instagram.com/reel/x");
    assert_eq!(
        args,
        strings(&["-t", "mp4", "--extractor-args", "instagram:", "https://instagram.com/reel/x"])
    );
}

#[test]
fn instagram_args_with_cookies() {
    let cfg = InstagramConfig { cookies_path: Some("/tmp/c.txt".to_string()) };
    let args = instagram_args(&cfg, "u");
    assert_eq!(
        args,
        strings(&["-t", "mp4", "--extractor-args", "instagram:", "--cookies", "/tmp/c.txt", "u"])
    );
}

#[test]
fn twitter_args_shape() {
    let cfg = TwitterConfig { cookies_path: None };
    let args = twitter_args(&cfg, "https://twitter.com/a/status/1");
    assert_eq!(
        args,
        strings(&["-t", "mp4", "--extractor-args", "twitter:", "https://twitter.com/a/status/1"])
    );
}

#[test]
fn youtube_args_include_postprocessing() {
    let cfg = YoutubeConfig {
        cookies_path: Some("/tmp/y.txt".to_string()),
        postprocessor_args: DEFAULT_POSTPROCESSOR_ARGS.to_string(),
    };
    let args = youtube_args(&cfg, "https://youtube.com/shorts/abc");
    assert_eq!(
        args,
        strings(&[
            "--no-playlist",
            "-t",
            "mp4",
            "--restrict-filenames",
            "-o",
            "%(title)s.%(ext)s",
            "--postprocessor-args",
            DEFAULT_POSTPROCESSOR_ARGS,
            "--cookies",
            "/tmp/y.txt",
            "https://youtube.com/shorts/abc",
        ])
    );
}
