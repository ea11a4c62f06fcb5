use tg_relay::select::{select_media, Candidate};
use tg_relay::{Error, MediaKind};

fn cand(path: &str, kind: MediaKind) -> Candidate {
    Candidate { path: path.to_string(), kind, file_ok: true }
}

#[test]
fn select_empty_list_is_no_media() {
    let r = select_media(&Vec::new());
    assert_eq!(r.unwrap_err(), Error::NoMediaFound);
    assert_eq!(Error::NoMediaFound.message(), "no media found");
}

#[test]
fn select_prefers_video_in_any_order() {
    let a = vec![cand("clip.mp4", MediaKind::Video), cand("cover.jpg", MediaKind::Image)];
    let b = vec![cand("cover.jpg", MediaKind::Image), cand("clip.mp4", MediaKind::Video)];
    let ra = select_media(&a).unwrap();
    let rb = select_media(&b).unwrap();
    assert_eq!(ra.kind, MediaKind::Video);
    assert_eq!(ra.path, "clip.mp4");
    assert_eq!(rb.kind, MediaKind::Video);
    assert_eq!(rb.path, "clip.mp4");
}

#[test]
fn select_tiebreak_is_lexicographic() {
    let a = vec![cand("zebra.mp4", MediaKind::Video), cand("alpha.mp4", MediaKind::Video)];
    let b = vec![cand("alpha.mp4", MediaKind::Video), cand("zebra.mp4", MediaKind::Video)];
    assert_eq!(select_media(&a).unwrap().path, "alpha.mp4");
    assert_eq!(select_media(&b).unwrap().path, "alpha.mp4");
}

#[test]
fn select_two_images_takes_first_path() {
    let cands = vec![cand("thumb.jpg", MediaKind::Image), cand("cover.jpg", MediaKind::Image)];
    let r = select_media(&cands).unwrap();
    assert_eq!(r.path, "cover.jpg");
    assert_eq!(r.kind, MediaKind::Image);
}

#[test]
fn select_skips_unknown_and_failed_files() {
    let cands = vec![
        Candidate { path: "a.bin".to_string(), kind: MediaKind::Unknown, file_ok: true },
        Candidate { path: "b.mp4".to_string(), kind: MediaKind::Video, file_ok: false },
        Candidate { path: "c.jpg".to_string(), kind: MediaKind::Image, file_ok: true },
    ];
    let r = select_media(&cands).unwrap();
    assert_eq!(r.path, "c.jpg");
    assert_eq!(r.kind, MediaKind::Image);
}

#[test]
fn select_nothing_usable_is_no_media() {
    let cands = vec![
        Candidate { path: "a.bin".to_string(), kind: MediaKind::Unknown, file_ok: true },
        Candidate { path: "b.mp4".to_string(), kind: MediaKind::Video, file_ok: false },
    ];
    assert_eq!(select_media(&cands).unwrap_err(), Error::NoMediaFound);
}
