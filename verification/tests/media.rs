use tg_relay::media::{detect_media_kind, is_potential_media_file, MediaKind};

#[test]
fn detect_media_kind_by_extension() {
    assert_eq!(detect_media_kind("video.mp4", None), MediaKind::Video);
    assert_eq!(detect_media_kind("image.jpg", None), MediaKind::Image);
    assert_eq!(detect_media_kind("unknown.txt", None), MediaKind::Unknown);
}

#[test]
fn media_kind_case_insensitive() {
    assert_eq!(detect_media_kind("VIDEO.MP4", None), MediaKind::Video);
    assert_eq!(detect_media_kind("IMAGE.JPG", None), MediaKind::Image);
}

#[test]
fn detect_media_kind_all_extensions() {
    for ext in ["mp4", "webm", "mov", "mkv", "avi", "m4v", "3gp"] {
        let name = format!("clip.{ext}");
        assert_eq!(detect_media_kind(&name, None), MediaKind::Video);
    }
    for ext in ["jpg", "jpeg", "png", "webp", "gif", "bmp"] {
        let name = format!("pic.{ext}");
        assert_eq!(detect_media_kind(&name, None), MediaKind::Image);
    }
}

#[test]
fn detect_media_kind_sniffs_png_content() {
    // A PNG signature with no telling extension: only content sniffing can
    // classify it, so this fails if the sniffer reports nothing real.
    let png = [0x89u8, 0x50, 0x4E, 0x47, 0x0D, 0x0A, 0x1A, 0x0A, 0, 0, 0, 0];
    assert_eq!(detect_media_kind("download", Some(&png)), MediaKind::Image);
    assert_eq!(detect_media_kind("download.bin", Some(&png)), MediaKind::Image);
    assert_eq!(detect_media_kind("download.dat", Some(&png)), MediaKind::Image);
}

#[test]
fn detect_media_kind_sniffs_mp4_content() {
    let mut mp4 = vec![0x00u8, 0x00, 0x00, 0x18];
    mp4.extend_from_slice(b"ftypmp42");
    mp4.extend_from_slice(&[0u8; 16]);
    assert_eq!(detect_media_kind("clip.part", Some(&mp4)), MediaKind::Video);
}

#[test]
fn detect_media_kind_extension_wins_over_content() {
    let png = [0x89u8, 0x50, 0x4E, 0x47, 0x0D, 0x0A, 0x1A, 0x0A, 0, 0, 0, 0];
    assert_eq!(detect_media_kind("clip.mp4", Some(&png)), MediaKind::Video);
}

#[test]
fn detect_media_kind_unreadable_is_unknown() {
    assert_eq!(detect_media_kind("mystery", None), MediaKind::Unknown);
    assert_eq!(detect_media_kind("garbage.xyz", Some(&[1u8, 2, 3])), MediaKind::Unknown);
}

#[test]
fn extension_edge_cases() {
    // The last dot decides; a leading dot marks a hidden file, not an extension.
    assert_eq!(detect_media_kind("archive.tar.gz", None), MediaKind::Unknown);
    assert_eq!(detect_media_kind("clip.backup.mp4", None), MediaKind::Video);
    assert_eq!(detect_media_kind(".hidden", None), MediaKind::Unknown);
    assert_eq!(detect_media_kind(".mp4.jpg", None), MediaKind::Image);
    assert_eq!(detect_media_kind("trailing.", None), MediaKind::Unknown);
    assert_eq!(detect_media_kind("UPPER.JPEG", None), MediaKind::Image);
}

#[test]
fn media_kind_to_str() {
    assert_eq!(MediaKind::Video.to_str(), "video");
    assert_eq!(MediaKind::Image.to_str(), "image");
    assert_eq!(MediaKind::Unknown.to_str(), "unknown");
}

#[test]
fn is_potential_media_file_() {
    assert!(is_potential_media_file("video.mp4"));
    assert!(is_potential_media_file("image.jpg"));
    assert!(!is_potential_media_file(".DS_Store"));
    assert!(!is_potential_media_file("metadata.json"));
    assert!(!is_potential_media_file("download.log"));
}

#[test]
fn potential_media_rejects_metadata_any_case() {
    assert!(!is_potential_media_file("MetaData.mp4"));
    assert!(!is_potential_media_file("clip_metadata.mp4"));
    assert!(is_potential_media_file("CLIP.MP4"));
    assert!(!is_potential_media_file("noextension"));
    assert!(!is_potential_media_file("notes.txt"));
}
