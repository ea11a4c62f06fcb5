use std::io::Write;

use tg_relay::download::collect_media_files;
use tg_relay::media::detect_media_kind;
use tg_relay::select::{select_media, Candidate};
use tg_relay::{Error, MediaKind};

#[test]
fn workspace_is_destroyed_after_a_run() {
    // One pipeline run over a real workspace directory: the directory must be
    // gone once the run is over.
    let workspace = tempfile::tempdir().unwrap();
    let dir = workspace.path().to_path_buf();
    let mut media = tempfile::NamedTempFile::new_in(&dir).unwrap();
    media.write_all(&[0x89, 0x50, 0x4E, 0x47, 0x0D, 0x0A, 0x1A, 0x0A]).unwrap();
    media.persist(dir.join("cover.png")).unwrap();
    assert!(dir.exists());

    let entries = vec!["cover.png".to_string()];
    let dr = collect_media_files(&entries).unwrap();
    let cands: Vec<Candidate> = dr
        .files
        .iter()
        .map(|name| Candidate {
            path: name.clone(),
            kind: detect_media_kind(name, None),
            file_ok: dir.join(name).is_file(),
        })
        .collect();
    let winner = select_media(&cands).unwrap();
    assert_eq!(winner.kind, MediaKind::Image);
    assert_eq!(winner.path, "cover.png");

    drop(workspace);
    assert!(!dir.exists());
}

#[test]
fn workspace_is_destroyed_after_a_no_media_run() {
    let workspace = tempfile::tempdir().unwrap();
    let dir = workspace.path().to_path_buf();
    assert!(dir.exists());

    let entries = vec!["report.txt".to_string()];
    let err = collect_media_files(&entries).unwrap_err();
    assert_eq!(err, Error::NoMediaFound);

    drop(workspace);
    assert!(!dir.exists());
}
