use redactor::capture::{find_new_capture, is_capture_file, snapshot_captures, CaptureEntry};

fn entry(dir: &str, name: &str) -> CaptureEntry {
    CaptureEntry {
        path: format!("{dir}/{name}").into_bytes(),
        name: name.as_bytes().to_vec(),
    }
}

#[test]
fn capture_extensions_in_any_case() {
    assert!(is_capture_file(b"Screenshot 2024-01-01 at 10.00.00.png"));
    assert!(is_capture_file(b"shot.PNG"));
    assert!(is_capture_file(b"Screen Recording.MoV"));
    assert!(is_capture_file(b"archive.tar.webm"));
    assert!(is_capture_file(b"photo.JPEG"));
    assert!(is_capture_file(b"a.heic"));
}

#[test]
fn non_capture_names() {
    assert!(!is_capture_file(b"notes.txt"));
    assert!(!is_capture_file(b"png"));
    assert!(!is_capture_file(b".png"));
    assert!(!is_capture_file(b"a."));
    assert!(!is_capture_file(b""));
    assert!(!is_capture_file(b"a.png.part"));
    assert!(!is_capture_file(b"a.pngx"));
}

#[test]
fn leading_dot_with_another_dot_has_an_extension() {
    assert!(is_capture_file(b"..png"));
    assert!(is_capture_file(b".hidden.gif"));
}

#[test]
fn snapshot_keeps_capture_files_once() {
    let entries = vec![
        entry("/d", "a.png"),
        entry("/d", "b.txt"),
        entry("/d", "c.mov"),
        entry("/d", "a.png"),
    ];
    let set = snapshot_captures(&entries);
    assert_eq!(set.len(), 2);
    assert!(set.contains(b"/d/a.png"));
    assert!(set.contains(b"/d/c.mov"));
    assert!(!set.contains(b"/d/b.txt"));
}

#[test]
fn nothing_new_in_the_snapshot_listing() {
    let entries = vec![entry("/d", "a.png"), entry("/d", "c.mov")];
    let set = snapshot_captures(&entries);
    assert_eq!(find_new_capture(&entries, &set), None);
}

#[test]
fn first_new_capture_is_found() {
    let before = vec![entry("/d", "a.png")];
    let set = snapshot_captures(&before);
    let after = vec![
        entry("/d", "a.png"),
        entry("/d", "notes.txt"),
        entry("/d", "b.jpg"),
        entry("/e", "c.mp4"),
    ];
    assert_eq!(find_new_capture(&after, &set), Some(b"/d/b.jpg".to_vec()));
}

#[test]
fn new_non_capture_file_is_ignored() {
    let before = vec![entry("/d", "a.png")];
    let set = snapshot_captures(&before);
    let after = vec![entry("/d", "a.png"), entry("/d", "draft.txt")];
    assert_eq!(find_new_capture(&after, &set), None);
}

#[test]
fn extension_case_and_stem_do_not_matter() {
    for ext in ["png", "PnG", "MOV", "webm"] {
        assert_eq!(
            is_capture_file(format!("a.{ext}").as_bytes()),
            is_capture_file(format!("other name.{}", ext.to_ascii_uppercase()).as_bytes())
        );
    }
}
