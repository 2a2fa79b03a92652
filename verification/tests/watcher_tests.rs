use redactor::watcher::{deadline_from, timed_out};
use redactor::capture::CaptureEntry;
use redactor::watcher::{clears_on_exit, CaptureWatch, PollOutcome};

fn entry(name: &str) -> CaptureEntry {
    CaptureEntry {
        path: format!("/d/{name}").into_bytes(),
        name: name.as_bytes().to_vec(),
    }
}

#[test]
fn unchanged_world_keeps_watching() {
    let listing = vec![entry("old.png")];
    let mut w = CaptureWatch::new(Some(7), &listing);
    assert_eq!(w.baseline_len(), 1);
    assert!(matches!(w.poll(false, &listing, Some(7)), PollOutcome::Continue));
}

#[test]
fn stop_request_wins() {
    let listing = vec![entry("old.png")];
    let mut w = CaptureWatch::new(None, &listing);
    let later = vec![entry("old.png"), entry("new.png")];
    assert!(matches!(w.poll(true, &later, Some(1)), PollOutcome::Stopped));
    assert!(!clears_on_exit(true));
    assert!(clears_on_exit(false));
}

#[test]
fn new_capture_file_completes_the_watch() {
    let listing = vec![entry("old.png")];
    let mut w = CaptureWatch::new(None, &listing);
    let later = vec![entry("old.png"), entry("Screen Recording.mov")];
    match w.poll(false, &later, None) {
        PollOutcome::CaptureFile(p) => assert_eq!(p, b"/d/Screen Recording.mov".to_vec()),
        other => panic!("unexpected {other:?}"),
    }
}

#[test]
fn new_clipboard_image_completes_the_watch() {
    let mut w = CaptureWatch::new(Some(1), &vec![]);
    assert!(matches!(w.poll(false, &vec![], Some(2)), PollOutcome::ClipboardImage));
}

#[test]
fn copied_text_rebaselines_then_image_fires() {
    let mut w = CaptureWatch::new(Some(1), &vec![]);
    // The user copies text: the clipboard holds no image any more.
    assert!(matches!(w.poll(false, &vec![], None), PollOutcome::Continue));
    assert!(matches!(w.poll(false, &vec![], None), PollOutcome::Continue));
    // A screenshot goes to the clipboard.
    assert!(matches!(w.poll(false, &vec![], Some(1)), PollOutcome::ClipboardImage));
}

#[test]
fn first_image_after_empty_clipboard_fires() {
    let mut w = CaptureWatch::new(None, &vec![]);
    assert!(matches!(w.poll(false, &vec![], Some(5)), PollOutcome::ClipboardImage));
}

#[test]
fn timeout_after_last_activity() {
    let d = deadline_from(1_000);
    assert_eq!(d, 121_000);
    assert!(!timed_out(120_999, d));
    assert!(timed_out(121_000, d));
    assert_eq!(deadline_from(u64::MAX - 5), u64::MAX);
}
