use redactor::paths::{components, same_path_exec};
use redactor::dirs::{capture_dirs, home_join, screencapture_default, Platform};

fn strings(v: Vec<Vec<u8>>) -> Vec<String> {
    v.into_iter().map(|p| String::from_utf8(p).unwrap()).collect()
}

#[test]
fn linux_capture_dirs() {
    let dirs = capture_dirs(Platform::Linux, b"/home/u", None, None);
    assert_eq!(
        strings(dirs),
        vec!["/home/u/Pictures", "/home/u/Pictures/Screenshots", "/home/u/Videos/Screencasts"]
    );
}

#[test]
fn windows_capture_dirs() {
    let dirs = capture_dirs(Platform::Windows, b"C:\\Users\\u", None, None);
    assert_eq!(
        strings(dirs),
        vec!["C:\\Users\\u\\Pictures\\Screenshots", "C:\\Users\\u\\Videos\\Captures"]
    );
}

#[test]
fn macos_defaults_to_desktop() {
    let dirs = capture_dirs(Platform::MacOs, b"/Users/u", None, None);
    assert_eq!(strings(dirs), vec!["/Users/u/Desktop"]);
}

#[test]
fn macos_configured_locations() {
    let dirs = capture_dirs(
        Platform::MacOs,
        b"/Users/u",
        Some(b"/Users/u/Shots".to_vec()),
        Some(b"/Users/u/Movies".to_vec()),
    );
    assert_eq!(strings(dirs), vec!["/Users/u/Shots", "/Users/u/Movies"]);
}

#[test]
fn macos_same_location_listed_once() {
    let dirs = capture_dirs(
        Platform::MacOs,
        b"/Users/u",
        None,
        Some(b"/Users/u/Desktop".to_vec()),
    );
    assert_eq!(strings(dirs), vec!["/Users/u/Desktop"]);
}

#[test]
fn other_platforms_watch_no_folder() {
    assert!(capture_dirs(Platform::Other, b"/home/u", None, None).is_empty());
}

#[test]
fn unknown_home_gives_relative_dirs() {
    let dirs = capture_dirs(Platform::Linux, b"", None, None);
    assert_eq!(
        strings(dirs),
        vec!["Pictures", "Pictures/Screenshots", "Videos/Screencasts"]
    );
}

#[test]
fn home_join_separators() {
    assert_eq!(home_join(Platform::Linux, b"/home/u/", b"Pictures"), b"/home/u/Pictures".to_vec());
    assert_eq!(home_join(Platform::MacOs, b"/Users/u", b"/abs"), b"/abs".to_vec());
    assert_eq!(home_join(Platform::Windows, b"C:\\Users\\u", b"Videos"), b"C:\\Users\\u\\Videos".to_vec());
    assert_eq!(home_join(Platform::Windows, b"C:/Users/u/", b"Videos"), b"C:/Users/u/Videos".to_vec());
}

#[test]
fn screencapture_location_with_tilde() {
    assert_eq!(
        screencapture_default(true, "~/Pictures/Shots\n", b"/Users/u"),
        Some(b"/Users/u/Pictures/Shots".to_vec())
    );
}

#[test]
fn screencapture_location_absolute() {
    assert_eq!(
        screencapture_default(true, "  /Volumes/Data/Shots \n", b"/Users/u"),
        Some(b"/Volumes/Data/Shots".to_vec())
    );
}

#[test]
fn screencapture_location_unset_or_failed() {
    assert_eq!(screencapture_default(false, "/tmp\n", b"/Users/u"), None);
    assert_eq!(screencapture_default(true, " \n\t", b"/Users/u"), None);
    assert_eq!(screencapture_default(true, "", b"/Users/u"), None);
}

#[test]
fn screencapture_location_unicode_white_space_is_trimmed() {
    assert_eq!(
        screencapture_default(true, "\u{a0}/Users/u/Écran\u{3000}\n", b"/Users/u"),
        Some("/Users/u/Écran".as_bytes().to_vec())
    );
}

#[test]
fn macos_same_folder_with_trailing_slash_listed_once() {
    let dirs = capture_dirs(
        Platform::MacOs,
        b"/Users/u",
        Some(b"/Users/u/Desktop".to_vec()),
        Some(b"/Users/u/Desktop/".to_vec()),
    );
    assert_eq!(strings(dirs), vec!["/Users/u/Desktop"]);
    let dirs = capture_dirs(
        Platform::MacOs,
        b"/Users/u",
        None,
        Some(b"/Users//u/./Desktop".to_vec()),
    );
    assert_eq!(strings(dirs), vec!["/Users/u/Desktop"]);
}

#[test]
fn paths_compared_by_components() {
    let p = Platform::Linux;
    assert!(same_path_exec(p, b"/a/b/", b"/a//b"));
    assert!(same_path_exec(p, b"/a/./b", b"/a/b/."));
    assert!(same_path_exec(p, b".", b"./"));
    assert!(!same_path_exec(p, b"/a/b", b"a/b"));
    assert!(!same_path_exec(p, b"./a", b"a"));
    assert!(!same_path_exec(p, b"/a/../b", b"/b"));
    assert!(!same_path_exec(p, b"a\\b", b"a/b"));
    assert!(same_path_exec(Platform::Windows, b"C:\\a\\b", b"C:/a/b/"));
    assert_eq!(components(p, b"/x//y/./z/"), vec![b"x".to_vec(), b"y".to_vec(), b"z".to_vec()]);
}

#[test]
fn windows_join_rules() {
    let w = Platform::Windows;
    assert_eq!(home_join(w, b"C:", b"Pictures"), b"C:Pictures".to_vec());
    assert_eq!(home_join(w, b"C:\\Users\\u", b"\\x"), b"C:\\x".to_vec());
    assert_eq!(home_join(w, b"C:\\Users\\u", b"D:\\y"), b"D:\\y".to_vec());
    assert_eq!(home_join(w, b"C:\\Users\\u", b"\\\\srv\\share"), b"\\\\srv\\share".to_vec());
    assert_eq!(home_join(Platform::Linux, b"/home/u", b"C:x"), b"/home/u/C:x".to_vec());
}

#[test]
fn windows_drive_letters_compare_without_case() {
    use_same(Platform::Windows, b"c:\\a", b"C:/a/", true);
    use_same(Platform::Windows, b"C:\\a", b"C:a", false);
    use_same(Platform::Windows, b"C:\\a", b"D:\\a", false);
    use_same(Platform::Linux, b"c:/a", b"C:/a", false);
}

fn use_same(p: Platform, a: &[u8], b: &[u8], expected: bool) {
    assert_eq!(same_path_exec(p, a, b), expected);
}

#[test]
fn tilde_only_as_prefix() {
    assert_eq!(screencapture_default(true, "~", b"/Users/u"), Some(b"~".to_vec()));
    assert_eq!(screencapture_default(true, "~x/y", b"/Users/u"), Some(b"~x/y".to_vec()));
    assert_eq!(screencapture_default(true, "~/", b"/Users/u"), Some(b"/Users/u/".to_vec()));
}
