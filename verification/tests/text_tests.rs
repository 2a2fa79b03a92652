use redactor::debug::{parse_debug_command, DebugCommand};
use redactor::log::log_line;
use redactor::text::{split_whitespace, trim};

#[test]
fn trim_and_split() {
    assert_eq!(trim("  a b \n"), "a b");
    assert_eq!(trim("\u{2003}x\u{85}"), "x");
    assert_eq!(split_whitespace("  simbox 1\t2  3\n4 "), vec!["simbox", "1", "2", "3", "4"]);
    assert!(split_whitespace(" \n ").is_empty());
}

#[test]
fn debug_commands() {
    assert!(matches!(parse_debug_command("toggle\n"), Some(DebugCommand::Toggle)));
    assert!(matches!(parse_debug_command(" exit "), Some(DebugCommand::Exit)));
    assert!(matches!(parse_debug_command("panic"), Some(DebugCommand::Panic)));
    assert!(parse_debug_command("  \n").is_none());
    assert!(parse_debug_command("").is_none());
    match parse_debug_command("simbox 10 20 30.5 40\n") {
        Some(DebugCommand::SimBox(args)) => assert_eq!(args, vec!["10", "20", "30.5", "40"]),
        other => panic!("unexpected {other:?}"),
    }
    match parse_debug_command("  dance now \n") {
        Some(DebugCommand::Unknown(c)) => assert_eq!(c, "dance now"),
        other => panic!("unexpected {other:?}"),
    }
    assert!(matches!(parse_debug_command("toggles"), Some(DebugCommand::Unknown(_))));
}

#[test]
fn log_line_format() {
    assert_eq!(log_line(3661, 5, "clear_all"), "[redactor 01:01:01.005] clear_all");
    assert_eq!(log_line(86400 + 23 * 3600 + 59 * 60 + 59, 999, "x"), "[redactor 23:59:59.999] x");
    assert_eq!(log_line(0, 0, ""), "[redactor 00:00:00.000] ");
}
