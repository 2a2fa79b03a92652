//! Commands of the debug trigger file, with which tests drive the
//! application without synthetic input events.

use vstd::prelude::*;
use vstd::string::*;
use crate::text::{same_str, split_whitespace, spec_trim, spec_words, string_views, trim};

verus! {

/// One command read from the trigger file.
#[derive(Debug)]
pub enum DebugCommand {
    /// `toggle`: as the toggle shortcut.
    Toggle,
    /// `exit`: leave draw mode.
    Exit,
    /// `panic`: clear everything.
    Panic,
    /// `simbox x y w h`: draw a box; holds the words after `simbox`.
    SimBox(Vec<String>),
    /// Anything else; holds the whole (trimmed) command.
    Unknown(String),
}

/// Which command the trimmed trigger text `cmd` is, by its first word.
pub open spec fn command_matches(cmd: DebugCommand, text: Seq<char>) -> bool {
    let w = spec_words(text);
    let first = w[0];
    if first == "toggle"@ {
        cmd is Toggle
    } else if first == "exit"@ {
        cmd is Exit
    } else if first == "panic"@ {
        cmd is Panic
    } else if first == "simbox"@ {
        cmd matches DebugCommand::SimBox(args) && string_views(args@) == w.drop_first()
    } else {
        cmd matches DebugCommand::Unknown(c) && c@ == text
    }
}

/// The command in the trigger file's text: none when the text is only
/// white space, otherwise the command named by its first word.
pub fn parse_debug_command(contents: &str) -> (cmd: Option<DebugCommand>)
    ensures
        cmd is None == (spec_trim(contents@).len() == 0),
        cmd matches Some(c) ==> command_matches(c, spec_trim(contents@)),
{
    let text = trim(contents);
    if text.is_empty() {
        return None;
    }
    let mut words = split_whitespace(text);
    proof {
        crate::text::lemma_trimmed_has_words(contents@);
    }
    let first = words.remove(0);
    assert(string_views(words@) =~= spec_words(text@).drop_first());
    if same_str(first.as_str(), "toggle") {
        Some(DebugCommand::Toggle)
    } else if same_str(first.as_str(), "exit") {
        Some(DebugCommand::Exit)
    } else if same_str(first.as_str(), "panic") {
        Some(DebugCommand::Panic)
    } else if same_str(first.as_str(), "simbox") {
        Some(DebugCommand::SimBox(words))
    } else {
        Some(DebugCommand::Unknown(text.to_owned()))
    }
}

} // verus!
