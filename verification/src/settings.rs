//! The toggle shortcut: reading and writing it in the config file, checking
//! it, and changing it.

use vstd::prelude::*;
use vstd::string::*;
use global_hotkey::hotkey::HotKey;
use crate::redactor::RedactorState;

verus! {

/// The toggle shortcut used when the config file names none.
pub const DEFAULT_TOGGLE_SHORTCUT: &'static str = "CmdOrCtrl+Alt+B";

/// The shortcut that clears everything at any time.
pub const PANIC_SHORTCUT: &'static str = "CmdOrCtrl+Alt+Shift+B";

/// The config file member that holds the toggle shortcut.
pub const TOGGLE_KEY: &'static str = "toggle";

/// The string member `key` of the JSON object in `text`, as serde_json reads
/// it; none when `text` is not JSON, not an object, or has no such string
/// member.
pub uninterp spec fn json_str_member(text: Seq<char>, key: Seq<char>) -> Option<Seq<char>>;

/// Lower-case hexadecimal digit `d` (below 16).
pub open spec fn hex_digit(d: int) -> char {
    if d < 10 {
        (48 + d) as char
    } else {
        (87 + d) as char
    }
}

/// How serde_json writes one character inside a JSON string: `"` and `\`
/// and the control characters below U+0020 are escaped (`\b`, `\t`, `\n`,
/// `\f`, `\r`, otherwise `\u00` and two lower-case hex digits); every other
/// character is written as it is.
pub open spec fn json_escape_char(c: char) -> Seq<char> {
    let u = c as u32;
    if c == '"' {
        seq!['\\', '"']
    } else if c == '\\' {
        seq!['\\', '\\']
    } else if u == 0x08 {
        seq!['\\', 'b']
    } else if u == 0x09 {
        seq!['\\', 't']
    } else if u == 0x0A {
        seq!['\\', 'n']
    } else if u == 0x0C {
        seq!['\\', 'f']
    } else if u == 0x0D {
        seq!['\\', 'r']
    } else if u < 0x20 {
        seq!['\\', 'u', '0', '0', hex_digit(u as int / 16), hex_digit(u as int % 16)]
    } else {
        seq![c]
    }
}

/// The escaped contents of a JSON string.
pub open spec fn json_escape(s: Seq<char>) -> Seq<char>
    decreases s.len(),
{
    if s.len() == 0 {
        Seq::<char>::empty()
    } else {
        json_escape_char(s[0]) + json_escape(s.drop_first())
    }
}

/// A JSON string literal as serde_json writes it.
pub open spec fn json_string_literal(s: Seq<char>) -> Seq<char> {
    seq!['"'] + json_escape(s) + seq!['"']
}

/// The text serde_json's pretty printer writes for the JSON object with the
/// one string member `key: value`:
/// `{`, newline, two spaces, `"key": "value"`, newline, `}`.
pub open spec fn pretty_json_object(key: Seq<char>, value: Seq<char>) -> Seq<char> {
    seq!['{', '\n', ' ', ' '] + json_string_literal(key) + seq![':', ' '] + json_string_literal(
        value,
    ) + seq!['\n', '}']
}

/// Whether `HotKey::from_str` of the `global-hotkey` crate accepts `text`.
pub uninterp spec fn shortcut_parses(text: Seq<char>) -> bool;

#[verifier::external_type_specification]
#[verifier::external_body]
pub struct ExHotKey(HotKey);

/// Calls `serde_json::from_str::<serde_json::Value>` on `text`, then takes the
/// member `key` when it is a `Value::String` (what `Value::get` followed by
/// `Value::as_str` returns). The contract only names the outcome, a function
/// of the two strings.
#[verifier::external_body]
fn json_string_member(text: &str, key: &str) -> (r: Option<String>)
    ensures
        match r {
            Some(s) => json_str_member(text@, key@) == Some(s@),
            None => json_str_member(text@, key@) is None,
        },
{
    let value: serde_json::Value = match serde_json::from_str(text) {
        Ok(v) => v,
        Err(_) => return None,
    };
    match value.get(key) {
        Some(serde_json::Value::String(s)) => Some(s.clone()),
        _ => None,
    }
}

/// Calls `serde_json::to_string_pretty` on the one-entry map `{key: value}`
/// (a map is written as a JSON object, as `serde_json::json!` builds it).
/// The contract states the text (the pretty formatter's layout and the
/// serializer's escape table), and that serde_json reads `value` back as
/// member `key` of it: its parser undoes exactly those escapes. Writing a map with string keys cannot fail
/// (`to_string_pretty` fails only on a failing `Serialize` or on non-string
/// keys), so the `unwrap` never panics.
#[verifier::external_body]
fn pretty_json_object_text(key: &str, value: &str) -> (r: String)
    ensures
        r@ == pretty_json_object(key@, value@),
        json_str_member(r@, key@) == Some(value@),
{
    let object = std::collections::BTreeMap::from([(key, value)]);
    serde_json::to_string_pretty(&object).unwrap()
}

/// Calls `HotKey::from_str` of `global-hotkey` (the parser of the global
/// shortcut plugin's `Shortcut`), keeping the hotkey on success. The contract
/// states only whether it succeeds: which modifier `CmdOrCtrl` stands for
/// depends on the operating system, so the hotkey itself is not named.
#[verifier::external_body]
fn parse_shortcut(text: &str) -> (r: Option<HotKey>)
    ensures
        r is Some == shortcut_parses(text@),
{
    text.parse::<HotKey>().ok()
}

/// The toggle shortcut that a config file holds: its string member
/// `toggle`, or the default when there is no file or no such member.
pub open spec fn spec_load_toggle_shortcut(config_text: Option<Seq<char>>) -> Seq<char> {
    match config_text {
        Some(t) => match json_str_member(t, TOGGLE_KEY@) {
            Some(s) => s,
            None => DEFAULT_TOGGLE_SHORTCUT@,
        },
        None => DEFAULT_TOGGLE_SHORTCUT@,
    }
}

/// The toggle shortcut for the config's `toggle` member as serde_json read
/// it: that member, or the default when there is none.
pub fn toggle_shortcut_from_member(member: Option<String>) -> (s: String)
    ensures
        s@ == match member {
            Some(m) => m@,
            None => DEFAULT_TOGGLE_SHORTCUT@,
        },
{
    match member {
        Some(m) => m,
        None => DEFAULT_TOGGLE_SHORTCUT.to_owned(),
    }
}

/// The toggle shortcut from the config file's text (none when the file
/// could not be read).
pub fn load_toggle_shortcut(config_text: Option<&str>) -> (shortcut: String)
    ensures
        shortcut@ == spec_load_toggle_shortcut(
            match config_text {
                Some(t) => Some(t@),
                None => None,
            },
        ),
{
    match config_text {
        Some(t) => toggle_shortcut_from_member(json_string_member(t, TOGGLE_KEY)),
        None => toggle_shortcut_from_member(None),
    }
}

/// The config file's text that records `shortcut` as the toggle shortcut.
/// Reading that text back gives `shortcut` again.
pub fn config_body(shortcut: &str) -> (body: String)
    ensures
        body@ == pretty_json_object(TOGGLE_KEY@, shortcut@),
        spec_load_toggle_shortcut(Some(body@)) == shortcut@,
{
    pretty_json_object_text(TOGGLE_KEY, shortcut)
}

/// The panic shortcut as a hotkey; none when it does not parse.
pub fn panic_hotkey() -> (k: Option<HotKey>)
    ensures
        k is Some == shortcut_parses(PANIC_SHORTCUT@),
{
    parse_shortcut(PANIC_SHORTCUT)
}

/// What changing the toggle shortcut takes: the new hotkey to register,
/// and the old one to unregister first when the old string parses.
pub struct ShortcutChange {
    /// The new hotkey.
    pub register: HotKey,
    /// The old hotkey, when the old string parses.
    pub unregister: Option<HotKey>,
}

/// How putting a new toggle shortcut in place went.
#[derive(Clone, Copy, Debug)]
pub enum ShortcutChangeOutcome {
    /// Registering the new hotkey failed.
    RegisterFailed,
    /// The new hotkey is registered but the config file could not be written.
    SaveFailed,
    /// Registered and saved.
    Saved,
}

/// What undoes a failed change: a hotkey to unregister, then one to register.
pub struct Rollback {
    pub unregister: Option<HotKey>,
    pub register: Option<HotKey>,
}

/// The message shown for a shortcut that does not parse.
pub open spec fn invalid_shortcut_message(shortcut: Seq<char>) -> Seq<char> {
    "invalid shortcut: "@ + shortcut
}

/// The change that follows from parsing the new shortcut text
/// (`register`) and the old one (`unregister`): the error message when the
/// new text did not parse, otherwise the new hotkey to register and the old
/// one to unregister.
pub fn shortcut_change(register: Option<HotKey>, unregister: Option<HotKey>, shortcut: &str) -> (r:
    Result<ShortcutChange, String>)
    ensures
        register is None ==> (r matches Err(m) && m@ == invalid_shortcut_message(shortcut@)),
        register matches Some(k) ==> (r matches Ok(c) && c.register == k && c.unregister
            == unregister),
{
    match register {
        Some(k) => Ok(ShortcutChange { register: k, unregister }),
        None => {
            let mut msg = "invalid shortcut: ".to_owned();
            msg.append(shortcut);
            Err(msg)
        },
    }
}

/// What a pressed global shortcut does.
#[derive(Clone, Copy, Debug, PartialEq, Eq, Structural)]
pub enum ShortcutAction {
    /// Clear everything.
    ClearAll,
    /// Toggle draw mode.
    Toggle,
}

/// Calls `PartialEq::eq` of `HotKey` (derived: it compares the modifiers,
/// the key and the id), which is equality of the two values.
#[verifier::external_body]
fn same_hotkey(a: &HotKey, b: &HotKey) -> (r: bool)
    ensures
        r == (*a == *b),
{
    a == b
}

/// The action of a pressed shortcut: the panic hotkey clears everything;
/// any other registered shortcut is the toggle.
pub fn shortcut_action(pressed: &HotKey, panic: Option<HotKey>) -> (a: ShortcutAction)
    ensures
        a == (if panic == Some(*pressed) {
            ShortcutAction::ClearAll
        } else {
            ShortcutAction::Toggle
        }),
{
    match panic {
        Some(p) => {
            if same_hotkey(&p, pressed) {
                ShortcutAction::ClearAll
            } else {
                ShortcutAction::Toggle
            }
        },
        None => ShortcutAction::Toggle,
    }
}

impl RedactorState {
    /// The registered toggle shortcut as a hotkey; none when the stored
    /// string does not parse.
    pub fn toggle_hotkey(&self) -> (k: Option<HotKey>)
        ensures
            k is Some == shortcut_parses(self.shortcut()),
    {
        parse_shortcut(self.get_toggle_shortcut().as_str())
    }

    /// Checks a new toggle shortcut: an error message when it does not
    /// parse (the old shortcut then stays), otherwise the hotkeys to
    /// register (the new one) and to unregister (the old one).
    pub fn plan_shortcut_change(&self, shortcut: &str) -> (r: Result<ShortcutChange, String>)
        ensures
            r is Ok == shortcut_parses(shortcut@),
            r matches Err(msg) ==> msg@ == invalid_shortcut_message(shortcut@),
            r matches Ok(c) ==> (c.unregister is Some == shortcut_parses(self.shortcut())),
    {
        let register = parse_shortcut(shortcut);
        let unregister = match register {
            Some(_) => parse_shortcut(self.get_toggle_shortcut().as_str()),
            None => None,
        };
        shortcut_change(register, unregister, shortcut)
    }

    /// Concludes a change of the toggle shortcut planned by
    /// [`RedactorState::plan_shortcut_change`], once registering the new
    /// hotkey and saving the config were tried. Only a saved change is
    /// recorded; on an error the old shortcut stays in use: the returned
    /// rollback unregisters the new hotkey when it was registered, and
    /// registers the old one again.
    pub fn finish_shortcut_change(
        &mut self,
        change: &ShortcutChange,
        shortcut: String,
        outcome: ShortcutChangeOutcome,
    ) -> (rollback: Rollback)
        ensures
            outcome is Saved ==> {
                &&& final(self).shortcut() == shortcut@
                &&& rollback.unregister is None
                &&& rollback.register is None
            },
            outcome is RegisterFailed ==> {
                &&& final(self).shortcut() == old(self).shortcut()
                &&& rollback.unregister is None
                &&& rollback.register == change.unregister
            },
            outcome is SaveFailed ==> {
                &&& final(self).shortcut() == old(self).shortcut()
                &&& rollback.unregister == Some(change.register)
                &&& rollback.register == change.unregister
            },
            final(self).draw_mode() == old(self).draw_mode(),
    {
        match outcome {
            ShortcutChangeOutcome::Saved => {
                self.commit_toggle_shortcut(shortcut);
                Rollback { unregister: None, register: None }
            },
            ShortcutChangeOutcome::RegisterFailed => Rollback {
                unregister: None,
                register: change.unregister,
            },
            ShortcutChangeOutcome::SaveFailed => Rollback {
                unregister: Some(change.register),
                register: change.unregister,
            },
        }
    }
}

} // verus!
