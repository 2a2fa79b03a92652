//! The time-stamped diagnostic line written for each state transition.

use vstd::prelude::*;
use vstd::string::*;

verus! {

pub const SECS_PER_DAY: u64 = 86400;

/// The decimal digit `d`.
pub open spec fn digit(d: int) -> char {
    "0123456789"@[d]
}

/// `n` in two decimal digits (for `n` below 100).
pub open spec fn pad2(n: int) -> Seq<char> {
    seq![digit(n / 10), digit(n % 10)]
}

/// `n` in three decimal digits (for `n` below 1000).
pub open spec fn pad3(n: int) -> Seq<char> {
    seq![digit(n / 100), digit((n / 10) % 10), digit(n % 10)]
}

/// `[redactor HH:MM:SS.mmm] msg`, with the time of day (UTC) of the given
/// moment since the Unix epoch.
pub open spec fn spec_log_line(epoch_secs: u64, subsec_millis: u32, msg: Seq<char>) -> Seq<char> {
    let secs = (epoch_secs % SECS_PER_DAY) as int;
    "[redactor "@ + pad2(secs / 3600) + ":"@ + pad2((secs % 3600) / 60) + ":"@ + pad2(secs % 60)
        + "."@ + pad3(subsec_millis as int) + "] "@ + msg
}

fn push_digit(s: &mut String, d: u64)
    requires
        d < 10,
    ensures
        final(s)@ == old(s)@ + seq![digit(d as int)],
{
    let digits = "0123456789";
    proof {
        reveal_strlit("0123456789");
    }
    let one = digits.substring_char(d as usize, (d + 1) as usize);
    s.append(one);
    assert(one@ =~= seq![digit(d as int)]);
}

/// The diagnostic line for `msg` at `epoch_secs` seconds and
/// `subsec_millis` milliseconds after the Unix epoch.
pub fn log_line(epoch_secs: u64, subsec_millis: u32, msg: &str) -> (line: String)
    requires
        subsec_millis < 1000,
    ensures
        line@ == spec_log_line(epoch_secs, subsec_millis, msg@),
{
    let secs = epoch_secs % SECS_PER_DAY;
    let h = secs / 3600;
    let m = (secs % 3600) / 60;
    let sec = secs % 60;
    let ms = subsec_millis as u64;
    let mut line = "[redactor ".to_owned();
    push_digit(&mut line, h / 10);
    push_digit(&mut line, h % 10);
    line.append(":");
    push_digit(&mut line, m / 10);
    push_digit(&mut line, m % 10);
    line.append(":");
    push_digit(&mut line, sec / 10);
    push_digit(&mut line, sec % 10);
    line.append(".");
    push_digit(&mut line, ms / 100);
    push_digit(&mut line, (ms / 10) % 10);
    push_digit(&mut line, ms % 10);
    line.append("] ");
    line.append(msg);
    assert(line@ =~= spec_log_line(epoch_secs, subsec_millis, msg@));
    line
}

} // verus!
