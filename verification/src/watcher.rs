//! The decisions of the capture watcher: the loop that notices a completed
//! screenshot or recording and then clears the boxes.
//!
//! Each round the watcher pauses, then looks at the capture folders and the
//! clipboard; [`CaptureWatch::poll`] says what follows from what it saw.

use vstd::prelude::*;
use crate::capture::{
    CaptureEntry,
    CaptureSet,
    find_new_capture,
    snapshot_captures,
    spec_find_new_capture,
    spec_snapshot,
};

verus! {

/// Pause between two rounds, in milliseconds.
pub const POLL_INTERVAL_MS: u64 = 500;

/// How long boxes stay up when no capture happens, in seconds.
pub const WATCH_TIMEOUT_SECS: u64 = 120;

/// The same span in milliseconds.
pub const WATCH_TIMEOUT_MS: u64 = 120_000;

/// The moment (in milliseconds on the watcher's clock) at which a watch
/// that saw activity at `now_ms` times out.
pub open spec fn spec_deadline_from(now_ms: u64) -> u64 {
    if now_ms + WATCH_TIMEOUT_MS <= u64::MAX {
        (now_ms + WATCH_TIMEOUT_MS) as u64
    } else {
        u64::MAX
    }
}

/// The deadline set when a watch starts and reset whenever a box is drawn:
/// the timeout after `now_ms`.
pub fn deadline_from(now_ms: u64) -> (deadline_ms: u64)
    ensures
        deadline_ms == spec_deadline_from(now_ms),
{
    if now_ms <= u64::MAX - WATCH_TIMEOUT_MS {
        now_ms + WATCH_TIMEOUT_MS
    } else {
        u64::MAX
    }
}

/// At the start of each round: whether the watch has timed out, so that it
/// ends (and clears, see [`clears_on_exit`]).
pub fn timed_out(now_ms: u64, deadline_ms: u64) -> (expired: bool)
    ensures
        expired == (now_ms >= deadline_ms),
{
    now_ms >= deadline_ms
}

/// Boxes left alone clear themselves after the timeout: once the timeout has
/// passed since the last activity (the watch's start or the last box drawn)
/// the watch times out and, unless stopped, clears; before that it does not
/// time out.
pub proof fn lemma_unattended_boxes_clear(last_activity_ms: u64, now_ms: u64)
    requires
        last_activity_ms + WATCH_TIMEOUT_MS <= u64::MAX,
    ensures
        now_ms >= last_activity_ms + WATCH_TIMEOUT_MS ==> now_ms >= spec_deadline_from(
            last_activity_ms,
        ),
        now_ms < last_activity_ms + WATCH_TIMEOUT_MS ==> now_ms < spec_deadline_from(
            last_activity_ms,
        ),
        spec_deadline_from(last_activity_ms) == last_activity_ms + WATCH_TIMEOUT_SECS * 1000,
{
}

/// What a round of watching concluded.
#[derive(Debug)]
pub enum PollOutcome {
    /// Nothing completed yet: pause and look again.
    Continue,
    /// A stop was requested: end without touching anything.
    Stopped,
    /// This capture file appeared since the watch started.
    CaptureFile(Vec<u8>),
    /// A new image was put on the clipboard.
    ClipboardImage,
}

/// What the watcher remembers between rounds.
pub struct CaptureWatch {
    clip_baseline: Option<u64>,
    file_baseline: CaptureSet,
}

impl CaptureWatch {
    /// Fingerprint of the clipboard image last seen (none when the clipboard
    /// held no image).
    pub closed spec fn clip_baseline(self) -> Option<u64> {
        self.clip_baseline
    }

    /// The capture files that existed when the watch started.
    pub closed spec fn file_baseline(self) -> Set<Seq<u8>> {
        self.file_baseline.view()
    }

    /// Starts a watch from the clipboard's fingerprint and the listing of
    /// the capture folders at this moment.
    pub fn new(clip_baseline: Option<u64>, entries: &Vec<CaptureEntry>) -> (w: CaptureWatch)
        ensures
            w.clip_baseline() == clip_baseline,
            w.file_baseline() == spec_snapshot(entries@),
    {
        CaptureWatch { clip_baseline, file_baseline: snapshot_captures(entries) }
    }

    /// Fingerprint of the clipboard image last seen.
    pub fn clipboard_baseline(&self) -> (b: Option<u64>)
        ensures
            b == self.clip_baseline(),
    {
        self.clip_baseline
    }

    /// Number of capture files in the baseline.
    pub fn baseline_len(&self) -> (n: usize)
        ensures
            n == self.file_baseline().len(),
    {
        self.file_baseline.len()
    }

    /// One round, after the pause: a requested stop ends the watch quietly;
    /// otherwise a new capture file, then a new clipboard image, completes it.
    /// A clipboard that changed to something that is not an image becomes the
    /// new baseline and the watch goes on.
    pub fn poll(&mut self, stop_requested: bool, entries: &Vec<CaptureEntry>, clipboard: Option<u64>) -> (out: PollOutcome)
        ensures
            final(self).file_baseline() == old(self).file_baseline(),
            stop_requested ==> out is Stopped && final(self).clip_baseline() == old(self).clip_baseline(),
            !stop_requested && spec_find_new_capture(entries@, old(self).file_baseline()) is Some ==> {
                &&& out matches PollOutcome::CaptureFile(p) && Some(p@) == spec_find_new_capture(
                    entries@,
                    old(self).file_baseline(),
                )
                &&& final(self).clip_baseline() == old(self).clip_baseline()
            },
            !stop_requested && spec_find_new_capture(entries@, old(self).file_baseline()) is None ==> {
                &&& clipboard == old(self).clip_baseline() ==> out is Continue
                    && final(self).clip_baseline() == old(self).clip_baseline()
                &&& clipboard != old(self).clip_baseline() && clipboard is Some ==> out is ClipboardImage
                    && final(self).clip_baseline() == old(self).clip_baseline()
                &&& clipboard != old(self).clip_baseline() && clipboard is None ==> out is Continue
                    && final(self).clip_baseline() is None
            },
    {
        if stop_requested {
            return PollOutcome::Stopped;
        }
        match find_new_capture(entries, &self.file_baseline) {
            Some(p) => {
                return PollOutcome::CaptureFile(p);
            },
            None => {},
        }
        let changed = match (clipboard, self.clip_baseline) {
            (Some(a), Some(b)) => a != b,
            (None, None) => false,
            _ => true,
        };
        if changed {
            if clipboard.is_some() {
                return PollOutcome::ClipboardImage;
            }
            self.clip_baseline = clipboard;
        }
        PollOutcome::Continue
    }
}

/// Whether a watch that ended (by timeout or by a completed capture) clears
/// the boxes: it does unless a stop was requested meanwhile.
pub fn clears_on_exit(stop_requested: bool) -> (clear: bool)
    ensures
        clear == !stop_requested,
{
    !stop_requested
}

} // verus!
