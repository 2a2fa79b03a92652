//! The draw-mode state machine: entering and leaving draw mode, drawing
//! boxes, and clearing everything.
//!
//! Each transition updates the state and returns the [`Effects`] that the
//! application then carries out on windows and on the capture watcher.

use vstd::prelude::*;
use vstd::string::*;
use crate::text::{has_prefix, same_str};

verus! {

/// The part of the application state that draw mode is about.
#[derive(Clone, Copy, Debug, PartialEq, Eq, Structural)]
pub struct DrawMode {
    /// Whether the draw layer is up and takes the mouse.
    pub drawing: bool,
    /// Number of boxes drawn since the last clear.
    pub box_count: u32,
    /// Whether a capture watcher is running.
    pub watcher_running: bool,
}

/// What the application has to do after a transition.
#[derive(Clone, Copy, Debug, PartialEq, Eq, Structural)]
pub struct Effects {
    /// Open the click-through boxes layer on every monitor.
    pub create_box_layer: bool,
    /// Open the interactive draw layer on every monitor.
    pub create_draw_layer: bool,
    /// Start the capture watcher.
    pub start_watcher: bool,
    /// Tell the running capture watcher to stop.
    pub stop_watcher: bool,
    /// Close the draw-layer windows.
    pub close_draw_windows: bool,
    /// Close the boxes-layer windows (the boxes disappear).
    pub close_box_windows: bool,
    /// Restart the watcher's auto-clear countdown.
    pub reset_deadline: bool,
}

/// Doing nothing.
pub open spec fn no_effects() -> Effects {
    Effects {
        create_box_layer: false,
        create_draw_layer: false,
        start_watcher: false,
        stop_watcher: false,
        close_draw_windows: false,
        close_box_windows: false,
        reset_deadline: false,
    }
}

/// The state after everything is cleared.
pub open spec fn idle() -> DrawMode {
    DrawMode { drawing: false, box_count: 0, watcher_running: false }
}

/// The state never draws without a watcher to clear the boxes later.
pub open spec fn consistent(m: DrawMode) -> bool {
    m.drawing ==> m.watcher_running
}

pub open spec fn enter_next(m: DrawMode) -> DrawMode {
    if m.drawing {
        m
    } else {
        DrawMode { drawing: true, watcher_running: true, ..m }
    }
}

/// Entering draw mode opens the boxes layer only when none is up yet (boxes
/// kept from an earlier round stay), always opens the draw layer, and starts
/// a watcher when none runs. Already drawing, it does nothing.
pub open spec fn enter_effects(m: DrawMode, boxes_exist: bool) -> Effects {
    if m.drawing {
        no_effects()
    } else {
        Effects {
            create_box_layer: !boxes_exist,
            create_draw_layer: true,
            start_watcher: !m.watcher_running,
            ..no_effects()
        }
    }
}

pub open spec fn clear_next(m: DrawMode) -> DrawMode {
    idle()
}

/// Clearing stops the watcher, and closes both layers.
pub open spec fn clear_effects(m: DrawMode) -> Effects {
    Effects {
        stop_watcher: m.watcher_running,
        close_draw_windows: true,
        close_box_windows: true,
        ..no_effects()
    }
}

pub open spec fn exit_next(m: DrawMode) -> DrawMode {
    if !m.drawing {
        m
    } else if m.box_count == 0 {
        clear_next(m)
    } else {
        DrawMode { drawing: false, ..m }
    }
}

/// Leaving draw mode closes the draw layer and keeps the boxes up; with no
/// box drawn it clears everything instead. Not drawing, it does nothing.
pub open spec fn exit_effects(m: DrawMode) -> Effects {
    if !m.drawing {
        no_effects()
    } else if m.box_count == 0 {
        clear_effects(m)
    } else {
        Effects { close_draw_windows: true, ..no_effects() }
    }
}

pub open spec fn toggle_next(m: DrawMode) -> DrawMode {
    if m.drawing {
        exit_next(m)
    } else {
        enter_next(m)
    }
}

pub open spec fn toggle_effects(m: DrawMode, boxes_exist: bool) -> Effects {
    if m.drawing {
        exit_effects(m)
    } else {
        enter_effects(m, boxes_exist)
    }
}

pub open spec fn add_box_next(m: DrawMode) -> DrawMode {
    DrawMode { box_count: (m.box_count + 1) as u32, ..m }
}

/// Drawing a box restarts the auto-clear countdown of a running watcher.
pub open spec fn add_box_effects(m: DrawMode) -> Effects {
    Effects { reset_deadline: m.watcher_running, ..no_effects() }
}

/// Every transition keeps the state consistent: draw mode is never on
/// without a watcher running.
pub proof fn lemma_transitions_keep_consistency(m: DrawMode, boxes_exist: bool)
    requires
        consistent(m),
    ensures
        consistent(enter_next(m)),
        consistent(exit_next(m)),
        consistent(clear_next(m)),
        consistent(toggle_next(m)),
        m.box_count < u32::MAX ==> consistent(add_box_next(m)),
{
}

/// Toggling twice without drawing a box returns to the idle state, and the
/// second toggle stops the watcher it started and closes every overlay.
pub proof fn lemma_toggle_twice_without_boxes_is_idle(boxes_exist: bool)
    ensures
        toggle_next(toggle_next(idle())) == idle(),
        toggle_effects(toggle_next(idle()), boxes_exist) == clear_effects(toggle_next(idle())),
        toggle_effects(toggle_next(idle()), boxes_exist).stop_watcher,
        toggle_effects(idle(), boxes_exist).start_watcher,
{
}

/// Leaving draw mode with boxes drawn keeps them: the boxes layer stays,
/// the watcher keeps running and the count is unchanged.
pub proof fn lemma_exit_keeps_boxes(m: DrawMode)
    requires
        m.drawing,
        m.box_count > 0,
    ensures
        !exit_effects(m).close_box_windows,
        !exit_effects(m).stop_watcher,
        exit_effects(m).close_draw_windows,
        exit_next(m).box_count == m.box_count,
        exit_next(m).watcher_running == m.watcher_running,
        !exit_next(m).drawing,
{
}

/// Entering draw mode again while the kept boxes are up adds no boxes layer
/// and no second watcher.
pub proof fn lemma_reenter_after_exit_reuses_boxes(m: DrawMode)
    requires
        consistent(m),
        m.drawing,
        m.box_count > 0,
    ensures
        !enter_effects(exit_next(m), true).create_box_layer,
        !enter_effects(exit_next(m), true).start_watcher,
        enter_effects(exit_next(m), true).create_draw_layer,
        enter_next(exit_next(m)) == m,
{
}

/// Clearing always ends in the idle state with every overlay closed, and
/// clearing twice is the same as clearing once.
pub proof fn lemma_clear_all_is_idle(m: DrawMode)
    ensures
        clear_next(m) == idle(),
        clear_next(clear_next(m)) == clear_next(m),
        clear_effects(m).close_box_windows && clear_effects(m).close_draw_windows,
        !clear_effects(clear_next(m)).stop_watcher,
{
}

/// Entering draw mode while drawing changes nothing and does nothing.
pub proof fn lemma_enter_while_drawing_does_nothing(m: DrawMode, boxes_exist: bool)
    ensures
        enter_next(enter_next(m)) == enter_next(m),
        enter_effects(enter_next(m), boxes_exist) == no_effects(),
{
}

/// Drawing a box counts it and keeps draw mode and the watcher as they are.
pub proof fn lemma_add_box_counts(m: DrawMode)
    requires
        m.box_count < u32::MAX,
    ensures
        add_box_next(m).box_count == m.box_count + 1,
        add_box_next(m).drawing == m.drawing,
        add_box_next(m).watcher_running == m.watcher_running,
        add_box_effects(m).reset_deadline == m.watcher_running,
        !add_box_effects(m).close_box_windows,
{
}

/// No watcher is ever orphaned or doubled: whenever a transition forgets a
/// running watcher it tells that watcher to stop, whenever it starts
/// counting a watcher it asks for one to be started, and a transition never
/// asks to stop a watcher that is not running or to start one while one
/// runs.
pub proof fn lemma_watcher_never_orphaned(m: DrawMode, boxes_exist: bool)
    ensures
        m.watcher_running && !clear_next(m).watcher_running ==> clear_effects(m).stop_watcher,
        m.watcher_running && !exit_next(m).watcher_running ==> exit_effects(m).stop_watcher,
        m.watcher_running && !enter_next(m).watcher_running ==> enter_effects(m, boxes_exist).stop_watcher,
        m.watcher_running && !toggle_next(m).watcher_running ==> toggle_effects(m, boxes_exist).stop_watcher,
        !m.watcher_running && enter_next(m).watcher_running ==> enter_effects(m, boxes_exist).start_watcher,
        !m.watcher_running && toggle_next(m).watcher_running ==> toggle_effects(m, boxes_exist).start_watcher,
        clear_effects(m).stop_watcher ==> m.watcher_running,
        exit_effects(m).stop_watcher ==> m.watcher_running,
        enter_effects(m, boxes_exist).start_watcher ==> !m.watcher_running,
        m.box_count < u32::MAX ==> add_box_next(m).watcher_running == m.watcher_running,
{
}

/// Clearing everything stops a running watcher whatever else the state
/// holds (draw mode on or off, any number of boxes), closes both layers and
/// leaves nothing drawn and no watcher.
pub proof fn lemma_clear_all_stops_running_watcher(drawing: bool, box_count: u32)
    ensures
        clear_effects(DrawMode { drawing, box_count, watcher_running: true }).stop_watcher,
        !clear_effects(DrawMode { drawing, box_count, watcher_running: false }).stop_watcher,
        clear_effects(DrawMode { drawing, box_count, watcher_running: true }).close_box_windows,
        clear_effects(DrawMode { drawing, box_count, watcher_running: true }).close_draw_windows,
        clear_next(DrawMode { drawing, box_count, watcher_running: true }) == (DrawMode {
            drawing: false,
            box_count: 0,
            watcher_running: false,
        }),
{
}

/// Draw, keep the boxes, then clear: after entering draw mode, drawing boxes
/// and leaving with the boxes kept, the watcher still runs, and clearing
/// then tells it to stop.
pub proof fn lemma_kept_boxes_then_clear_stops_watcher(boxes_exist: bool, n: u32)
    requires
        0 < n < u32::MAX,
    ensures
        ({
            let drawn = DrawMode { drawing: true, box_count: n, watcher_running: true };
            &&& exit_next(drawn) == (DrawMode { drawing: false, box_count: n, watcher_running: true })
            &&& clear_effects(exit_next(drawn)).stop_watcher
            &&& clear_effects(exit_next(drawn)).close_box_windows
        }),
{
}

/// The application's state. It never draws without a watcher running.
pub struct RedactorState {
    /// Draw mode, boxes and watcher.
    pub(crate) mode: DrawMode,
    /// The registered toggle shortcut, as an accelerator string such as
    /// `CmdOrCtrl+Alt+B`.
    pub(crate) toggle_shortcut: String,
}

impl RedactorState {
    #[verifier::type_invariant]
    spec fn state_consistent(self) -> bool {
        consistent(self.mode)
    }

    /// Draw mode, boxes and watcher.
    pub closed spec fn draw_mode(self) -> DrawMode {
        self.mode
    }

    /// The registered toggle shortcut.
    pub closed spec fn shortcut(self) -> Seq<char> {
        self.toggle_shortcut@
    }

    /// Draw mode, boxes and watcher; always consistent.
    pub fn mode(&self) -> (m: DrawMode)
        ensures
            m == self.draw_mode(),
            consistent(m),
    {
        proof {
            use_type_invariant(self);
        }
        self.mode
    }

    /// The state at launch: idle, with the given toggle shortcut.
    pub fn new(toggle_shortcut: String) -> (s: RedactorState)
        ensures
            s.draw_mode() == idle(),
            s.shortcut() == toggle_shortcut@,
    {
        RedactorState {
            mode: DrawMode { drawing: false, box_count: 0, watcher_running: false },
            toggle_shortcut,
        }
    }

    /// Enters draw mode; `boxes_exist` tells whether boxes windows are up.
    pub fn enter_draw_mode(&mut self, boxes_exist: bool) -> (e: Effects)
        ensures
            final(self).draw_mode() == enter_next(old(self).draw_mode()),
            e == enter_effects(old(self).draw_mode(), boxes_exist),
            final(self).shortcut() == old(self).shortcut(),
    {
        proof {
            use_type_invariant(&*self);
        }
        if self.mode.drawing {
            return Effects {
                create_box_layer: false,
                create_draw_layer: false,
                start_watcher: false,
                stop_watcher: false,
                close_draw_windows: false,
                close_box_windows: false,
                reset_deadline: false,
            };
        }
        let start_watcher = !self.mode.watcher_running;
        self.mode.watcher_running = true;
        self.mode.drawing = true;
        Effects {
            create_box_layer: !boxes_exist,
            create_draw_layer: true,
            start_watcher,
            stop_watcher: false,
            close_draw_windows: false,
            close_box_windows: false,
            reset_deadline: false,
        }
    }

    /// Clears everything: stops the watcher, forgets the boxes, closes all
    /// overlay windows. Also what a completed capture or the timeout does.
    pub fn clear_all(&mut self) -> (e: Effects)
        ensures
            final(self).draw_mode() == clear_next(old(self).draw_mode()),
            e == clear_effects(old(self).draw_mode()),
            e.stop_watcher == old(self).draw_mode().watcher_running,
            e.close_draw_windows && e.close_box_windows,
            !final(self).draw_mode().watcher_running && !final(self).draw_mode().drawing
                && final(self).draw_mode().box_count == 0,
            final(self).shortcut() == old(self).shortcut(),
    {
        let stop_watcher = self.mode.watcher_running;
        self.mode = DrawMode { drawing: false, box_count: 0, watcher_running: false };
        Effects {
            create_box_layer: false,
            create_draw_layer: false,
            start_watcher: false,
            stop_watcher,
            close_draw_windows: true,
            close_box_windows: true,
            reset_deadline: false,
        }
    }

    /// Leaves draw mode, keeping the boxes on screen (they stay until a
    /// capture completes, the timeout fires or a clear is asked for).
    pub fn exit_draw_mode(&mut self) -> (e: Effects)
        ensures
            final(self).draw_mode() == exit_next(old(self).draw_mode()),
            e == exit_effects(old(self).draw_mode()),
            final(self).shortcut() == old(self).shortcut(),
    {
        proof {
            use_type_invariant(&*self);
        }
        if !self.mode.drawing {
            return Effects {
                create_box_layer: false,
                create_draw_layer: false,
                start_watcher: false,
                stop_watcher: false,
                close_draw_windows: false,
                close_box_windows: false,
                reset_deadline: false,
            };
        }
        self.mode.drawing = false;
        if self.mode.box_count == 0 {
            return self.clear_all();
        }
        Effects {
            create_box_layer: false,
            create_draw_layer: false,
            start_watcher: false,
            stop_watcher: false,
            close_draw_windows: true,
            close_box_windows: false,
            reset_deadline: false,
        }
    }

    /// The toggle shortcut: leaves draw mode when drawing, enters it
    /// otherwise.
    pub fn toggle(&mut self, boxes_exist: bool) -> (e: Effects)
        ensures
            final(self).draw_mode() == toggle_next(old(self).draw_mode()),
            e == toggle_effects(old(self).draw_mode(), boxes_exist),
            final(self).shortcut() == old(self).shortcut(),
    {
        if self.mode.drawing {
            self.exit_draw_mode()
        } else {
            self.enter_draw_mode(boxes_exist)
        }
    }

    /// Counts one more drawn box.
    pub fn add_box_internal(&mut self) -> (e: Effects)
        requires
            old(self).draw_mode().box_count < u32::MAX,
        ensures
            final(self).draw_mode() == add_box_next(old(self).draw_mode()),
            e == add_box_effects(old(self).draw_mode()),
            final(self).shortcut() == old(self).shortcut(),
    {
        proof {
            use_type_invariant(&*self);
        }
        self.mode.box_count = self.mode.box_count + 1;
        Effects {
            create_box_layer: false,
            create_draw_layer: false,
            start_watcher: false,
            stop_watcher: false,
            close_draw_windows: false,
            close_box_windows: false,
            reset_deadline: self.mode.watcher_running,
        }
    }

    /// Records the toggle shortcut in use (loaded at launch, or changed once
    /// registered and saved).
    pub fn commit_toggle_shortcut(&mut self, shortcut: String)
        ensures
            final(self).shortcut() == shortcut@,
            final(self).draw_mode() == old(self).draw_mode(),
    {
        proof {
            use_type_invariant(&*self);
        }
        self.toggle_shortcut = shortcut;
    }

    /// The registered toggle shortcut.
    pub fn get_toggle_shortcut(&self) -> (s: String)
        ensures
            s@ == self.shortcut(),
    {
        self.toggle_shortcut.clone()
    }
}

/// The label of the boxes window that belongs to the draw window labelled
/// `draw_label`: `boxes-` followed by what comes after `draw-`, or by `0`
/// when the label does not start with `draw-`.
pub open spec fn spec_box_layer_label(draw_label: Seq<char>) -> Seq<char> {
    if 5 <= draw_label.len() && draw_label.take(5) == "draw-"@ {
        "boxes-"@ + draw_label.skip(5)
    } else {
        "boxes-"@ + "0"@
    }
}

/// Where a box drawn in the window labelled `draw_label` is shown.
pub fn box_layer_label(draw_label: &str) -> (label: String)
    ensures
        label@ == spec_box_layer_label(draw_label@),
{
    let prefix = "draw-";
    proof {
        reveal_strlit("draw-");
    }
    let mut label = "boxes-".to_owned();
    if has_prefix(draw_label, prefix) {
        let n = draw_label.unicode_len();
        let rest = draw_label.substring_char(5, n);
        label.append(rest);
        assert(rest@ =~= draw_label@.skip(5));
    } else {
        label.append("0");
    }
    label
}

/// The positions of the window labels that start with `prefix`, in order.
pub fn windows_with_prefix(labels: &Vec<String>, prefix: &str) -> (idx: Vec<usize>)
    ensures
        forall|k: int| 0 <= k < idx@.len() ==> #[trigger] idx@[k] < labels@.len(),
        forall|k: int, l: int| 0 <= k < l < idx@.len() ==> idx@[k] < idx@[l],
        forall|i: int|
            0 <= i < labels@.len() ==> (idx@.contains(i as usize) <==> (prefix@.len()
                <= labels@[i]@.len() && labels@[i]@.take(prefix@.len() as int) == prefix@)),
{
    let mut idx: Vec<usize> = Vec::new();
    let mut i: usize = 0;
    while i < labels.len()
        invariant
            i <= labels@.len(),
            forall|k: int| 0 <= k < idx@.len() ==> #[trigger] idx@[k] < i,
            forall|k: int, l: int| 0 <= k < l < idx@.len() ==> idx@[k] < idx@[l],
            forall|j: int|
                0 <= j < i ==> (idx@.contains(j as usize) <==> (prefix@.len() <= labels@[j]@.len()
                    && labels@[j]@.take(prefix@.len() as int) == prefix@)),
        decreases labels@.len() - i,
    {
        let ghost before = idx@;
        if has_prefix(labels[i].as_str(), prefix) {
            idx.push(i);
        }
        assert forall|j: int| 0 <= j <= i implies (#[trigger] idx@.contains(j as usize) <==> (
        before.contains(j as usize) || (j == i && idx@.len() > before.len()))) by {
            if idx@.contains(j as usize) {
                let k = choose|k: int| 0 <= k < idx@.len() && idx@[k] == j as usize;
                if k < before.len() {
                    assert(before[k] == idx@[k]);
                }
            }
            if before.contains(j as usize) {
                let k = choose|k: int| 0 <= k < before.len() && before[k] == j as usize;
                assert(idx@[k] == before[k]);
            }
            if j == i && idx@.len() > before.len() {
                assert(idx@[before.len() as int] == i);
            }
        }
        assert(!before.contains(i));
        i = i + 1;
    }
    idx
}

/// What a tray menu entry does.
#[derive(Clone, Copy, Debug, PartialEq, Eq, Structural)]
pub enum MenuAction {
    /// `toggle`: toggle draw mode.
    Toggle,
    /// `settings`: open the settings window.
    OpenSettings,
    /// `quit`: quit the application.
    Quit,
    /// Any other entry: nothing.
    Nothing,
}

/// The action of the tray menu entry with id `id`.
pub fn menu_action(id: &str) -> (a: MenuAction)
    ensures
        a == (if id@ == "toggle"@ {
            MenuAction::Toggle
        } else if id@ == "settings"@ {
            MenuAction::OpenSettings
        } else if id@ == "quit"@ {
            MenuAction::Quit
        } else {
            MenuAction::Nothing
        }),
{
    if same_str(id, "toggle") {
        MenuAction::Toggle
    } else if same_str(id, "settings") {
        MenuAction::OpenSettings
    } else if same_str(id, "quit") {
        MenuAction::Quit
    } else {
        MenuAction::Nothing
    }
}

/// Whether a request to exit is refused so that the tray application keeps
/// running: a request without an exit code comes from the last window
/// closing, one with a code from an explicit quit.
pub fn keeps_running(exit_code: Option<i32>) -> (keep: bool)
    ensures
        keep == exit_code is None,
{
    exit_code.is_none()
}

} // verus!
