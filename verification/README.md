# redactor

The verified core of Redactor, a tray tool that draws black boxes over
sensitive parts of the screen and removes them as soon as a screenshot or
screen recording completes.

- `src/` is the library, checked by Verus:
  - `fingerprint`: sparse fingerprint of a clipboard image;
  - `capture`: which files are captures, the baseline snapshot, new captures;
  - `dirs`: the capture folders of each operating system;
  - `paths`: path equality by components;
  - `watcher`: the decisions of the capture watcher's polling loop and its
    timeout;
  - `redactor`: the draw-mode state machine and its effects;
  - `settings`: the toggle shortcut, its config file and its parsing;
  - `debug`: commands of the debug trigger file;
  - `log`, `text`, `bytes`: formatting and string helpers.
- `app/` is the Tauri application that performs the effects (windows, tray,
  global shortcuts, files, clipboard, watcher thread, updater).
- `tests/` exercises the library with concrete values.
