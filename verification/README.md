# Desktop shell library

The desktop environment of a small x86-64 operating system: a software
compositor with a back buffer, windows, a dock and start menu, a file manager,
a settings window and a radiation (bit-flip) simulator.

`src/` is the library, verified with Verus; the one function taken on trust is
`strings::str_from_utf8`, a wrapper around `core::str::from_utf8` whose
contract states that it accepts exactly valid UTF-8 and returns the same bytes:

- `canvas`: the back buffer, its pixels and alpha blending.
- `graphics`: rectangles, rounded rectangles and their outlines, lines,
  gradients, window shadows, bitmap and anti-aliased text, the sidebar, file
  manager and dock icons, the mouse cursor, window caches, the application
  grid and the wallpaper's star field.
- `desktop`: windows and their stacking order, and the decisions taken on
  keyboard, mouse and serial input, on each animation tick and on each frame
  (which regions are redrawn, how each window is painted, how the frame
  reaches the display).
- `file_manager`: directory navigation, scrolling, the modal dialogs, mouse
  and keyboard handling, and what the window shows.
- `dirty`, `state`, `input`, `radiation`, `settings`, `strings`: redraw
  regions, the search query and window caches, cursor tracking, the
  simulator's log, the settings window and byte-string helpers.

`app/` is the program around it: system calls, the main loop, and what works
on floating-point values (corner coverage, the dock icons' proportions, the
nebula bands). `tests/` runs the library on concrete values.
