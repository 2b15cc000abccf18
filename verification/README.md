# iv

The verified core of IV, a GTK4/VTE terminal emulator for Linux, and the
application around it.

- `src/` — the library, verified with Verus:
  - `pane` — the split-pane tree of a tab: its model, the recursive node
    operations, focus navigation, split ratios (as binary64 encodings) and
    the laws of the tree.
  - `tab` — the ordered tabs, the active one, and the pane operations of
    the active tab.
  - `terminal` — exit statuses, the choice of shell and working directory,
    the environment of a new shell, and the lifecycle machine of the shell
    process.
  - `workspace` — start configurations and profiles, layout snapshots, the
    rules for loading and replacing the stored files, and the write
    debouncer.
  - `session` — decisions of the window: closing tabs and shells, the
    profile form, quick-pick shortcuts and status texts.
  - `settings`, `text` — defaults and text helpers.
- `tests/` — tests of the library.
- `app/` — the GTK4/libadwaita application: window, VTE terminals, file
  and environment access, serde records of the stored files.
