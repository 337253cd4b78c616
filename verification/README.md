# sub_ui

The panel logic of the Subordinate video editor's window, verified with Verus.

- `src/` is the library. Every function in it carries a `requires` / `ensures`
  contract that Verus proves, and the promises that span several calls stand as
  public proof functions named `law_*`. It holds the state each panel keeps
  (export choices and progress, the media bin's sort and folders, the history
  list, markers, fades, the inspector's edits, the plugin menu, the keymap), the
  rules that turn a gesture into an edit, the text the panels show, the import
  and export bookkeeping, the Command API bind state, and the planner behind live
  timeline audio.
- `tests/` exercises the library on concrete values.
- `app/` is the window's plumbing that Verus does not see: reading and writing
  the per-user configuration files, the egui and egui_dock glue, the meters
  (which are floating point), and the conversions between the library's types
  and their serde copies.

Calls into outside crates that the logic makes (egui's key names, TOML
parsing, lower-casing) go through a handful of small trusted wrappers whose
contracts say what the outside function returns; everything built on them is
proved.
