# chronos_engine

The Chronos game engine's core and editor logic as a Verus-verified library.

- `src/` — the verified library: the generational ECS world and its
  components, the undo/redo stack and its commands, the asset registry and
  loader, the sound cache, the project manager and recent-project list, the
  command-line tool's argument parsing and file texts, the docking layout and
  keyboard shortcuts and what each shortcut does, auto-save timing, animation
  transition conditions, the editor settings and window title, and the state and decisions of the
  editor panels (console, hierarchy, inspector, menu bar, toolbar, viewport,
  welcome screen, developer overlay). Single-precision values are held as
  their bit patterns; `f32::clamp` and fixed-point formatting are proved on
  those patterns.
- `tests/` — tests run against the compiled library.
- `app/` — ordinary Rust around the library: the `chronos` command-line tool,
  files on disk (projects, layouts, asset folders, hot reload through
  `notify`), audio playback through `rodio`, the egui drawing of the panels,
  and the floating-point code (animation, gizmo, grid, picking, camera).
