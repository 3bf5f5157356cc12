//! What the editor's keyboard shortcuts do, and when the project is
//! auto-saved.
//!
//! The application finds the action bound to a key press and hands it here;
//! it writes the manifest to disk when an action asks for a save.

use vstd::prelude::*;

use crate::editor_panels::{
    redo_and_log, redo_applied, undo_and_log, undo_applied, ConsoleEntry,
    ConsoleLogLevel, EditorState, GizmoMode, PlayMode,
};
use crate::editor_workspace::shortcuts::ShortcutAction;
use crate::project::ProjectManager;
use crate::text::string_from;
use crate::undo::{EditorCommand, UndoStack};

verus! {

/// Seconds between two auto-saves.
pub const AUTO_SAVE_INTERVAL_SECS: u64 = 60;

/// Whether the project is due for an auto-save: a project is loaded and it
/// was never auto-saved, or the last auto-save is at least a minute old.
pub fn auto_save_due(loaded: bool, since_last_secs: Option<u64>) -> (b: bool)
    ensures
        b == (loaded && match since_last_secs {
            None => true,
            Some(s) => s >= 60,
        }),
{
    loaded && match since_last_secs {
        None => true,
        Some(s) => s >= AUTO_SAVE_INTERVAL_SECS,
    }
}

/// `after` is `before` with one more entry of `level` whose message is
/// `text`.
pub open spec fn log_grew_at(
    before: Seq<ConsoleEntry>,
    after: Seq<ConsoleEntry>,
    level: ConsoleLogLevel,
    text: Seq<char>,
) -> bool {
    &&& after.len() == before.len() + 1
    &&& after.drop_last() == before
    &&& after.last().level == level
    &&& after.last().message@ == text
}

/// `s1` differs from `s0` at most in the world and the log.
pub open spec fn only_world_and_log_changed(s0: EditorState, s1: EditorState) -> bool {
    s1 == EditorState { world: s1.world, console_log: s1.console_log, ..s0 }
}

/// The play mode after Play/Stop: stopped starts playing, anything else
/// stops.
pub open spec fn play_toggled(m: PlayMode) -> PlayMode {
    match m {
        PlayMode::Stopped => PlayMode::Playing,
        _ => PlayMode::Stopped,
    }
}

/// What a shortcut that touches only the editor state does: `action`
/// takes `s0` to `s1`, and `save` tells whether it asks the application to
/// save the project.
#[verifier::opaque]
pub open spec fn state_shortcut_done(s0: EditorState, action: ShortcutAction, s1: EditorState, save: bool) -> bool {
    match action {
        ShortcutAction::GizmoTranslate => s1 == EditorState { gizmo_mode: GizmoMode::Translate, ..s0 } && !save,
        ShortcutAction::GizmoRotate => s1 == EditorState { gizmo_mode: GizmoMode::Rotate, ..s0 } && !save,
        ShortcutAction::GizmoScale => s1 == EditorState { gizmo_mode: GizmoMode::Scale, ..s0 } && !save,
        ShortcutAction::ToggleSnap => s1 == EditorState { snap_enabled: !s0.snap_enabled, ..s0 } && !save,
        ShortcutAction::Delete => (if s0.selected_entities@.len() > 0 {
            s1 == EditorState { delete_selected_requested: true, ..s0 }
        } else {
            s1 == s0
        }) && !save,
        ShortcutAction::Deselect => s1 == EditorState { selected_entities: s1.selected_entities, ..s0 }
            && s1.selected_entities@.len() == 0 && !save,
        ShortcutAction::PlayStop => s1 == EditorState { play_mode: play_toggled(s0.play_mode), ..s0 } && !save,
        ShortcutAction::Quit => s1 == EditorState { should_quit: true, ..s0 } && !save,
        ShortcutAction::NewProject => {
            &&& s1 == EditorState {
                project_manager: ProjectManager { show_new_wizard: true, ..s0.project_manager },
                console_log: s1.console_log,
                ..s0
            }
            &&& log_grew_at(s0.console_log@, s1.console_log@, ConsoleLogLevel::Info, "New project wizard"@)
            &&& !save
        },
        ShortcutAction::OpenProject => {
            &&& s1 == EditorState {
                project_manager: ProjectManager { show_open_dialog: true, ..s0.project_manager },
                console_log: s1.console_log,
                ..s0
            }
            &&& log_grew_at(s0.console_log@, s1.console_log@, ConsoleLogLevel::Info, "Open project dialog"@)
            &&& !save
        },
        ShortcutAction::Save => if s0.project_manager.current_project is Some {
            s1 == s0 && save
        } else {
            &&& s1 == EditorState { console_log: s1.console_log, ..s0 }
            &&& log_grew_at(s0.console_log@, s1.console_log@, ConsoleLogLevel::Warn, "No project loaded to save"@)
            &&& !save
        },
        ShortcutAction::SaveAs => {
            &&& s1 == EditorState { save_as_requested: true, console_log: s1.console_log, ..s0 }
            &&& log_grew_at(s0.console_log@, s1.console_log@, ConsoleLogLevel::Info, "Save As requested"@)
            &&& !save
        },
        _ => s1 == s0 && !save,
    }
}

/// What the shortcut `action` does to the editor state `s0`, the history
/// `u0` and the grid flag `g0`, giving `s1`, `u1`, `g1`, and whether it asks
/// the application to save the project: undo and redo (see
/// [`undo_applied`], [`redo_applied`]), the grid toggle, and otherwise
/// [`state_shortcut_done`].
#[verifier::opaque]
pub open spec fn shortcut_done<C: EditorCommand>(
    s0: EditorState,
    u0: UndoStack<C>,
    g0: bool,
    action: ShortcutAction,
    s1: EditorState,
    u1: UndoStack<C>,
    g1: bool,
    save: bool,
) -> bool {
    if action is Undo {
        &&& only_world_and_log_changed(s0, s1)
        &&& undo_applied(s0.world, s0.console_log@, u0, s1.world, s1.console_log@, u1)
        &&& g1 == g0 && !save
    } else if action is Redo {
        &&& only_world_and_log_changed(s0, s1)
        &&& redo_applied(s0.world, s0.console_log@, u0, s1.world, s1.console_log@, u1)
        &&& g1 == g0 && !save
    } else if action is ToggleGrid {
        s1 == s0 && u1 == u0 && g1 == !g0 && !save
    } else {
        state_shortcut_done(s0, action, s1, save) && u1 == u0 && g1 == g0
    }
}

/// Append an entry of `level` stamped with its position in the log.
fn push_entry(log: &mut Vec<ConsoleEntry>, level: ConsoleLogLevel, message: String)
    ensures
        log_grew_at(old(log)@, final(log)@, level, message@),
{
    let stamp = log.len() as u64;
    log.push(ConsoleEntry { level, message, timestamp_secs: stamp });
    proof {
        assert(final(log)@.drop_last() =~= old(log)@);
    }
}

fn set_gizmo(state: &mut EditorState, mode: GizmoMode)
    ensures
        *final(state) == (EditorState { gizmo_mode: mode, ..*old(state) }),
{
    state.gizmo_mode = mode;
}

fn toggle_snap(state: &mut EditorState)
    ensures
        *final(state) == (EditorState { snap_enabled: !old(state).snap_enabled, ..*old(state) }),
{
    state.snap_enabled = !state.snap_enabled;
}

fn request_delete(state: &mut EditorState)
    ensures
        if old(state).selected_entities@.len() > 0 {
            *final(state) == (EditorState { delete_selected_requested: true, ..*old(state) })
        } else {
            *final(state) == *old(state)
        },
{
    if state.selected_entities.len() > 0 {
        state.delete_selected_requested = true;
    }
}

fn deselect_all(state: &mut EditorState)
    ensures
        *final(state) == (EditorState { selected_entities: final(state).selected_entities, ..*old(state) }),
        final(state).selected_entities@.len() == 0,
{
    state.selected_entities = Vec::new();
}

fn toggle_play(state: &mut EditorState)
    ensures
        *final(state) == (EditorState { play_mode: play_toggled(old(state).play_mode), ..*old(state) }),
{
    state.play_mode = match state.play_mode {
        PlayMode::Stopped => PlayMode::Playing,
        _ => PlayMode::Stopped,
    };
}

fn request_quit(state: &mut EditorState)
    ensures
        *final(state) == (EditorState { should_quit: true, ..*old(state) }),
{
    state.should_quit = true;
}

fn open_new_wizard(state: &mut EditorState)
    ensures
        *final(state) == (EditorState {
            project_manager: ProjectManager { show_new_wizard: true, ..old(state).project_manager },
            console_log: final(state).console_log,
            ..*old(state)
        }),
        log_grew_at(old(state).console_log@, final(state).console_log@, ConsoleLogLevel::Info, "New project wizard"@),
{
    state.project_manager.show_new_wizard = true;
    push_entry(&mut state.console_log, ConsoleLogLevel::Info, string_from("New project wizard"));
}

fn open_open_dialog(state: &mut EditorState)
    ensures
        *final(state) == (EditorState {
            project_manager: ProjectManager { show_open_dialog: true, ..old(state).project_manager },
            console_log: final(state).console_log,
            ..*old(state)
        }),
        log_grew_at(old(state).console_log@, final(state).console_log@, ConsoleLogLevel::Info, "Open project dialog"@),
{
    state.project_manager.show_open_dialog = true;
    push_entry(&mut state.console_log, ConsoleLogLevel::Info, string_from("Open project dialog"));
}

fn save_shortcut(state: &mut EditorState) -> (save: bool)
    ensures
        save == old(state).project_manager.current_project is Some,
        save ==> *final(state) == *old(state),
        !save ==> *final(state) == (EditorState { console_log: final(state).console_log, ..*old(state) })
            && log_grew_at(old(state).console_log@, final(state).console_log@, ConsoleLogLevel::Warn, "No project loaded to save"@),
{
    if state.project_manager.is_loaded() {
        true
    } else {
        push_entry(&mut state.console_log, ConsoleLogLevel::Warn, string_from("No project loaded to save"));
        false
    }
}

fn request_save_as(state: &mut EditorState)
    ensures
        *final(state) == (EditorState { save_as_requested: true, console_log: final(state).console_log, ..*old(state) }),
        log_grew_at(old(state).console_log@, final(state).console_log@, ConsoleLogLevel::Info, "Save As requested"@),
{
    state.save_as_requested = true;
    push_entry(&mut state.console_log, ConsoleLogLevel::Info, string_from("Save As requested"));
}

#[verifier::rlimit(100)]
#[verifier::spinoff_prover]
fn undo_shortcut<C: EditorCommand>(state: &mut EditorState, undo_stack: &mut UndoStack<C>)
    requires
        old(state).world.wf(),
    ensures
        final(state).world.wf(),
        only_world_and_log_changed(*old(state), *final(state)),
        undo_applied(old(state).world, old(state).console_log@, *old(undo_stack), final(state).world, final(state).console_log@, *final(undo_stack)),
{
    undo_and_log(&mut state.world, &mut state.console_log, undo_stack);
}

#[verifier::rlimit(100)]
#[verifier::spinoff_prover]
fn redo_shortcut<C: EditorCommand>(state: &mut EditorState, undo_stack: &mut UndoStack<C>)
    requires
        old(state).world.wf(),
    ensures
        final(state).world.wf(),
        only_world_and_log_changed(*old(state), *final(state)),
        redo_applied(old(state).world, old(state).console_log@, *old(undo_stack), final(state).world, final(state).console_log@, *final(undo_stack)),
{
    redo_and_log(&mut state.world, &mut state.console_log, undo_stack);
}

/// A shortcut that touches only the editor state leaves the world as it was.
proof fn lemma_state_shortcut_keeps_world(s0: EditorState, action: ShortcutAction, s1: EditorState, save: bool)
    requires
        state_shortcut_done(s0, action, s1, save),
    ensures
        s1.world == s0.world,
{
    reveal(state_shortcut_done);
}

/// Carry out a shortcut that touches only the editor state.
#[verifier::rlimit(100)]
#[verifier::spinoff_prover]
fn apply_state_shortcut(state: &mut EditorState, action: ShortcutAction) -> (save: bool)
    ensures
        state_shortcut_done(*old(state), action, *final(state), save),
{
    reveal(state_shortcut_done);
    match action {
        ShortcutAction::GizmoTranslate => set_gizmo(state, GizmoMode::Translate),
        ShortcutAction::GizmoRotate => set_gizmo(state, GizmoMode::Rotate),
        ShortcutAction::GizmoScale => set_gizmo(state, GizmoMode::Scale),
        ShortcutAction::ToggleSnap => toggle_snap(state),
        ShortcutAction::Delete => request_delete(state),
        ShortcutAction::Deselect => deselect_all(state),
        ShortcutAction::PlayStop => toggle_play(state),
        ShortcutAction::Quit => request_quit(state),
        ShortcutAction::NewProject => open_new_wizard(state),
        ShortcutAction::OpenProject => open_open_dialog(state),
        ShortcutAction::Save => {
            return save_shortcut(state);
        },
        ShortcutAction::SaveAs => request_save_as(state),
        _ => {},
    }
    false
}

/// Carry out the shortcut `action`: undo and redo (when the world has
/// room) with a log entry, gizmo modes, snap and grid toggles, a delete
/// request for a non-empty selection, deselect, play/stop, quit, the new
/// and open project dialogs, save (`true` asks the application to save the
/// loaded project; without one a warning is logged) and save-as. Other
/// actions do nothing here.
#[verifier::rlimit(100)]
#[verifier::spinoff_prover]
pub fn apply_shortcut<C: EditorCommand>(
    state: &mut EditorState,
    undo_stack: &mut UndoStack<C>,
    grid_visible: &mut bool,
    action: ShortcutAction,
) -> (save_requested: bool)
    requires
        old(state).world.wf(),
    ensures
        final(state).world.wf(),
        shortcut_done(
            *old(state),
            *old(undo_stack),
            *old(grid_visible),
            action,
            *final(state),
            *final(undo_stack),
            *final(grid_visible),
            save_requested,
        ),
{
    if matches!(action, ShortcutAction::Undo) {
        undo_shortcut(state, undo_stack);
        proof {
            lemma_history_shortcut(*old(state), *old(undo_stack), *old(grid_visible), action, *state, *undo_stack);
        }
        false
    } else if matches!(action, ShortcutAction::Redo) {
        redo_shortcut(state, undo_stack);
        proof {
            lemma_history_shortcut(*old(state), *old(undo_stack), *old(grid_visible), action, *state, *undo_stack);
        }
        false
    } else if matches!(action, ShortcutAction::ToggleGrid) {
        *grid_visible = !*grid_visible;
        proof {
            lemma_grid_shortcut(*old(state), *old(undo_stack), *old(grid_visible), action);
        }
        false
    } else {
        let save = apply_state_shortcut(state, action);
        proof {
            lemma_state_shortcut_keeps_world(*old(state), action, *state, save);
            lemma_state_shortcut_is_shortcut(*old(state), *old(undo_stack), *old(grid_visible), action, *state, save);
        }
        save
    }
}

/// Undo and redo shortcuts as their helpers carry them out.
proof fn lemma_history_shortcut<C: EditorCommand>(
    s0: EditorState,
    u0: UndoStack<C>,
    g0: bool,
    action: ShortcutAction,
    s1: EditorState,
    u1: UndoStack<C>,
)
    requires
        action is Undo || action is Redo,
        only_world_and_log_changed(s0, s1),
        action is Undo ==> undo_applied(s0.world, s0.console_log@, u0, s1.world, s1.console_log@, u1),
        action is Redo ==> redo_applied(s0.world, s0.console_log@, u0, s1.world, s1.console_log@, u1),
    ensures
        shortcut_done(s0, u0, g0, action, s1, u1, g0, false),
{
    reveal(shortcut_done);
}

/// The grid shortcut flips the grid flag only.
proof fn lemma_grid_shortcut<C: EditorCommand>(s0: EditorState, u0: UndoStack<C>, g0: bool, action: ShortcutAction)
    requires
        action is ToggleGrid,
    ensures
        shortcut_done(s0, u0, g0, action, s0, u0, !g0, false),
{
    reveal(shortcut_done);
}

/// A shortcut other than undo, redo and the grid toggle is a state shortcut.
proof fn lemma_state_shortcut_is_shortcut<C: EditorCommand>(
    s0: EditorState,
    u0: UndoStack<C>,
    g0: bool,
    action: ShortcutAction,
    s1: EditorState,
    save: bool,
)
    requires
        !(action is Undo),
        !(action is Redo),
        !(action is ToggleGrid),
        state_shortcut_done(s0, action, s1, save),
    ensures
        shortcut_done(s0, u0, g0, action, s1, u0, g0, save),
{
    reveal(shortcut_done);
}


/// The gizmo mode a gizmo shortcut selects: W translates, E rotates, R
/// scales.
pub open spec fn gizmo_mode_for(action: ShortcutAction) -> Option<GizmoMode> {
    match action {
        ShortcutAction::GizmoTranslate => Some(GizmoMode::Translate),
        ShortcutAction::GizmoRotate => Some(GizmoMode::Rotate),
        ShortcutAction::GizmoScale => Some(GizmoMode::Scale),
        _ => None,
    }
}

/// A gizmo shortcut sets the gizmo mode it names, whatever the mode was,
/// and changes nothing else: the three shortcuts select three different
/// modes, and after several the last one pressed decides.
pub proof fn gizmo_shortcut_selects_its_mode<C: EditorCommand>(
    s0: EditorState,
    u0: UndoStack<C>,
    g0: bool,
    action: ShortcutAction,
    s1: EditorState,
    u1: UndoStack<C>,
    g1: bool,
    save: bool,
)
    requires
        shortcut_done(s0, u0, g0, action, s1, u1, g1, save),
        gizmo_mode_for(action) is Some,
    ensures
        s1.gizmo_mode == gizmo_mode_for(action).unwrap(),
        action is GizmoTranslate ==> s1.gizmo_mode == GizmoMode::Translate,
        action is GizmoRotate ==> s1.gizmo_mode == GizmoMode::Rotate,
        action is GizmoScale ==> s1.gizmo_mode == GizmoMode::Scale,
        s1 == (EditorState { gizmo_mode: s1.gizmo_mode, ..s0 }),
        u1 == u0,
        g1 == g0,
        !save,
        gizmo_mode_for(ShortcutAction::GizmoTranslate) != gizmo_mode_for(ShortcutAction::GizmoRotate),
        gizmo_mode_for(ShortcutAction::GizmoRotate) != gizmo_mode_for(ShortcutAction::GizmoScale),
        gizmo_mode_for(ShortcutAction::GizmoTranslate) != gizmo_mode_for(ShortcutAction::GizmoScale),
{
    lemma_gizmo_is_state_shortcut(s0, u0, g0, action, s1, u1, g1, save);
    lemma_gizmo_state_shortcut(s0, action, s1, save);
}

proof fn lemma_gizmo_is_state_shortcut<C: EditorCommand>(
    s0: EditorState,
    u0: UndoStack<C>,
    g0: bool,
    action: ShortcutAction,
    s1: EditorState,
    u1: UndoStack<C>,
    g1: bool,
    save: bool,
)
    requires
        shortcut_done(s0, u0, g0, action, s1, u1, g1, save),
        gizmo_mode_for(action) is Some,
    ensures
        state_shortcut_done(s0, action, s1, save),
        u1 == u0,
        g1 == g0,
{
    reveal(shortcut_done);
}

proof fn lemma_gizmo_state_shortcut(s0: EditorState, action: ShortcutAction, s1: EditorState, save: bool)
    requires
        state_shortcut_done(s0, action, s1, save),
        gizmo_mode_for(action) is Some,
    ensures
        s1 == (EditorState { gizmo_mode: gizmo_mode_for(action).unwrap(), ..s0 }),
        !save,
{
    reveal(state_shortcut_done);
}

} // verus!
