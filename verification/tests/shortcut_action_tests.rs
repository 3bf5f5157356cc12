use chronos_engine::editor_panels::shortcut_actions::{apply_shortcut, auto_save_due};
use chronos_engine::editor_panels::{ConsoleLogLevel, EditorState, GizmoMode, PlayMode};
use chronos_engine::editor_workspace::shortcuts::ShortcutAction;
use chronos_engine::project::{ProjectManager, ProjectManifest, ProjectTemplate};
use chronos_engine::undo::{Command, CreateEntityCommand, UndoStack};

#[test]
fn auto_save_due_after_a_minute_with_project() {
    assert!(auto_save_due(true, None));
    assert!(auto_save_due(true, Some(60)));
    assert!(!auto_save_due(true, Some(59)));
    assert!(!auto_save_due(false, None));
    assert!(!auto_save_due(false, Some(120)));
}

#[test]
fn shortcut_modes_and_toggles() {
    let mut state = EditorState::new();
    let mut stack: UndoStack<Command> = UndoStack::new();
    let mut grid = true;
    assert!(!apply_shortcut(&mut state, &mut stack, &mut grid, ShortcutAction::GizmoRotate));
    assert_eq!(state.gizmo_mode, GizmoMode::Rotate);
    apply_shortcut(&mut state, &mut stack, &mut grid, ShortcutAction::GizmoScale);
    assert_eq!(state.gizmo_mode, GizmoMode::Scale);
    apply_shortcut(&mut state, &mut stack, &mut grid, ShortcutAction::ToggleSnap);
    assert!(state.snap_enabled);
    apply_shortcut(&mut state, &mut stack, &mut grid, ShortcutAction::ToggleGrid);
    assert!(!grid);
    apply_shortcut(&mut state, &mut stack, &mut grid, ShortcutAction::PlayStop);
    assert_eq!(state.play_mode, PlayMode::Playing);
    apply_shortcut(&mut state, &mut stack, &mut grid, ShortcutAction::PlayStop);
    assert_eq!(state.play_mode, PlayMode::Stopped);
    apply_shortcut(&mut state, &mut stack, &mut grid, ShortcutAction::Quit);
    assert!(state.should_quit);
}

#[test]
fn shortcut_delete_deselect_and_dialogs() {
    let mut state = EditorState::new();
    let mut stack: UndoStack<Command> = UndoStack::new();
    let mut grid = true;
    apply_shortcut(&mut state, &mut stack, &mut grid, ShortcutAction::Delete);
    assert!(!state.delete_selected_requested);
    let e = state.world.create_entity();
    state.select(e);
    apply_shortcut(&mut state, &mut stack, &mut grid, ShortcutAction::Delete);
    assert!(state.delete_selected_requested);
    apply_shortcut(&mut state, &mut stack, &mut grid, ShortcutAction::Deselect);
    assert!(state.selected_entities.is_empty());
    apply_shortcut(&mut state, &mut stack, &mut grid, ShortcutAction::NewProject);
    assert!(state.project_manager.show_new_wizard);
    assert_eq!(state.console_log.last().unwrap().message, "New project wizard");
    apply_shortcut(&mut state, &mut stack, &mut grid, ShortcutAction::OpenProject);
    assert!(state.project_manager.show_open_dialog);
    apply_shortcut(&mut state, &mut stack, &mut grid, ShortcutAction::SaveAs);
    assert!(state.save_as_requested);
    assert_eq!(state.console_log.last().unwrap().message, "Save As requested");
}

#[test]
fn shortcut_save_without_and_with_project() {
    let mut state = EditorState::new();
    let mut stack: UndoStack<Command> = UndoStack::new();
    let mut grid = true;
    assert!(!apply_shortcut(&mut state, &mut stack, &mut grid, ShortcutAction::Save));
    let last = state.console_log.last().unwrap();
    assert_eq!(last.level, ConsoleLogLevel::Warn);
    assert_eq!(last.message, "No project loaded to save");
    let manifest = ProjectManifest::new("Game", ProjectTemplate::Empty);
    state.project_manager = ProjectManager::open_project(manifest, "/tmp/game");
    let n = state.console_log.len();
    assert!(apply_shortcut(&mut state, &mut stack, &mut grid, ShortcutAction::Save));
    assert_eq!(state.console_log.len(), n);
}

#[test]
fn shortcut_undo_redo_log_descriptions() {
    let mut state = EditorState::new();
    let mut stack: UndoStack<Command> = UndoStack::new();
    let mut grid = true;
    let e = state.world.create_entity();
    stack.push(Command::Create(CreateEntityCommand::new(e)));
    apply_shortcut(&mut state, &mut stack, &mut grid, ShortcutAction::Undo);
    assert!(!state.world.entity_exists(e));
    assert!(state.console_log.last().unwrap().message.starts_with("Undo: Create entity"));
    assert_eq!(stack.redo_count(), 1);
    apply_shortcut(&mut state, &mut stack, &mut grid, ShortcutAction::Redo);
    assert!(state.console_log.last().unwrap().message.starts_with("Redo: Create entity"));
    assert_eq!(stack.undo_count(), 1);
    assert_eq!(state.world.entity_count(), 1);
}

#[test]
fn history_limit_keeps_newest_commands() {
    let mut world = chronos_engine::world::World::new();
    let mut stack: UndoStack<Command> = UndoStack::new().with_max_history(3);
    for _ in 0..5 {
        let e = world.create_entity();
        stack.push(Command::Create(CreateEntityCommand::new(e)));
    }
    assert_eq!(stack.undo_count(), 3);
}
